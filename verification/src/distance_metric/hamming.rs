//! The Hamming distance metric: byte-wise XOR of the two vectors, with every
//! resulting byte added up as a small count.

use vstd::prelude::*;

use crate::distance_metric::spec_len_ok;

verus! {

/// The Hamming distance over the first `n` bytes.
pub open spec fn spec_hamming_to(v1: Seq<u8>, v2: Seq<u8>, n: int) -> int
    decreases n,
{
    if n <= 0 {
        0
    } else {
        spec_hamming_to(v1, v2, n - 1) + (v1[n - 1] ^ v2[n - 1])
    }
}

/// The Hamming distance between two vectors of equal length.
pub open spec fn spec_hamming(v1: Seq<u8>, v2: Seq<u8>) -> int {
    spec_hamming_to(v1, v2, v1.len() as int)
}

/// The Hamming distance over `n` bytes stays between `0` and `255 * n`.
pub proof fn lemma_hamming_bound(v1: Seq<u8>, v2: Seq<u8>, n: int)
    requires
        0 <= n,
    ensures
        0 <= spec_hamming_to(v1, v2, n) <= 255 * n,
    decreases n,
{
    if n > 0 {
        lemma_hamming_bound(v1, v2, n - 1);
    }
}

/// The Hamming distance metric.
#[derive(Clone, Copy, Debug, PartialEq, Eq, Structural)]
pub struct Hamming;

impl Hamming {
    /// The stable tag of the metric.
    pub fn name(&self) -> (r: &str)
        ensures
            r@ == "hamming"@,
    {
        "hamming"
    }

    /// Computes the Hamming distance between two vectors of equal length.
    pub fn distance(&self, v1: &Vec<u8>, v2: &Vec<u8>) -> (r: u64)
        requires
            v1@.len() == v2@.len(),
            spec_len_ok(v1@.len() as int),
        ensures
            r == spec_hamming(v1@, v2@),
    {
        let mut acc: u64 = 0;
        let mut i: usize = 0;
        while i < v1.len()
            invariant
                v1@.len() == v2@.len(),
                spec_len_ok(v1@.len() as int),
                i <= v1@.len(),
                acc == spec_hamming_to(v1@, v2@, i as int),
                acc <= 255 * i,
            decreases v1@.len() - i,
        {
            proof {
                lemma_hamming_bound(v1@, v2@, i + 1);
            }
            acc = acc + ((v1[i] ^ v2[i]) as u64);
            i = i + 1;
        }
        acc
    }
}

} // verus!
