//! Distance metrics used when measuring similarity between traces.
//!
//! A distance metric is a pure function that compares the same component of
//! two traces to determine how far apart they are. The set of metrics is
//! closed, so it is modelled as an enum; each variant's algorithm lives in
//! its own module.

use vstd::prelude::*;

use crate::distance_metric::hamming::{spec_hamming, Hamming};
use crate::error::RosaError;
use crate::text::str_eq;

pub mod hamming;

verus! {

/// Whether a vector is short enough for a distance computation: each byte
/// contributes at most 255, so this bound keeps every distance below
/// `u64::MAX`.
pub open spec fn spec_len_ok(n: int) -> bool {
    n <= 0x100_0000_0000_0000
}

/// A distance metric over byte vectors.
#[derive(Clone, Copy, Debug, PartialEq, Eq, Structural)]
pub enum DistanceMetric {
    /// The Hamming distance (byte-wise XOR, summed).
    Hamming,
}

impl DistanceMetric {
    /// The distance between two vectors under this metric.
    pub open spec fn spec_dist(self, v1: Seq<u8>, v2: Seq<u8>) -> int {
        match self {
            DistanceMetric::Hamming => spec_hamming(v1, v2),
        }
    }

    /// Computes the distance between two vectors of bytes.
    pub fn dist(&self, v1: &Vec<u8>, v2: &Vec<u8>) -> (r: u64)
        requires
            v1@.len() == v2@.len(),
            spec_len_ok(v1@.len() as int),
        ensures
            r == self.spec_dist(v1@, v2@),
    {
        match self {
            DistanceMetric::Hamming => Hamming.distance(v1, v2),
        }
    }

    /// The stable tag of the metric, as used in configuration files.
    pub open spec fn spec_name(self) -> Seq<char> {
        match self {
            DistanceMetric::Hamming => "hamming"@,
        }
    }

    /// The stable tag of the metric.
    pub fn name(&self) -> (r: &str)
        ensures
            r@ == self.spec_name(),
    {
        match self {
            DistanceMetric::Hamming => "hamming",
        }
    }

    /// Parses a metric tag; fails exactly on the strings that name no metric.
    pub fn from_name(s: &str) -> (r: Result<DistanceMetric, RosaError>)
        ensures
            r matches Ok(m) ==> m.spec_name() == s@,
            r is Err ==> forall|m: DistanceMetric| m.spec_name() != s@,
    {
        if str_eq(s, "hamming") {
            Ok(DistanceMetric::Hamming)
        } else {
            proof {
                assert forall|m: DistanceMetric| m.spec_name() != s@ by {
                    assert(m.spec_name() == "hamming"@);
                }
            }
            Err(
                RosaError::new(
                    "rosa::distance_metric",
                    0,
                    "distance_metric.rs",
                    "invalid distance metric.",
                ),
            )
        }
    }
}

} // verus!
