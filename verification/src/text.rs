//! Small verified text utilities: decimal, hexadecimal and zero-padded
//! rendering of integers, and character-wise string comparison.
//!
//! Identifiers such as cluster uids (`cluster_000042`) and discriminant
//! fingerprints (`00c0ffee00c0ffee_cluster_000000`) are built from these.

use vstd::prelude::*;

verus! {

/// The character for a single decimal digit.
pub open spec fn spec_digit(d: int) -> char {
    if d == 0 {
        '0'
    } else if d == 1 {
        '1'
    } else if d == 2 {
        '2'
    } else if d == 3 {
        '3'
    } else if d == 4 {
        '4'
    } else if d == 5 {
        '5'
    } else if d == 6 {
        '6'
    } else if d == 7 {
        '7'
    } else if d == 8 {
        '8'
    } else {
        '9'
    }
}

/// The character for a single hexadecimal digit (lower case).
pub open spec fn spec_hex_digit(d: int) -> char {
    if d < 10 {
        spec_digit(d)
    } else if d == 10 {
        'a'
    } else if d == 11 {
        'b'
    } else if d == 12 {
        'c'
    } else if d == 13 {
        'd'
    } else if d == 14 {
        'e'
    } else {
        'f'
    }
}

/// The decimal rendering of a number, most significant digit first.
pub open spec fn spec_dec(n: nat) -> Seq<char>
    decreases n,
{
    if n < 10 {
        seq![spec_digit(n as int)]
    } else {
        spec_dec(n / 10).push(spec_digit((n % 10) as int))
    }
}

/// The decimal rendering left-padded with zeroes up to `width` characters.
pub open spec fn spec_dec_pad(n: nat, width: int) -> Seq<char> {
    let digits = spec_dec(n);
    if digits.len() >= width {
        digits
    } else {
        Seq::new((width - digits.len()) as nat, |i: int| '0') + digits
    }
}

/// One nibble of a 64-bit value; `pos` counts from the least significant.
pub open spec fn spec_nibble(n: u64, pos: int) -> int {
    ((n >> ((4 * pos) as u64)) & 0xf) as int
}

/// The 16-character, zero-padded, lower-case hexadecimal rendering of a
/// 64-bit value.
pub open spec fn spec_hex16(n: u64) -> Seq<char> {
    Seq::new(16, |i: int| spec_hex_digit(spec_nibble(n, 15 - i)))
}

/// Character-wise (code point) lexicographic order on strings; for the ASCII
/// file names the fuzzers produce this is the order `str` sorts in.
pub open spec fn spec_str_le(a: Seq<char>, b: Seq<char>) -> bool
    decreases a.len(),
{
    if a.len() == 0 {
        true
    } else if b.len() == 0 {
        false
    } else if (a[0] as u32) == (b[0] as u32) {
        spec_str_le(a.drop_first(), b.drop_first())
    } else {
        (a[0] as u32) < (b[0] as u32)
    }
}

/// The string with every occurrence of a non-empty pattern replaced,
/// scanning left to right without overlap.
pub open spec fn spec_replace(s: Seq<char>, pat: Seq<char>, to: Seq<char>) -> Seq<char>
    decreases s.len(),
{
    if pat.len() == 0 || s.len() < pat.len() {
        s
    } else if s.take(pat.len() as int) == pat {
        to + spec_replace(s.skip(pat.len() as int), pat, to)
    } else {
        seq![s[0]] + spec_replace(s.drop_first(), pat, to)
    }
}

/// The lexicographic order is total: of any two strings, one sorts at or
/// before the other.
pub proof fn lemma_str_le_total(a: Seq<char>, b: Seq<char>)
    ensures
        spec_str_le(a, b) || spec_str_le(b, a),
    decreases a.len(),
{
    if a.len() > 0 && b.len() > 0 && (a[0] as u32) == (b[0] as u32) {
        lemma_str_le_total(a.drop_first(), b.drop_first());
    }
}

/// The lexicographic order is transitive.
pub proof fn lemma_str_le_trans(a: Seq<char>, b: Seq<char>, c: Seq<char>)
    requires
        spec_str_le(a, b),
        spec_str_le(b, c),
    ensures
        spec_str_le(a, c),
    decreases a.len(),
{
    if a.len() > 0 && b.len() > 0 && c.len() > 0 {
        if (a[0] as u32) == (b[0] as u32) && (b[0] as u32) == (c[0] as u32) {
            lemma_str_le_trans(a.drop_first(), b.drop_first(), c.drop_first());
        }
    }
}

/// Relies on `String::push`: appends a single character.
#[verifier::external_body]
pub fn push_char(s: &mut String, c: char)
    ensures
        final(s)@ == old(s)@.push(c),
{
    s.push(c);
}

/// Relies on `str::replace`: replaces every match of the pattern, found
/// left to right without overlap, with the replacement string.
#[verifier::external_body]
pub fn str_replace(s: &str, pat: &str, to: &str) -> (r: String)
    requires
        pat@.len() > 0,
    ensures
        r@ == spec_replace(s@, pat@, to@),
{
    s.replace(pat, to)
}

/// The exec rendering of one decimal digit.
pub fn digit_char(d: u64) -> (c: char)
    requires
        d < 10,
    ensures
        c == spec_digit(d as int),
{
    if d == 0 {
        '0'
    } else if d == 1 {
        '1'
    } else if d == 2 {
        '2'
    } else if d == 3 {
        '3'
    } else if d == 4 {
        '4'
    } else if d == 5 {
        '5'
    } else if d == 6 {
        '6'
    } else if d == 7 {
        '7'
    } else if d == 8 {
        '8'
    } else {
        '9'
    }
}

/// The exec rendering of one hexadecimal digit.
pub fn hex_digit_char(d: u64) -> (c: char)
    requires
        d < 16,
    ensures
        c == spec_hex_digit(d as int),
{
    if d < 10 {
        digit_char(d)
    } else if d == 10 {
        'a'
    } else if d == 11 {
        'b'
    } else if d == 12 {
        'c'
    } else if d == 13 {
        'd'
    } else if d == 14 {
        'e'
    } else {
        'f'
    }
}

proof fn lemma_reverse_push(s: Seq<char>, c: char)
    ensures
        s.push(c).reverse() =~= seq![c] + s.reverse(),
{
}

/// Appends the decimal rendering of `n` to `out`.
pub fn push_dec(out: &mut String, n: u64)
    ensures
        final(out)@ == old(out)@ + spec_dec(n as nat),
{
    let mut rev: Vec<char> = Vec::new();
    let mut m: u64 = n;
    loop
        invariant_except_break
            spec_dec(n as nat) =~= spec_dec(m as nat) + rev@.reverse(),
        ensures
            spec_dec(n as nat) =~= rev@.reverse(),
        decreases m,
    {
        let d = digit_char(m % 10);
        proof {
            lemma_reverse_push(rev@, d);
            if m >= 10 {
                assert(spec_dec(m as nat) =~= spec_dec((m / 10) as nat) + seq![d]);
                assert(spec_dec((m / 10) as nat) + seq![d] + rev@.reverse() =~= spec_dec(
                    (m / 10) as nat,
                ) + rev@.push(d).reverse());
            } else {
                assert(spec_dec(m as nat) =~= seq![d]);
            }
        }
        rev.push(d);
        if m < 10 {
            proof {
                assert(spec_dec(n as nat) =~= rev@.reverse());
            }
            break ;
        }
        m = m / 10;
    }
    let ghost prefix = out@;
    let len = rev.len();
    let mut k: usize = 0;
    while k < len
        invariant
            len == rev@.len(),
            k <= len,
            spec_dec(n as nat) =~= rev@.reverse(),
            out@ == prefix + rev@.reverse().take(k as int),
        decreases len - k,
    {
        let c = rev[len - 1 - k];
        proof {
            assert(rev@.reverse()[k as int] == rev@[len - 1 - k]);
            assert(prefix + rev@.reverse().take(k as int + 1) =~= (prefix + rev@.reverse().take(
                k as int,
            )).push(c));
        }
        push_char(out, c);
        k = k + 1;
    }
    proof {
        assert(rev@.reverse().take(len as int) =~= rev@.reverse());
    }
}

/// Appends the decimal rendering of `n`, left-padded with zeroes to `width`
/// characters.
pub fn push_dec_pad(out: &mut String, n: u64, width: usize)
    ensures
        final(out)@ == old(out)@ + spec_dec_pad(n as nat, width as int),
{
    let digits = dec_string(n);
    let ghost prefix = out@;
    if digits.as_str().unicode_len() < width {
        let pad = width - digits.as_str().unicode_len();
        let mut j: usize = 0;
        while j < pad
            invariant
                j <= pad,
                out@ == prefix + Seq::new(j as nat, |i: int| '0'),
            decreases pad - j,
        {
            proof {
                assert(prefix + Seq::new((j + 1) as nat, |i: int| '0') =~= (prefix + Seq::new(
                    j as nat,
                    |i: int| '0',
                )).push('0'));
            }
            push_char(out, '0');
            j = j + 1;
        }
        out.append(digits.as_str());
        proof {
            assert(out@ =~= prefix + spec_dec_pad(n as nat, width as int));
        }
    } else {
        out.append(digits.as_str());
        proof {
            assert(out@ =~= prefix + spec_dec_pad(n as nat, width as int));
        }
    }
}

/// The decimal rendering of `n` as a fresh string.
pub fn dec_string(n: u64) -> (r: String)
    ensures
        r@ == spec_dec(n as nat),
{
    let mut s = String::new();
    push_dec(&mut s, n);
    proof {
        assert(s@ =~= spec_dec(n as nat));
    }
    s
}

proof fn lemma_nibble_bound(n: u64, sh: u64)
    ensures
        (n >> sh) & 0xf < 16,
{
    assert((n >> sh) & 0xf < 16) by (bit_vector);
}

/// Appends the 16-character hexadecimal rendering of `n`.
pub fn push_hex16(out: &mut String, n: u64)
    ensures
        final(out)@ == old(out)@ + spec_hex16(n),
{
    let ghost prefix = out@;
    let mut i: usize = 0;
    while i < 16
        invariant
            i <= 16,
            out@ == prefix + spec_hex16(n).take(i as int),
        decreases 16 - i,
    {
        let sh: u64 = (4 * (15 - i)) as u64;
        proof {
            lemma_nibble_bound(n, sh);
        }
        let d: u64 = (n >> sh) & 0xf;
        let c = hex_digit_char(d);
        proof {
            assert(spec_hex16(n)[i as int] == spec_hex_digit(spec_nibble(n, 15 - i)));
            assert(spec_nibble(n, 15 - i as int) == d as int);
            assert(prefix + spec_hex16(n).take(i as int + 1) =~= (prefix + spec_hex16(n).take(
                i as int,
            )).push(c));
        }
        push_char(out, c);
        i = i + 1;
    }
    proof {
        assert(spec_hex16(n).take(16) =~= spec_hex16(n));
    }
}

/// Whether two string slices hold the same characters.
pub fn str_eq(a: &str, b: &str) -> (r: bool)
    ensures
        r == (a@ == b@),
{
    let sa: String = a.to_owned();
    let sb: String = b.to_owned();
    sa == sb
}

proof fn lemma_str_le_skip(a: Seq<char>, b: Seq<char>, i: int)
    requires
        0 <= i <= a.len(),
        i <= b.len(),
        forall|j: int| 0 <= j < i ==> (a[j] as u32) == (b[j] as u32),
    ensures
        spec_str_le(a, b) == spec_str_le(a.skip(i), b.skip(i)),
    decreases i,
{
    if i > 0 {
        assert(a.len() > 0 && b.len() > 0 && (a[0] as u32) == (b[0] as u32));
        lemma_str_le_skip(a.drop_first(), b.drop_first(), i - 1);
        assert(a.drop_first().skip(i - 1) =~= a.skip(i));
        assert(b.drop_first().skip(i - 1) =~= b.skip(i));
    } else {
        assert(a.skip(0) =~= a);
        assert(b.skip(0) =~= b);
    }
}

/// Whether `a` sorts at or before `b` in character-wise lexicographic order.
pub fn str_le(a: &str, b: &str) -> (r: bool)
    ensures
        r == spec_str_le(a@, b@),
{
    let alen = a.unicode_len();
    let blen = b.unicode_len();
    let mut i: usize = 0;
    loop
        invariant
            alen == a@.len(),
            blen == b@.len(),
            i <= alen,
            i <= blen,
            forall|j: int| 0 <= j < i ==> (a@[j] as u32) == (b@[j] as u32),
        decreases alen - i,
    {
        proof {
            lemma_str_le_skip(a@, b@, i as int);
        }
        if i == alen {
            proof {
                assert(a@.skip(i as int).len() == 0);
            }
            return true;
        }
        if i == blen {
            proof {
                assert(b@.skip(i as int).len() == 0 && a@.skip(i as int).len() > 0);
            }
            return false;
        }
        let ca = a.get_char(i) as u32;
        let cb = b.get_char(i) as u32;
        if ca != cb {
            proof {
                let sa = a@.skip(i as int);
                let sb = b@.skip(i as int);
                assert(sa[0] == a@[i as int] && sb[0] == b@[i as int]);
            }
            return ca < cb;
        }
        i = i + 1;
    }
}

} // verus!
