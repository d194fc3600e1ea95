//! Runtime traces: the `(test input, edge vector, syscall vector)` triples
//! produced by one fuzzer execution of the target program.
//!
//! Besides the trace record itself, this module holds the trace-dump binary
//! codec (little-endian `u64` edge length, `u64` syscall length, then the raw
//! bytes of both vectors), the coverage accounting over a set of traces, and
//! the human-readable renderings of a trace.

use vstd::prelude::*;

use crate::error::RosaError;
use crate::text::{
    push_char, push_dec, push_dec_pad, dec_string, lemma_str_le_total, lemma_str_le_trans,
    spec_dec, spec_dec_pad, spec_hex_digit, spec_str_le, str_eq, str_le, hex_digit_char,
};
use vstd::bytes::{
    lemma_auto_spec_u64_to_from_le_bytes, spec_u64_from_le_bytes, spec_u64_to_le_bytes,
    u64_from_le_bytes, u64_to_le_bytes,
};
use vstd::slice::{slice_subrange, slice_to_vec};

verus! {

/// The mathematical value of a [`Trace`].
#[verifier::ext_equal]
pub ghost struct TraceView {
    /// The unique ID of the trace.
    pub uid: Seq<char>,
    /// The name of the trace, i.e. the file name given by the fuzzer.
    pub name: Seq<char>,
    /// The test input associated with the trace.
    pub test_input: Seq<u8>,
    /// The edge vector of the trace.
    pub edges: Seq<u8>,
    /// The syscall vector of the trace.
    pub syscalls: Seq<u8>,
}

/// A runtime trace.
#[derive(Debug)]
pub struct Trace {
    /// The unique ID of the trace; it prefixes the name of the producing
    /// fuzzer instance to the trace's file name.
    pub uid: String,
    /// The name of the trace (the file name given by the fuzzer).
    pub name: String,
    /// The test input associated with the trace.
    pub test_input: Vec<u8>,
    /// The edges found in the trace (existential vector).
    pub edges: Vec<u8>,
    /// The syscalls found in the trace (existential vector).
    pub syscalls: Vec<u8>,
}

impl View for Trace {
    type V = TraceView;

    open spec fn view(&self) -> TraceView {
        TraceView {
            uid: self.uid@,
            name: self.name@,
            test_input: self.test_input@,
            edges: self.edges@,
            syscalls: self.syscalls@,
        }
    }
}

impl DeepView for Trace {
    type V = TraceView;

    open spec fn deep_view(&self) -> TraceView {
        self.view()
    }
}

/// Copies a byte vector.
fn copy_bytes(v: &Vec<u8>) -> (r: Vec<u8>)
    ensures
        r@ == v@,
{
    let mut r: Vec<u8> = Vec::new();
    let mut i: usize = 0;
    while i < v.len()
        invariant
            i <= v@.len(),
            r@ == v@.take(i as int),
        decreases v@.len() - i,
    {
        r.push(v[i]);
        proof {
            assert(v@.take(i + 1 as int) =~= v@.take(i as int).push(v@[i as int]));
        }
        i = i + 1;
    }
    proof {
        assert(v@.take(v@.len() as int) =~= v@);
    }
    r
}

impl Clone for Trace {
    /// Cloning preserves the trace's value.
    fn clone(&self) -> (r: Trace)
        ensures
            r@ == self@,
    {
        Trace {
            uid: self.uid.clone(),
            name: self.name.clone(),
            test_input: copy_bytes(&self.test_input),
            edges: copy_bytes(&self.edges),
            syscalls: copy_bytes(&self.syscalls),
        }
    }
}

/// The uid of a trace: the producing instance's name, an underscore, and the
/// trace's file name.
pub open spec fn spec_trace_uid(instance: Seq<char>, name: Seq<char>) -> Seq<char> {
    instance + seq!['_'] + name
}

/// Builds the namespaced uid of a trace.
pub fn make_trace_uid(instance: &str, name: &str) -> (r: String)
    ensures
        r@ == spec_trace_uid(instance@, name@),
{
    let mut r: String = instance.to_owned();
    push_char(&mut r, '_');
    r.append(name);
    proof {
        assert(r@ =~= spec_trace_uid(instance@, name@));
    }
    r
}

// ---------------------------------------------------------------------------
// Trace-dump binary codec
// ---------------------------------------------------------------------------
/// The encoded trace dump: both vector lengths as little-endian `u64`s,
/// then the raw bytes of the edge vector and of the syscall vector.
pub open spec fn spec_trace_dump(edges: Seq<u8>, syscalls: Seq<u8>) -> Seq<u8> {
    spec_u64_to_le_bytes(edges.len() as u64) + spec_u64_to_le_bytes(syscalls.len() as u64) + edges
        + syscalls
}

/// Whether a byte string starts with a well-formed trace dump: a full header
/// and at least as many bytes as the header announces.
pub open spec fn spec_dump_well_formed(data: Seq<u8>) -> bool {
    &&& data.len() >= 16
    &&& 16 + spec_dump_edges_len(data) + spec_dump_syscalls_len(data) <= data.len()
}

/// The edge-vector length announced by a dump's header.
pub open spec fn spec_dump_edges_len(data: Seq<u8>) -> int {
    spec_u64_from_le_bytes(data.subrange(0, 8)) as int
}

/// The syscall-vector length announced by a dump's header.
pub open spec fn spec_dump_syscalls_len(data: Seq<u8>) -> int {
    spec_u64_from_le_bytes(data.subrange(8, 16)) as int
}

/// The edge vector held by a well-formed dump.
pub open spec fn spec_dump_edges(data: Seq<u8>) -> Seq<u8> {
    data.subrange(16, 16 + spec_dump_edges_len(data))
}

/// The syscall vector held by a well-formed dump.
pub open spec fn spec_dump_syscalls(data: Seq<u8>) -> Seq<u8> {
    data.subrange(
        16 + spec_dump_edges_len(data),
        16 + spec_dump_edges_len(data) + spec_dump_syscalls_len(data),
    )
}

/// Encodes a pair of vectors as a trace dump.
pub fn encode_trace_dump(edges: &Vec<u8>, syscalls: &Vec<u8>) -> (r: Vec<u8>)
    requires
        edges@.len() + syscalls@.len() + 16 <= u64::MAX,
    ensures
        r@ == spec_trace_dump(edges@, syscalls@),
{
    let mut out = u64_to_le_bytes(edges.len() as u64);
    let mut syscalls_len_bytes = u64_to_le_bytes(syscalls.len() as u64);
    out.append(&mut syscalls_len_bytes);
    let mut edge_bytes = copy_bytes(edges);
    out.append(&mut edge_bytes);
    let mut syscall_bytes = copy_bytes(syscalls);
    out.append(&mut syscall_bytes);
    proof {
        assert(out@ =~= spec_trace_dump(edges@, syscalls@));
    }
    out
}

/// Decodes a trace dump, returning the edge vector and the syscall vector.
///
/// Fails exactly on byte strings that do not start with a well-formed dump:
/// a short header, or fewer payload bytes than the header announces.
pub fn parse_trace_dump(data: &Vec<u8>) -> (r: Result<(Vec<u8>, Vec<u8>), RosaError>)
    ensures
        r is Ok <==> spec_dump_well_formed(data@),
        r matches Ok(p) ==> p.0@ == spec_dump_edges(data@) && p.1@ == spec_dump_syscalls(data@),
{
    if data.len() < 16 {
        return Err(
            RosaError::new(
                "rosa::trace",
                0,
                "trace.rs",
                "could not read the length header of the trace dump.",
            ),
        );
    }
    let s = data.as_slice();
    let edges_len = u64_from_le_bytes(slice_subrange(s, 0, 8));
    let syscalls_len = u64_from_le_bytes(slice_subrange(s, 8, 16));
    let remaining: u64 = (data.len() - 16) as u64;
    if edges_len > remaining || syscalls_len > remaining - edges_len {
        return Err(
            RosaError::new(
                "rosa::trace",
                0,
                "trace.rs",
                "trace dump is shorter than its header announces.",
            ),
        );
    }
    let edges_end: usize = 16 + edges_len as usize;
    let syscalls_end: usize = edges_end + syscalls_len as usize;
    let edges = slice_to_vec(slice_subrange(s, 16, edges_end));
    let syscalls = slice_to_vec(slice_subrange(s, edges_end, syscalls_end));
    proof {
        assert(edges@ =~= spec_dump_edges(data@));
        assert(syscalls@ =~= spec_dump_syscalls(data@));
    }
    Ok((edges, syscalls))
}

/// Round trip: decoding an encoded dump gives back exactly the two vectors
/// that were encoded.
pub proof fn lemma_trace_dump_round_trip(edges: Seq<u8>, syscalls: Seq<u8>)
    requires
        edges.len() + syscalls.len() + 16 <= u64::MAX,
    ensures
        spec_dump_well_formed(spec_trace_dump(edges, syscalls)),
        spec_dump_edges(spec_trace_dump(edges, syscalls)) == edges,
        spec_dump_syscalls(spec_trace_dump(edges, syscalls)) == syscalls,
{
    lemma_auto_spec_u64_to_from_le_bytes();
    let data = spec_trace_dump(edges, syscalls);
    assert(data.subrange(0, 8) =~= spec_u64_to_le_bytes(edges.len() as u64));
    assert(data.subrange(8, 16) =~= spec_u64_to_le_bytes(syscalls.len() as u64));
    assert(spec_dump_edges(data) =~= edges);
    assert(spec_dump_syscalls(data) =~= syscalls);
}

/// Round trip, the other way: re-encoding what a well-formed dump decodes to
/// gives back the dump, byte for byte, as long as the dump has no trailing
/// garbage.
pub proof fn lemma_trace_dump_reencode(data: Seq<u8>)
    requires
        spec_dump_well_formed(data),
        data.len() == 16 + spec_dump_edges_len(data) + spec_dump_syscalls_len(data),
    ensures
        spec_trace_dump(spec_dump_edges(data), spec_dump_syscalls(data)) == data,
{
    lemma_auto_spec_u64_to_from_le_bytes();
    let edges = spec_dump_edges(data);
    let syscalls = spec_dump_syscalls(data);
    assert(edges.len() == spec_dump_edges_len(data));
    assert(syscalls.len() == spec_dump_syscalls_len(data));
    assert(spec_u64_to_le_bytes(spec_u64_from_le_bytes(data.subrange(0, 8))) =~= data.subrange(
        0,
        8,
    ));
    assert(spec_u64_to_le_bytes(spec_u64_from_le_bytes(data.subrange(8, 16))) =~= data.subrange(
        8,
        16,
    ));
    assert(spec_trace_dump(edges, syscalls) =~= data);
}

// ---------------------------------------------------------------------------
// Coverage accounting
// ---------------------------------------------------------------------------
/// Whether index `i` of the chosen vector is non-zero in at least one trace.
pub open spec fn spec_covered(traces: Seq<TraceView>, i: int, edges: bool) -> bool {
    exists|k: int|
        0 <= k < traces.len() && (if edges {
            traces[k].edges[i]
        } else {
            traces[k].syscalls[i]
        }) != 0
}

/// How many of the first `n` indices are covered.
pub open spec fn spec_coverage_count_to(traces: Seq<TraceView>, n: int, edges: bool) -> int
    decreases n,
{
    if n <= 0 {
        0
    } else {
        spec_coverage_count_to(traces, n - 1, edges) + if spec_covered(traces, n - 1, edges) {
            1int
        } else {
            0int
        }
    }
}

/// Tests whether index `i` of the chosen vector is non-zero in some trace.
pub(crate) fn covered_at(traces: &Vec<Trace>, i: usize, edges: bool) -> (r: bool)
    requires
        forall|k: int|
            0 <= k < traces@.len() ==> i < (if edges {
                traces@[k]@.edges.len()
            } else {
                traces@[k]@.syscalls.len()
            }),
    ensures
        r == spec_covered(traces.deep_view(), i as int, edges),
{
    let mut k: usize = 0;
    while k < traces.len()
        invariant
            k <= traces@.len(),
            forall|j: int|
                0 <= j < traces@.len() ==> i < (if edges {
                    traces@[j]@.edges.len()
                } else {
                    traces@[j]@.syscalls.len()
                }),
            forall|j: int|
                0 <= j < k ==> (if edges {
                    traces@[j]@.edges[i as int]
                } else {
                    traces@[j]@.syscalls[i as int]
                }) == 0,
        decreases traces@.len() - k,
    {
        let b = if edges {
            traces[k].edges[i]
        } else {
            traces[k].syscalls[i]
        };
        if b != 0 {
            proof {
                let dv = traces.deep_view();
                assert(dv[k as int] == traces@[k as int]@);
                assert((if edges {
                    dv[k as int].edges[i as int]
                } else {
                    dv[k as int].syscalls[i as int]
                }) != 0);
            }
            return true;
        }
        k = k + 1;
    }
    false
}

/// Counts the covered indices of the chosen vector, over the first
/// `len` indices.
fn coverage_count(traces: &Vec<Trace>, len: usize, edges: bool) -> (r: u64)
    requires
        len <= u64::MAX,
        forall|k: int|
            0 <= k < traces@.len() ==> len <= (if edges {
                traces@[k]@.edges.len()
            } else {
                traces@[k]@.syscalls.len()
            }),
    ensures
        r == spec_coverage_count_to(traces.deep_view(), len as int, edges),
{
    let mut count: u64 = 0;
    let mut i: usize = 0;
    while i < len
        invariant
            i <= len,
            len <= u64::MAX,
            forall|k: int|
                0 <= k < traces@.len() ==> len <= (if edges {
                    traces@[k]@.edges.len()
                } else {
                    traces@[k]@.syscalls.len()
                }),
            count == spec_coverage_count_to(traces.deep_view(), i as int, edges),
            count <= i,
        decreases len - i,
    {
        if covered_at(traces, i, edges) {
            count = count + 1;
        }
        i = i + 1;
    }
    count
}

/// Coverage over a set of traces: how many edge indices and how many syscall
/// indices are non-zero in the elementwise OR of all vectors, together with
/// the vectors' common lengths. With no traces all four numbers are zero.
/// The coverage fractions of the campaign are the two quotients.
pub fn coverage_counts(traces: &Vec<Trace>) -> (r: (u64, u64, u64, u64))
    requires
        traces@.len() > 0 ==> traces@[0]@.edges.len() <= u64::MAX && traces@[0]@.syscalls.len()
            <= u64::MAX,
        forall|k: int|
            #![trigger traces@[k]]
            0 <= k < traces@.len() ==> traces@[k]@.edges.len() == traces@[0]@.edges.len()
                && traces@[k]@.syscalls.len() == traces@[0]@.syscalls.len(),
    ensures
        traces@.len() == 0 ==> r == (0u64, 0u64, 0u64, 0u64),
        traces@.len() > 0 ==> {
            &&& r.0 == spec_coverage_count_to(
                traces.deep_view(),
                traces@[0]@.edges.len() as int,
                true,
            )
            &&& r.1 == traces@[0]@.edges.len()
            &&& r.2 == spec_coverage_count_to(
                traces.deep_view(),
                traces@[0]@.syscalls.len() as int,
                false,
            )
            &&& r.3 == traces@[0]@.syscalls.len()
        },
{
    if traces.len() == 0 {
        return (0, 0, 0, 0);
    }
    let edge_len = traces[0].edges.len();
    let syscall_len = traces[0].syscalls.len();
    let edge_count = coverage_count(traces, edge_len, true);
    let syscall_count = coverage_count(traces, syscall_len, false);
    (edge_count, edge_len as u64, syscall_count, syscall_len as u64)
}

// ---------------------------------------------------------------------------
// Human-readable renderings
// ---------------------------------------------------------------------------
/// The printable rendering of one byte: the character itself for the
/// printable ASCII range, a `\xhh` escape otherwise.
pub open spec fn spec_printable_byte(b: u8) -> Seq<char> {
    if 32 <= b && b <= 126 {
        seq![b as char]
    } else {
        seq!['\\', 'x', spec_hex_digit(b as int / 16), spec_hex_digit(b as int % 16)]
    }
}

/// The printable rendering of the first `n` bytes of a byte string.
pub open spec fn spec_printable_to(s: Seq<u8>, n: int) -> Seq<char>
    decreases n,
{
    if n <= 0 {
        Seq::empty()
    } else {
        spec_printable_to(s, n - 1) + spec_printable_byte(s[n - 1])
    }
}

/// The sum of the first `n` byte values of a vector.
pub open spec fn spec_byte_sum_to(s: Seq<u8>, n: int) -> int
    decreases n,
{
    if n <= 0 {
        0
    } else {
        spec_byte_sum_to(s, n - 1) + s[n - 1]
    }
}

/// The sum of all byte values of a vector.
pub open spec fn spec_byte_sum(s: Seq<u8>) -> int {
    spec_byte_sum_to(s, s.len() as int)
}

proof fn lemma_byte_sum_bound(s: Seq<u8>, n: int)
    requires
        0 <= n <= s.len(),
    ensures
        spec_byte_sum_to(s, n) <= 255 * n,
        spec_byte_sum_to(s, n) >= 0,
    decreases n,
{
    if n > 0 {
        lemma_byte_sum_bound(s, n - 1);
    }
}

/// The summary of a counting vector: its total count, a label, and the
/// count as a share of the vector's length, in percent rounded to a
/// hundredth (half up).
pub open spec fn spec_vector_summary(v: Seq<u8>, label: Seq<char>) -> Seq<char> {
    let sum = spec_byte_sum(v);
    let cents = (sum * 20000 + v.len()) / (2 * v.len() as int);
    spec_dec(sum as nat) + label + " ("@ + spec_dec((cents / 100) as nat) + "."@ + spec_dec_pad(
        (cents % 100) as nat,
        2,
    ) + "%)"@
}

/// The sum of all byte values of a vector, as a machine integer.
fn byte_sum(v: &Vec<u8>) -> (r: u64)
    requires
        v@.len() < 0x10000000000,
    ensures
        r == spec_byte_sum(v@),
{
    let mut sum: u64 = 0;
    let mut i: usize = 0;
    while i < v.len()
        invariant
            i <= v@.len(),
            v@.len() < 0x10000000000,
            sum == spec_byte_sum_to(v@, i as int),
            sum <= 255 * i,
        decreases v@.len() - i,
    {
        proof {
            lemma_byte_sum_bound(v@, i + 1);
        }
        sum = sum + v[i] as u64;
        i = i + 1;
    }
    sum
}

/// Renders the summary of a counting vector.
fn vector_summary(v: &Vec<u8>, label: &str) -> (r: String)
    requires
        0 < v@.len() < 0x10000000000,
    ensures
        r@ == spec_vector_summary(v@, label@),
{
    let sum = byte_sum(v);
    proof {
        lemma_byte_sum_bound(v@, v@.len() as int);
    }
    let len: u64 = v.len() as u64;
    let cents: u64 = (sum * 20000 + len) / (2 * len);
    let mut r = dec_string(sum);
    r.append(label);
    r.append(" (");
    push_dec(&mut r, cents / 100);
    r.append(".");
    push_dec_pad(&mut r, cents % 100, 2);
    r.append("%)");
    proof {
        assert(r@ =~= spec_vector_summary(v@, label@));
    }
    r
}

impl Trace {
    /// The test input with every non-printable byte rendered as a `\xhh`
    /// escape.
    pub fn printable_test_input(&self) -> (r: String)
        ensures
            r@ == spec_printable_to(self@.test_input, self@.test_input.len() as int),
    {
        let mut r = String::new();
        let mut i: usize = 0;
        while i < self.test_input.len()
            invariant
                i <= self@.test_input.len(),
                r@ == spec_printable_to(self@.test_input, i as int),
            decreases self@.test_input.len() - i,
        {
            let b = self.test_input[i];
            if 32 <= b && b <= 126 {
                push_char(&mut r, b as char);
            } else {
                push_char(&mut r, '\\');
                push_char(&mut r, 'x');
                push_char(&mut r, hex_digit_char((b / 16) as u64));
                push_char(&mut r, hex_digit_char((b % 16) as u64));
            }
            proof {
                assert(r@ =~= spec_printable_to(self@.test_input, i + 1 as int));
            }
            i = i + 1;
        }
        r
    }

    /// The total edge count of the trace, with its share of the edge vector.
    pub fn edges_as_string(&self) -> (r: String)
        requires
            0 < self@.edges.len() < 0x10000000000,
        ensures
            r@ == spec_vector_summary(self@.edges, " edges"@),
    {
        vector_summary(&self.edges, " edges")
    }

    /// The total syscall count of the trace, with its share of the syscall
    /// vector.
    pub fn syscalls_as_string(&self) -> (r: String)
        requires
            0 < self@.syscalls.len() < 0x10000000000,
        ensures
            r@ == spec_vector_summary(self@.syscalls, " syscalls"@),
    {
        vector_summary(&self.syscalls, " syscalls")
    }
}

// ---------------------------------------------------------------------------
// Selecting new traces to load
// ---------------------------------------------------------------------------
/// Whether some string in the list holds exactly these characters.
pub open spec fn spec_name_in(names: Seq<String>, x: Seq<char>) -> bool {
    exists|i: int| 0 <= i < names.len() && (#[trigger] names[i])@ == x
}

/// Whether the list of names is in lexicographic order.
pub open spec fn spec_names_sorted(names: Seq<String>) -> bool {
    forall|i: int, j: int|
        0 <= i < j < names.len() ==> spec_str_le((#[trigger] names[i])@, (#[trigger] names[j])@)
}

/// Whether a trace with this uid is already known.
pub open spec fn spec_uid_known(known: Seq<Trace>, uid: Seq<char>) -> bool {
    exists|k: int| 0 <= k < known.len() && (#[trigger] known[k])@.uid == uid
}

/// Whether a directory entry is to be loaded this poll: its namespaced uid
/// is new, and its companion trace-dump file is present.
pub open spec fn spec_entry_selected(
    entry: (String, bool),
    instance: Seq<char>,
    known: Seq<Trace>,
) -> bool {
    !spec_uid_known(known, spec_trace_uid(instance, entry.0@)) && entry.1
}

/// Tests whether a trace with this uid is already known.
fn uid_known(known: &Vec<Trace>, uid: &str) -> (r: bool)
    ensures
        r == spec_uid_known(known@, uid@),
{
    let mut k: usize = 0;
    while k < known.len()
        invariant
            k <= known@.len(),
            forall|j: int| 0 <= j < k ==> (#[trigger] known@[j])@.uid != uid@,
        decreases known@.len() - k,
    {
        if str_eq(known[k].uid.as_str(), uid) {
            return true;
        }
        k = k + 1;
    }
    false
}

/// Inserts a name into a sorted list, keeping it sorted.
fn sorted_insert(sorted: &mut Vec<String>, name: String)
    requires
        spec_names_sorted(old(sorted)@),
    ensures
        spec_names_sorted(final(sorted)@),
        final(sorted)@.len() == old(sorted)@.len() + 1,
        forall|x: Seq<char>|
            #[trigger] spec_name_in(final(sorted)@, x) <==> (spec_name_in(old(sorted)@, x) || x
                == name@),
{
    let mut k: usize = 0;
    while k < sorted.len() && str_le(sorted[k].as_str(), name.as_str())
        invariant
            k <= sorted@.len(),
            spec_names_sorted(sorted@),
            forall|j: int| 0 <= j < k ==> spec_str_le((#[trigger] sorted@[j])@, name@),
        decreases sorted@.len() - k,
    {
        k = k + 1;
    }
    proof {
        if k < sorted@.len() {
            lemma_str_le_total(sorted@[k as int]@, name@);
        }
    }
    let ghost pre = sorted@;
    let ghost inserted = name@;
    sorted.insert(k, name);
    proof {
        assert(sorted@ == pre.insert(k as int, name));
        assert forall|t: int| 0 <= t < sorted@.len() implies (if t < k {
            (#[trigger] sorted@[t])@ == pre[t]@
        } else if t == k {
            sorted@[t]@ == inserted
        } else {
            sorted@[t]@ == pre[t - 1]@
        }) by {
            assert(sorted@ =~= pre.subrange(0, k as int).push(name) + pre.subrange(
                k as int,
                pre.len() as int,
            ));
        }
        assert forall|i: int, j: int| 0 <= i < j < sorted@.len() implies spec_str_le(
            (#[trigger] sorted@[i])@,
            (#[trigger] sorted@[j])@,
        ) by {
            if i < k && j == k {
            } else if i == k && j > k {
                if j - 1 > k {
                    lemma_str_le_trans(inserted, pre[k as int]@, pre[j - 1]@);
                }
            } else if i < k && j > k {
                assert(spec_str_le(pre[i]@, pre[j - 1]@));
            } else if j < k {
                assert(spec_str_le(pre[i]@, pre[j]@));
            } else if i > k {
                assert(spec_str_le(pre[i - 1]@, pre[j - 1]@));
            }
        }
        assert forall|x: Seq<char>|
            #[trigger] spec_name_in(sorted@, x) <==> (spec_name_in(pre, x) || x
                == inserted) by {
            if spec_name_in(sorted@, x) {
                let t = choose|t: int| 0 <= t < sorted@.len() && sorted@[t]@ == x;
                if t < k {
                    assert(pre[t]@ == x);
                } else if t > k {
                    assert(pre[t - 1]@ == x);
                }
            }
            if spec_name_in(pre, x) {
                let t = choose|t: int| 0 <= t < pre.len() && pre[t]@ == x;
                if t < k {
                    assert(sorted@[t]@ == x);
                } else {
                    assert(sorted@[t + 1]@ == x);
                }
            }
            if x == inserted {
                assert(sorted@[k as int]@ == x);
            }
        }
    }
}

/// Plans one poll of a fuzzer's queue: of the directory entries given as
/// `(file name, companion dump present)` pairs, keeps those whose
/// namespaced uid is not yet known, sorted by name for deterministic
/// ingestion. An entry whose companion dump is missing is silently deferred
/// to a later poll when `skip_missing` is set, and fails the poll
/// otherwise.
pub fn plan_trace_loading(
    entries: &Vec<(String, bool)>,
    instance_name: &str,
    known: &Vec<Trace>,
    skip_missing: bool,
) -> (r: Result<Vec<String>, RosaError>)
    ensures
        r matches Ok(names) ==> {
            &&& spec_names_sorted(names@)
            &&& forall|x: Seq<char>|
                #[trigger] spec_name_in(names@, x) <==> exists|e: int|
                    0 <= e < entries@.len() && (#[trigger] entries@[e]).0@ == x
                        && spec_entry_selected(entries@[e], instance_name@, known@)
        },
        r is Err <==> (!skip_missing && exists|e: int|
            0 <= e < entries@.len() && !spec_uid_known(
                known@,
                spec_trace_uid(instance_name@, (#[trigger] entries@[e]).0@),
            ) && !entries@[e].1),
{
    let mut result: Vec<String> = Vec::new();
    let mut i: usize = 0;
    while i < entries.len()
        invariant
            i <= entries@.len(),
            spec_names_sorted(result@),
            forall|x: Seq<char>|
                #[trigger] spec_name_in(result@, x) <==> exists|e: int|
                    0 <= e < i && (#[trigger] entries@[e]).0@ == x && spec_entry_selected(
                        entries@[e],
                        instance_name@,
                        known@,
                    ),
            !skip_missing ==> forall|e: int|
                0 <= e < i ==> !(!spec_uid_known(
                    known@,
                    spec_trace_uid(instance_name@, (#[trigger] entries@[e]).0@),
                ) && !entries@[e].1),
        decreases entries@.len() - i,
    {
        let entry = &entries[i];
        let uid = make_trace_uid(instance_name, entry.0.as_str());
        let is_known = uid_known(known, uid.as_str());
        if !is_known {
            if entry.1 {
                sorted_insert(&mut result, entry.0.clone());
                proof {
                    assert forall|x: Seq<char>|
                        #[trigger] spec_name_in(result@, x) <==> exists|e: int|
                            0 <= e < i + 1 && (#[trigger] entries@[e]).0@ == x
                                && spec_entry_selected(entries@[e], instance_name@, known@) by {
                        if spec_name_in(result@, x) && x != entries@[i as int].0@ {
                        }
                        if x == entries@[i as int].0@ {
                            assert(spec_entry_selected(entries@[i as int], instance_name@, known@));
                        }
                    }
                }
            } else if !skip_missing {
                return Err(
                    RosaError::new(
                        "rosa::trace",
                        0,
                        "trace.rs",
                        "missing trace dump file for trace.",
                    ),
                );
            }
        }
        i = i + 1;
    }
    Ok(result)
}

} // verus!
