//! Oracle decisions and their deduplication fingerprints.
//!
//! A decision records whether a trace was classified as backdoor-triggering,
//! why, and the discriminants: the vector indices at which the trace's
//! behavior diverges from its cluster. A deterministic 64-bit hash over the
//! discriminant lists in the criterion's scope, combined with the cluster
//! uid, fingerprints each detection so that repeated findings of the same
//! backdoor collapse into one.

use vstd::prelude::*;

use crate::criterion::Criterion;
use crate::error::RosaError;
use crate::text::{push_char, push_dec, push_hex16, spec_dec, spec_hex16, str_eq};
use vstd::bytes::{spec_u64_to_le_bytes, u64_to_le_bytes};

verus! {

/// The reason for an oracle decision.
#[derive(Clone, Copy, Debug, PartialEq, Eq, Structural)]
pub enum DecisionReason {
    /// The trace originated from the seed collection phase.
    Seed,
    /// The decision was made because of the edges of the trace.
    Edges,
    /// The decision was made because of the syscalls of the trace.
    Syscalls,
    /// The decision was made because of both the edges and the syscalls of
    /// the trace.
    EdgesAndSyscalls,
}

impl DecisionReason {
    /// The stable tag of the reason, as used in decision files.
    pub open spec fn spec_name(self) -> Seq<char> {
        match self {
            DecisionReason::Seed => "seed"@,
            DecisionReason::Edges => "edges"@,
            DecisionReason::Syscalls => "syscalls"@,
            DecisionReason::EdgesAndSyscalls => "edges-and-syscalls"@,
        }
    }

    /// The stable tag of the reason.
    pub fn name(&self) -> (r: &str)
        ensures
            r@ == self.spec_name(),
    {
        match self {
            DecisionReason::Seed => "seed",
            DecisionReason::Edges => "edges",
            DecisionReason::Syscalls => "syscalls",
            DecisionReason::EdgesAndSyscalls => "edges-and-syscalls",
        }
    }

    /// Parses a reason tag; fails exactly on the strings that name no
    /// reason.
    pub fn from_name(s: &str) -> (r: Result<DecisionReason, RosaError>)
        ensures
            r matches Ok(d) ==> d.spec_name() == s@,
            r is Err ==> forall|d: DecisionReason| d.spec_name() != s@,
    {
        if str_eq(s, "seed") {
            Ok(DecisionReason::Seed)
        } else if str_eq(s, "edges") {
            Ok(DecisionReason::Edges)
        } else if str_eq(s, "syscalls") {
            Ok(DecisionReason::Syscalls)
        } else if str_eq(s, "edges-and-syscalls") {
            Ok(DecisionReason::EdgesAndSyscalls)
        } else {
            proof {
                assert forall|d: DecisionReason| d.spec_name() != s@ by {
                    match d {
                        DecisionReason::Seed => {
                            assert(d.spec_name() == "seed"@);
                        },
                        DecisionReason::Edges => {
                            assert(d.spec_name() == "edges"@);
                        },
                        DecisionReason::Syscalls => {
                            assert(d.spec_name() == "syscalls"@);
                        },
                        DecisionReason::EdgesAndSyscalls => {
                            assert(d.spec_name() == "edges-and-syscalls"@);
                        },
                    }
                }
            }
            Err(
                RosaError::new(
                    "rosa::decision",
                    0,
                    "decision.rs",
                    "invalid decision reason.",
                ),
            )
        }
    }
}

/// The mathematical value of a [`Discriminants`].
#[verifier::ext_equal]
pub ghost struct DiscriminantsView {
    /// The edge indices that exist in the trace but not the cluster.
    pub trace_edges: Seq<usize>,
    /// The edge indices that exist in the cluster but not the trace.
    pub cluster_edges: Seq<usize>,
    /// The syscall indices that exist in the trace but not the cluster.
    pub trace_syscalls: Seq<usize>,
    /// The syscall indices that exist in the cluster but not the trace.
    pub cluster_syscalls: Seq<usize>,
}

/// The edges and syscalls that lead to an oracle decision.
#[derive(Debug)]
pub struct Discriminants {
    /// The edges that exist in the trace but not the cluster.
    pub trace_edges: Vec<usize>,
    /// The edges that exist in the cluster but not the trace.
    pub cluster_edges: Vec<usize>,
    /// The syscalls that exist in the trace but not the cluster.
    pub trace_syscalls: Vec<usize>,
    /// The syscalls that exist in the cluster but not the trace.
    pub cluster_syscalls: Vec<usize>,
}

impl View for Discriminants {
    type V = DiscriminantsView;

    open spec fn view(&self) -> DiscriminantsView {
        DiscriminantsView {
            trace_edges: self.trace_edges@,
            cluster_edges: self.cluster_edges@,
            trace_syscalls: self.trace_syscalls@,
            cluster_syscalls: self.cluster_syscalls@,
        }
    }
}

impl DeepView for Discriminants {
    type V = DiscriminantsView;

    open spec fn deep_view(&self) -> DiscriminantsView {
        self.view()
    }
}

/// Copies a vector of indices.
fn copy_indices(v: &Vec<usize>) -> (r: Vec<usize>)
    ensures
        r@ == v@,
{
    let mut r: Vec<usize> = Vec::new();
    let mut i: usize = 0;
    while i < v.len()
        invariant
            i <= v@.len(),
            r@ == v@.take(i as int),
        decreases v@.len() - i,
    {
        r.push(v[i]);
        proof {
            assert(v@.take(i + 1 as int) =~= v@.take(i as int).push(v@[i as int]));
        }
        i = i + 1;
    }
    proof {
        assert(v@.take(v@.len() as int) =~= v@);
    }
    r
}

impl Clone for Discriminants {
    /// Cloning preserves the discriminants' value.
    fn clone(&self) -> (r: Discriminants)
        ensures
            r@ == self@,
    {
        Discriminants {
            trace_edges: copy_indices(&self.trace_edges),
            cluster_edges: copy_indices(&self.cluster_edges),
            trace_syscalls: copy_indices(&self.trace_syscalls),
            cluster_syscalls: copy_indices(&self.cluster_syscalls),
        }
    }
}

// ---------------------------------------------------------------------------
// Fingerprint hash
// ---------------------------------------------------------------------------
/// One step of the 64-bit FNV-1a hash: fold one byte in, then multiply by
/// the FNV prime modulo `2^64`.
pub open spec fn spec_fnv_step(h: u64, b: u8) -> u64 {
    ((((h ^ (b as u64)) as nat) * 0x100000001b3) % 0x1_0000_0000_0000_0000) as u64
}

/// The FNV-1a hash of the first `n` bytes, from the standard offset basis.
pub open spec fn spec_fnv_to(data: Seq<u8>, n: int) -> u64
    decreases n,
{
    if n <= 0 {
        0xcbf29ce484222325u64
    } else {
        spec_fnv_step(spec_fnv_to(data, n - 1), data[n - 1])
    }
}

/// The FNV-1a hash of a byte string.
pub open spec fn spec_fnv(data: Seq<u8>) -> u64 {
    spec_fnv_to(data, data.len() as int)
}

/// The little-endian encodings of the first `n` indices of a list.
pub open spec fn spec_index_bytes_to(l: Seq<usize>, n: int) -> Seq<u8>
    decreases n,
{
    if n <= 0 {
        Seq::empty()
    } else {
        spec_index_bytes_to(l, n - 1) + spec_u64_to_le_bytes(l[n - 1] as u64)
    }
}

/// The hashed encoding of one index list: its length, then every index,
/// all as little-endian 64-bit values.
pub open spec fn spec_list_bytes(l: Seq<usize>) -> Seq<u8> {
    spec_u64_to_le_bytes(l.len() as u64) + spec_index_bytes_to(l, l.len() as int)
}

/// The bytes a fingerprint hashes: the discriminant lists the criterion
/// selects, in a fixed order.
pub open spec fn spec_scope_bytes(d: DiscriminantsView, criterion: Criterion) -> Seq<u8> {
    match criterion {
        Criterion::EdgesOnly => spec_list_bytes(d.trace_edges) + spec_list_bytes(d.cluster_edges),
        Criterion::SyscallsOnly => spec_list_bytes(d.trace_syscalls) + spec_list_bytes(
            d.cluster_syscalls,
        ),
        _ => spec_list_bytes(d.trace_edges) + spec_list_bytes(d.cluster_edges) + spec_list_bytes(
            d.trace_syscalls,
        ) + spec_list_bytes(d.cluster_syscalls),
    }
}

/// The deduplication fingerprint: the hash of the in-scope discriminant
/// lists as 16 hexadecimal characters, an underscore, and the cluster uid.
pub open spec fn spec_fingerprint(
    d: DiscriminantsView,
    criterion: Criterion,
    cluster_uid: Seq<char>,
) -> Seq<char> {
    spec_hex16(spec_fnv(spec_scope_bytes(d, criterion))) + "_"@ + cluster_uid
}

/// Appends the little-endian encoding of a 64-bit value.
fn push_u64_le(out: &mut Vec<u8>, x: u64)
    ensures
        final(out)@ == old(out)@ + spec_u64_to_le_bytes(x),
{
    let mut bytes = u64_to_le_bytes(x);
    out.append(&mut bytes);
}

/// Appends the hashed encoding of one index list.
fn push_list_bytes(out: &mut Vec<u8>, l: &Vec<usize>)
    ensures
        final(out)@ == old(out)@ + spec_list_bytes(l@),
{
    let ghost prefix = out@;
    push_u64_le(out, l.len() as u64);
    let mut i: usize = 0;
    while i < l.len()
        invariant
            i <= l@.len(),
            out@ == prefix + spec_u64_to_le_bytes(l@.len() as u64) + spec_index_bytes_to(
                l@,
                i as int,
            ),
        decreases l@.len() - i,
    {
        push_u64_le(out, l[i] as u64);
        proof {
            assert(prefix + spec_u64_to_le_bytes(l@.len() as u64) + spec_index_bytes_to(
                l@,
                i + 1 as int,
            ) =~= prefix + spec_u64_to_le_bytes(l@.len() as u64) + spec_index_bytes_to(l@, i as int)
                + spec_u64_to_le_bytes(l@[i as int] as u64));
        }
        i = i + 1;
    }
    proof {
        assert(prefix + spec_list_bytes(l@) =~= prefix + spec_u64_to_le_bytes(l@.len() as u64)
            + spec_index_bytes_to(l@, l@.len() as int));
    }
}

/// Computes the FNV-1a hash of a byte string.
fn fnv(data: &Vec<u8>) -> (r: u64)
    ensures
        r == spec_fnv(data@),
{
    let mut h: u64 = 0xcbf29ce484222325;
    let mut i: usize = 0;
    while i < data.len()
        invariant
            i <= data@.len(),
            h == spec_fnv_to(data@, i as int),
        decreases data@.len() - i,
    {
        h = (h ^ (data[i] as u64)).wrapping_mul(0x100000001b3);
        i = i + 1;
    }
    h
}

impl Discriminants {
    /// The deduplication fingerprint of a detection: a deterministic hash
    /// over the discriminant lists selected by the criterion, combined with
    /// the uid of the cluster the detection was made against.
    pub fn uid(&self, criterion: Criterion, cluster_uid: &str) -> (r: String)
        ensures
            r@ == spec_fingerprint(self@, criterion, cluster_uid@),
    {
        let mut data: Vec<u8> = Vec::new();
        match criterion {
            Criterion::EdgesOnly => {
                push_list_bytes(&mut data, &self.trace_edges);
                push_list_bytes(&mut data, &self.cluster_edges);
            },
            Criterion::SyscallsOnly => {
                push_list_bytes(&mut data, &self.trace_syscalls);
                push_list_bytes(&mut data, &self.cluster_syscalls);
            },
            Criterion::EdgesOrSyscalls | Criterion::EdgesAndSyscalls => {
                push_list_bytes(&mut data, &self.trace_edges);
                push_list_bytes(&mut data, &self.cluster_edges);
                push_list_bytes(&mut data, &self.trace_syscalls);
                push_list_bytes(&mut data, &self.cluster_syscalls);
            },
        }
        proof {
            assert(data@ =~= spec_scope_bytes(self@, criterion));
        }
        let h = fnv(&data);
        let mut r = String::new();
        push_hex16(&mut r, h);
        push_char(&mut r, '_');
        r.append(cluster_uid);
        proof {
            reveal_strlit("_");
            assert(r@ =~= spec_fingerprint(self@, criterion, cluster_uid@));
        }
        r
    }
}

/// Whether two discriminants agree on every list in the criterion's scope.
pub open spec fn spec_scope_eq(
    d1: DiscriminantsView,
    d2: DiscriminantsView,
    criterion: Criterion,
) -> bool {
    match criterion {
        Criterion::EdgesOnly => d1.trace_edges == d2.trace_edges && d1.cluster_edges
            == d2.cluster_edges,
        Criterion::SyscallsOnly => d1.trace_syscalls == d2.trace_syscalls && d1.cluster_syscalls
            == d2.cluster_syscalls,
        _ => d1.trace_edges == d2.trace_edges && d1.cluster_edges == d2.cluster_edges
            && d1.trace_syscalls == d2.trace_syscalls && d1.cluster_syscalls == d2.cluster_syscalls,
    }
}

/// Two detections whose discriminants agree on the lists the criterion
/// hashes, made against the same cluster, carry the same fingerprint.
pub proof fn lemma_fingerprint_scope(
    d1: DiscriminantsView,
    d2: DiscriminantsView,
    criterion: Criterion,
    uid1: Seq<char>,
    uid2: Seq<char>,
)
    requires
        spec_scope_eq(d1, d2, criterion),
        uid1 == uid2,
    ensures
        spec_fingerprint(d1, criterion, uid1) == spec_fingerprint(d2, criterion, uid2),
{
    assert(spec_scope_bytes(d1, criterion) == spec_scope_bytes(d2, criterion));
}

// ---------------------------------------------------------------------------
// Decisions
// ---------------------------------------------------------------------------
/// The mathematical value of a [`Decision`].
#[verifier::ext_equal]
pub ghost struct DecisionView {
    /// The uid of the trace the decision is about.
    pub trace_uid: Seq<char>,
    /// The name of the trace the decision is about.
    pub trace_name: Seq<char>,
    /// The uid of the cluster the trace was compared with.
    pub cluster_uid: Seq<char>,
    /// Whether the trace is considered to trigger a backdoor.
    pub is_backdoor: bool,
    /// The reason for the decision.
    pub reason: DecisionReason,
    /// The discriminants that lead to the decision.
    pub discriminants: DiscriminantsView,
}

/// The decision made by an oracle.
#[derive(Debug)]
pub struct Decision {
    /// The UID of the trace for which the decision was made.
    pub trace_uid: String,
    /// The name of the trace for which the decision was made (usually
    /// generated by the fuzzer).
    pub trace_name: String,
    /// The UID of the cluster the trace was compared with; the literal
    /// string `<none>` for seed decisions.
    pub cluster_uid: String,
    /// If true, the trace is determined to be associated with a backdoor;
    /// otherwise, it is considered to be a normal trace.
    pub is_backdoor: bool,
    /// The reason for the decision.
    pub reason: DecisionReason,
    /// The discriminants (i.e., different edges and syscalls with regards to
    /// the cluster) that lead to the decision.
    pub discriminants: Discriminants,
}

impl View for Decision {
    type V = DecisionView;

    open spec fn view(&self) -> DecisionView {
        DecisionView {
            trace_uid: self.trace_uid@,
            trace_name: self.trace_name@,
            cluster_uid: self.cluster_uid@,
            is_backdoor: self.is_backdoor,
            reason: self.reason,
            discriminants: self.discriminants@,
        }
    }
}

impl DeepView for Decision {
    type V = DecisionView;

    open spec fn deep_view(&self) -> DecisionView {
        self.view()
    }
}

impl Clone for Decision {
    /// Cloning preserves the decision's value.
    fn clone(&self) -> (r: Decision)
        ensures
            r@ == self@,
    {
        Decision {
            trace_uid: self.trace_uid.clone(),
            trace_name: self.trace_name.clone(),
            cluster_uid: self.cluster_uid.clone(),
            is_backdoor: self.is_backdoor,
            reason: self.reason,
            discriminants: self.discriminants.clone(),
        }
    }
}

/// The mathematical value of a [`TimedDecision`].
#[verifier::ext_equal]
pub ghost struct TimedDecisionView {
    /// The decision itself.
    pub decision: DecisionView,
    /// The campaign-elapsed seconds at which the decision was produced.
    pub seconds: u64,
}

/// A decision together with the campaign-elapsed seconds at which it was
/// produced.
#[derive(Debug)]
pub struct TimedDecision {
    /// The decision itself.
    pub decision: Decision,
    /// The amount of seconds into the detection campaign at which the
    /// decision was made.
    pub seconds: u64,
}

impl View for TimedDecision {
    type V = TimedDecisionView;

    open spec fn view(&self) -> TimedDecisionView {
        TimedDecisionView { decision: self.decision@, seconds: self.seconds }
    }
}

impl DeepView for TimedDecision {
    type V = TimedDecisionView;

    open spec fn deep_view(&self) -> TimedDecisionView {
        self.view()
    }
}

impl Clone for TimedDecision {
    /// Cloning preserves the timed decision's value.
    fn clone(&self) -> (r: TimedDecision)
        ensures
            r@ == self@,
    {
        TimedDecision { decision: self.decision.clone(), seconds: self.seconds }
    }
}

// ---------------------------------------------------------------------------
// The decision file format
// ---------------------------------------------------------------------------
/// One character of a TOML basic string: backslash, quote and the common
/// control characters are escaped, everything else stands as itself.
pub open spec fn spec_toml_escape_char(c: char) -> Seq<char> {
    if c == '\\' {
        seq!['\\', '\\']
    } else if c == '"' {
        seq!['\\', '"']
    } else if c == '\n' {
        seq!['\\', 'n']
    } else if c == '\t' {
        seq!['\\', 't']
    } else if c == '\r' {
        seq!['\\', 'r']
    } else {
        seq![c]
    }
}

/// The escaped form of the first `n` characters of a string.
pub open spec fn spec_toml_escaped_to(s: Seq<char>, n: int) -> Seq<char>
    decreases n,
{
    if n <= 0 {
        Seq::empty()
    } else {
        spec_toml_escaped_to(s, n - 1) + spec_toml_escape_char(s[n - 1])
    }
}

/// A TOML basic string: the escaped characters between double quotes.
pub open spec fn spec_toml_string(s: Seq<char>) -> Seq<char> {
    seq!['"'] + spec_toml_escaped_to(s, s.len() as int) + seq!['"']
}

/// The first `n` indices of a list, rendered in decimal and joined by
/// comma-spaces.
pub open spec fn spec_index_items_to(l: Seq<usize>, n: int) -> Seq<char>
    decreases n,
{
    if n <= 0 {
        Seq::empty()
    } else if n == 1 {
        spec_dec(l[0] as nat)
    } else {
        spec_index_items_to(l, n - 1) + ", "@ + spec_dec(l[n - 1] as nat)
    }
}

/// A TOML array of indices.
pub open spec fn spec_index_array(l: Seq<usize>) -> Seq<char> {
    seq!['['] + spec_index_items_to(l, l.len() as int) + seq![']']
}

/// One `key = "string"` line, ended by a line break.
pub open spec fn spec_toml_string_line(key: Seq<char>, value: Seq<char>) -> Seq<char> {
    key + " = "@ + spec_toml_string(value) + seq!['\n']
}

/// One `key = [indices]` line, ended by a line break.
pub open spec fn spec_toml_array_line(key: Seq<char>, value: Seq<usize>) -> Seq<char> {
    key + " = "@ + spec_index_array(value) + seq!['\n']
}

/// The decision file: the campaign-elapsed seconds, the decision table and
/// its discriminants table, as stable TOML.
pub open spec fn spec_decision_toml(td: TimedDecisionView) -> Seq<char> {
    "seconds = "@ + spec_dec(td.seconds as nat) + "\n\n[decision]\n"@ + spec_toml_string_line(
        "trace_uid"@,
        td.decision.trace_uid,
    ) + spec_toml_string_line("trace_name"@, td.decision.trace_name) + spec_toml_string_line(
        "cluster_uid"@,
        td.decision.cluster_uid,
    ) + "is_backdoor = "@ + (if td.decision.is_backdoor {
        "true"@
    } else {
        "false"@
    }) + seq!['\n'] + spec_toml_string_line("reason"@, td.decision.reason.spec_name())
        + "\n[decision.discriminants]\n"@ + spec_toml_array_line(
        "trace_edges"@,
        td.decision.discriminants.trace_edges,
    ) + spec_toml_array_line("cluster_edges"@, td.decision.discriminants.cluster_edges)
        + spec_toml_array_line("trace_syscalls"@, td.decision.discriminants.trace_syscalls)
        + spec_toml_array_line("cluster_syscalls"@, td.decision.discriminants.cluster_syscalls)
}

/// Appends a TOML basic string.
fn push_toml_string(out: &mut String, s: &str)
    ensures
        final(out)@ == old(out)@ + spec_toml_string(s@),
{
    push_char(out, '"');
    let ghost prefix = out@;
    let len = s.unicode_len();
    let mut i: usize = 0;
    while i < len
        invariant
            i <= len,
            len == s@.len(),
            out@ == prefix + spec_toml_escaped_to(s@, i as int),
        decreases len - i,
    {
        let c = s.get_char(i);
        if c == '\\' {
            push_char(out, '\\');
            push_char(out, '\\');
        } else if c == '"' {
            push_char(out, '\\');
            push_char(out, '"');
        } else if c == '\n' {
            push_char(out, '\\');
            push_char(out, 'n');
        } else if c == '\t' {
            push_char(out, '\\');
            push_char(out, 't');
        } else if c == '\r' {
            push_char(out, '\\');
            push_char(out, 'r');
        } else {
            push_char(out, c);
        }
        proof {
            assert(out@ =~= prefix + spec_toml_escaped_to(s@, i + 1 as int));
        }
        i = i + 1;
    }
    push_char(out, '"');
    proof {
        assert(out@ =~= old(out)@ + spec_toml_string(s@));
    }
}

/// Appends a TOML array of indices.
fn push_index_array(out: &mut String, l: &Vec<usize>)
    ensures
        final(out)@ == old(out)@ + spec_index_array(l@),
{
    push_char(out, '[');
    let ghost prefix = out@;
    let mut i: usize = 0;
    while i < l.len()
        invariant
            i <= l@.len(),
            out@ == prefix + spec_index_items_to(l@, i as int),
        decreases l@.len() - i,
    {
        if i > 0 {
            out.append(", ");
        }
        push_dec(out, l[i] as u64);
        proof {
            assert(l@[i as int] as u64 as nat == l@[i as int] as nat);
            assert(out@ =~= prefix + spec_index_items_to(l@, i + 1 as int));
        }
        i = i + 1;
    }
    push_char(out, ']');
    proof {
        assert(out@ =~= old(out)@ + spec_index_array(l@));
    }
}

/// Appends one `key = "string"` line.
fn push_string_line(out: &mut String, key: &str, value: &str)
    ensures
        final(out)@ == old(out)@ + spec_toml_string_line(key@, value@),
{
    out.append(key);
    out.append(" = ");
    push_toml_string(out, value);
    push_char(out, '\n');
    proof {
        assert(out@ =~= old(out)@ + spec_toml_string_line(key@, value@));
    }
}

/// Appends one `key = [indices]` line.
fn push_array_line(out: &mut String, key: &str, value: &Vec<usize>)
    ensures
        final(out)@ == old(out)@ + spec_toml_array_line(key@, value@),
{
    out.append(key);
    out.append(" = ");
    push_index_array(out, value);
    push_char(out, '\n');
    proof {
        assert(out@ =~= old(out)@ + spec_toml_array_line(key@, value@));
    }
}

impl TimedDecision {
    /// Renders the decision file this timed decision is persisted as.
    pub fn to_toml_string(&self) -> (r: String)
        ensures
            r@ == spec_decision_toml(self@),
    {
        let mut r: String = "seconds = ".to_owned();
        push_dec(&mut r, self.seconds);
        r.append("\n\n[decision]\n");
        push_string_line(&mut r, "trace_uid", self.decision.trace_uid.as_str());
        push_string_line(&mut r, "trace_name", self.decision.trace_name.as_str());
        push_string_line(&mut r, "cluster_uid", self.decision.cluster_uid.as_str());
        r.append("is_backdoor = ");
        if self.decision.is_backdoor {
            r.append("true");
        } else {
            r.append("false");
        }
        push_char(&mut r, '\n');
        push_string_line(&mut r, "reason", self.decision.reason.name());
        r.append("\n[decision.discriminants]\n");
        push_array_line(&mut r, "trace_edges", &self.decision.discriminants.trace_edges);
        push_array_line(&mut r, "cluster_edges", &self.decision.discriminants.cluster_edges);
        push_array_line(&mut r, "trace_syscalls", &self.decision.discriminants.trace_syscalls);
        push_array_line(
            &mut r,
            "cluster_syscalls",
            &self.decision.discriminants.cluster_syscalls,
        );
        proof {
            assert(r@ =~= spec_decision_toml(self@));
        }
        r
    }
}

} // verus!
