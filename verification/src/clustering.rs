//! Incremental, single-pass clustering of traces.
//!
//! Traces are grouped in input order: each trace is compared against the
//! most similar existing cluster and admitted when it is at least as close
//! to every member as the cluster's own minimum internal distance; otherwise
//! it founds a new singleton cluster. Each cluster carries the extremal
//! distances realized inside it, floored by the configured tolerances; those
//! envelopes later serve as the oracle's comparison baseline.

use vstd::prelude::*;

use crate::criterion::Criterion;
use crate::distance_metric::{spec_len_ok, DistanceMetric};
use crate::text::{push_char, push_dec_pad, spec_dec_pad};
use crate::trace::{Trace, TraceView};

verus! {

/// The mathematical value of a [`Cluster`].
#[verifier::ext_equal]
pub ghost struct ClusterView {
    /// The unique ID of the cluster.
    pub uid: Seq<char>,
    /// The traces contained in the cluster.
    pub traces: Seq<TraceView>,
    /// The minimum internal edge distance between the traces.
    pub min_edge_distance: u64,
    /// The maximum internal edge distance between the traces.
    pub max_edge_distance: u64,
    /// The minimum internal syscall distance between the traces.
    pub min_syscall_distance: u64,
    /// The maximum internal syscall distance between the traces.
    pub max_syscall_distance: u64,
}

/// A trace cluster, containing similar traces.
#[derive(Debug)]
pub struct Cluster {
    /// The unique ID of the cluster.
    pub uid: String,
    /// The traces contained in the cluster.
    pub traces: Vec<Trace>,
    /// The minimum internal edge distance (in terms of similarity) between the traces.
    pub min_edge_distance: u64,
    /// The maximum internal edge distance (in terms of similarity) between the traces.
    pub max_edge_distance: u64,
    /// The minimum internal syscall distance (in terms of similarity) between the traces.
    pub min_syscall_distance: u64,
    /// The maximum internal syscall distance (in terms of similarity) between the traces.
    pub max_syscall_distance: u64,
}

impl View for Cluster {
    type V = ClusterView;

    open spec fn view(&self) -> ClusterView {
        ClusterView {
            uid: self.uid@,
            traces: self.traces.deep_view(),
            min_edge_distance: self.min_edge_distance,
            max_edge_distance: self.max_edge_distance,
            min_syscall_distance: self.min_syscall_distance,
            max_syscall_distance: self.max_syscall_distance,
        }
    }
}

impl DeepView for Cluster {
    type V = ClusterView;

    open spec fn deep_view(&self) -> ClusterView {
        self.view()
    }
}

/// Copies a vector of traces.
fn clone_traces(v: &Vec<Trace>) -> (r: Vec<Trace>)
    ensures
        r.deep_view() == v.deep_view(),
{
    let mut r: Vec<Trace> = Vec::new();
    let mut k: usize = 0;
    while k < v.len()
        invariant
            k <= v@.len(),
            r.deep_view() =~= v.deep_view().take(k as int),
        decreases v@.len() - k,
    {
        proof {
            assert(r.deep_view().len() == r@.len());
            assert(r@.len() == k as int);
        }
        let t = &v[k];
        r.push(t.clone());
        proof {
            assert(r@[k as int]@ == v@[k as int]@);
            assert(v.deep_view()[k as int] == v@[k as int]@);
            assert(r.deep_view()[k as int] == r@[k as int]@);
            assert(r.deep_view() =~= v.deep_view().take(k + 1 as int));
        }
        k = k + 1;
    }
    proof {
        assert(v.deep_view().take(v@.len() as int) =~= v.deep_view());
    }
    r
}

impl Clone for Cluster {
    /// Cloning preserves the cluster's value.
    fn clone(&self) -> (r: Cluster)
        ensures
            r@ == self@,
    {
        let r = Cluster {
            uid: self.uid.clone(),
            traces: clone_traces(&self.traces),
            min_edge_distance: self.min_edge_distance,
            max_edge_distance: self.max_edge_distance,
            min_syscall_distance: self.min_syscall_distance,
            max_syscall_distance: self.max_syscall_distance,
        };
        proof {
            assert(r@ =~~= self@);
        }
        r
    }
}

// ---------------------------------------------------------------------------
// Well-formedness
// ---------------------------------------------------------------------------
/// Whether a trace's vectors are usable under the given criterion: short
/// enough for distance sums, and non-empty where the criterion scales by
/// the vector length.
pub open spec fn spec_trace_ok(criterion: Criterion, t: TraceView) -> bool {
    &&& spec_len_ok(t.edges.len() as int)
    &&& spec_len_ok(t.syscalls.len() as int)
    &&& (criterion == Criterion::EdgesOrSyscalls ==> t.edges.len() > 0 && t.syscalls.len() > 0)
}

/// Whether all members have the same vector lengths as the trace under
/// comparison.
pub open spec fn spec_members_compatible(t: TraceView, members: Seq<TraceView>) -> bool {
    forall|i: int|
        0 <= i < members.len() ==> (#[trigger] members[i]).edges.len() == t.edges.len()
            && members[i].syscalls.len() == t.syscalls.len()
}

/// Whether a cluster can be compared against the trace: it has at least one
/// member and every member is length-compatible.
pub open spec fn spec_cluster_ok(t: TraceView, c: ClusterView) -> bool {
    c.traces.len() > 0 && spec_members_compatible(t, c.traces)
}

/// Whether every cluster of a list can be compared against the trace.
pub open spec fn spec_clusters_ok(t: TraceView, clusters: Seq<ClusterView>) -> bool {
    forall|i: int| 0 <= i < clusters.len() ==> spec_cluster_ok(t, #[trigger] clusters[i])
}

/// Whether a sequence of traces is a well-formed campaign input: every trace
/// usable under the criterion, and all vector lengths equal across traces.
pub open spec fn spec_traces_ok(criterion: Criterion, traces: Seq<TraceView>) -> bool {
    &&& forall|i: int| 0 <= i < traces.len() ==> spec_trace_ok(criterion, #[trigger] traces[i])
    &&& forall|i: int, j: int|
        0 <= i < traces.len() && 0 <= j < traces.len() ==> (#[trigger] traces[i]).edges.len() == (
        #[trigger] traces[j]).edges.len() && traces[i].syscalls.len() == traces[j].syscalls.len()
}

// ---------------------------------------------------------------------------
// Trace-to-cluster distances
// ---------------------------------------------------------------------------
/// The distance between the trace and member `i` of a cluster, over the
/// chosen vector.
pub open spec fn spec_dist_at(
    m: DistanceMetric,
    t: TraceView,
    members: Seq<TraceView>,
    i: int,
    edges: bool,
) -> int {
    if edges {
        m.spec_dist(t.edges, members[i].edges)
    } else {
        m.spec_dist(t.syscalls, members[i].syscalls)
    }
}

/// The minimum distance between the trace and the first `n` members.
pub open spec fn spec_min_dist_to(
    m: DistanceMetric,
    t: TraceView,
    members: Seq<TraceView>,
    n: int,
    edges: bool,
) -> int
    decreases n,
{
    if n <= 1 {
        spec_dist_at(m, t, members, 0, edges)
    } else {
        vstd::math::min(
            spec_min_dist_to(m, t, members, n - 1, edges),
            spec_dist_at(m, t, members, n - 1, edges),
        )
    }
}

/// The minimum distance between the trace and any member of the cluster.
pub open spec fn spec_min_dist(
    m: DistanceMetric,
    t: TraceView,
    members: Seq<TraceView>,
    edges: bool,
) -> int {
    spec_min_dist_to(m, t, members, members.len() as int, edges)
}

/// The maximum distance between the trace and the first `n` members.
pub open spec fn spec_max_dist_to(
    m: DistanceMetric,
    t: TraceView,
    members: Seq<TraceView>,
    n: int,
    edges: bool,
) -> int
    decreases n,
{
    if n <= 1 {
        spec_dist_at(m, t, members, 0, edges)
    } else {
        vstd::math::max(
            spec_max_dist_to(m, t, members, n - 1, edges),
            spec_dist_at(m, t, members, n - 1, edges),
        )
    }
}

/// The maximum distance between the trace and any member of the cluster.
pub open spec fn spec_max_dist(
    m: DistanceMetric,
    t: TraceView,
    members: Seq<TraceView>,
    edges: bool,
) -> int {
    spec_max_dist_to(m, t, members, members.len() as int, edges)
}

/// The length of the vector a distance is computed over.
pub open spec fn spec_axis_len(t: TraceView, edges: bool) -> int {
    if edges {
        t.edges.len() as int
    } else {
        t.syscalls.len() as int
    }
}

proof fn lemma_dist_at_bound(
    m: DistanceMetric,
    t: TraceView,
    members: Seq<TraceView>,
    i: int,
    edges: bool,
)
    ensures
        0 <= spec_dist_at(m, t, members, i, edges) <= 255 * spec_axis_len(t, edges),
{
    match m {
        DistanceMetric::Hamming => {
            if edges {
                crate::distance_metric::hamming::lemma_hamming_bound(
                    t.edges,
                    members[i].edges,
                    t.edges.len() as int,
                );
            } else {
                crate::distance_metric::hamming::lemma_hamming_bound(
                    t.syscalls,
                    members[i].syscalls,
                    t.syscalls.len() as int,
                );
            }
        },
    }
}

proof fn lemma_min_dist_to_bound(
    m: DistanceMetric,
    t: TraceView,
    members: Seq<TraceView>,
    n: int,
    edges: bool,
)
    ensures
        0 <= spec_min_dist_to(m, t, members, n, edges) <= 255 * spec_axis_len(t, edges),
    decreases n,
{
    lemma_dist_at_bound(m, t, members, 0, edges);
    if n > 1 {
        lemma_min_dist_to_bound(m, t, members, n - 1, edges);
        lemma_dist_at_bound(m, t, members, n - 1, edges);
    }
}

/// The minimum distance to a cluster stays within the per-vector bound.
pub proof fn lemma_min_dist_bound(
    m: DistanceMetric,
    t: TraceView,
    members: Seq<TraceView>,
    edges: bool,
)
    ensures
        0 <= spec_min_dist(m, t, members, edges) <= 255 * spec_axis_len(t, edges),
{
    lemma_min_dist_to_bound(m, t, members, members.len() as int, edges);
}

proof fn lemma_max_dist_to_bound(
    m: DistanceMetric,
    t: TraceView,
    members: Seq<TraceView>,
    n: int,
    edges: bool,
)
    ensures
        0 <= spec_max_dist_to(m, t, members, n, edges) <= 255 * spec_axis_len(t, edges),
    decreases n,
{
    lemma_dist_at_bound(m, t, members, 0, edges);
    if n > 1 {
        lemma_max_dist_to_bound(m, t, members, n - 1, edges);
        lemma_dist_at_bound(m, t, members, n - 1, edges);
    }
}

/// The maximum distance to a cluster stays within the per-vector bound.
pub proof fn lemma_max_dist_bound(
    m: DistanceMetric,
    t: TraceView,
    members: Seq<TraceView>,
    edges: bool,
)
    ensures
        0 <= spec_max_dist(m, t, members, edges) <= 255 * spec_axis_len(t, edges),
{
    lemma_max_dist_to_bound(m, t, members, members.len() as int, edges);
}

/// Computes the minimum distance between a trace and the members of a
/// cluster, over the chosen vector.
pub(crate) fn min_member_dist(
    m: DistanceMetric,
    t: &Trace,
    members: &Vec<Trace>,
    edges: bool,
) -> (r: u64)
    requires
        members.deep_view().len() > 0,
        spec_members_compatible(t@, members.deep_view()),
        spec_len_ok(spec_axis_len(t@, edges)),
    ensures
        r == spec_min_dist(m, t@, members.deep_view(), edges),
{
    let first = &members[0];
    proof {
        assert(members.deep_view()[0] == first@);
    }
    let mut acc: u64 = if edges {
        m.dist(&t.edges, &first.edges)
    } else {
        m.dist(&t.syscalls, &first.syscalls)
    };
    let mut i: usize = 1;
    while i < members.len()
        invariant
            1 <= i <= members.deep_view().len(),
            spec_members_compatible(t@, members.deep_view()),
            spec_len_ok(spec_axis_len(t@, edges)),
            acc == spec_min_dist_to(m, t@, members.deep_view(), i as int, edges),
        decreases members.deep_view().len() - i,
    {
        let member = &members[i];
        proof {
            assert(members.deep_view()[i as int] == member@);
        }
        let d: u64 = if edges {
            m.dist(&t.edges, &member.edges)
        } else {
            m.dist(&t.syscalls, &member.syscalls)
        };
        if d < acc {
            acc = d;
        }
        i = i + 1;
    }
    acc
}

/// Computes the maximum distance between a trace and the members of a
/// cluster, over the chosen vector.
fn max_member_dist(m: DistanceMetric, t: &Trace, members: &Vec<Trace>, edges: bool) -> (r: u64)
    requires
        members.deep_view().len() > 0,
        spec_members_compatible(t@, members.deep_view()),
        spec_len_ok(spec_axis_len(t@, edges)),
    ensures
        r == spec_max_dist(m, t@, members.deep_view(), edges),
{
    let first = &members[0];
    proof {
        assert(members.deep_view()[0] == first@);
    }
    let mut acc: u64 = if edges {
        m.dist(&t.edges, &first.edges)
    } else {
        m.dist(&t.syscalls, &first.syscalls)
    };
    let mut i: usize = 1;
    while i < members.len()
        invariant
            1 <= i <= members.deep_view().len(),
            spec_members_compatible(t@, members.deep_view()),
            spec_len_ok(spec_axis_len(t@, edges)),
            acc == spec_max_dist_to(m, t@, members.deep_view(), i as int, edges),
        decreases members.deep_view().len() - i,
    {
        let member = &members[i];
        proof {
            assert(members.deep_view()[i as int] == member@);
        }
        let d: u64 = if edges {
            m.dist(&t.edges, &member.edges)
        } else {
            m.dist(&t.syscalls, &member.syscalls)
        };
        if d > acc {
            acc = d;
        }
        i = i + 1;
    }
    acc
}

// ---------------------------------------------------------------------------
// Most-similar cluster selection
// ---------------------------------------------------------------------------
/// The aggregate a cluster is ranked by during selection: the minimum edge
/// distance, the minimum syscall distance, the proportionally smaller of the
/// two, or their sum saturated at `u64::MAX`.
pub open spec fn spec_sel_aggregate(
    criterion: Criterion,
    m: DistanceMetric,
    t: TraceView,
    c: ClusterView,
) -> int {
    let e = spec_min_dist(m, t, c.traces, true);
    let s = spec_min_dist(m, t, c.traces, false);
    match criterion {
        Criterion::EdgesOnly => e,
        Criterion::SyscallsOnly => s,
        Criterion::EdgesOrSyscalls => vstd::math::min(
            e / t.edges.len() as int,
            s / t.syscalls.len() as int,
        ),
        Criterion::EdgesAndSyscalls => if e + s > u64::MAX {
            u64::MAX as int
        } else {
            e + s
        },
    }
}

/// The index of the most similar cluster among the first `n`: the one with
/// the smallest aggregate, earliest first on ties.
pub open spec fn spec_best_cluster_to(
    criterion: Criterion,
    m: DistanceMetric,
    t: TraceView,
    clusters: Seq<ClusterView>,
    n: int,
) -> int
    decreases n,
{
    if n <= 1 {
        0
    } else {
        let b = spec_best_cluster_to(criterion, m, t, clusters, n - 1);
        if spec_sel_aggregate(criterion, m, t, clusters[n - 1]) < spec_sel_aggregate(
            criterion,
            m,
            t,
            clusters[b],
        ) {
            n - 1
        } else {
            b
        }
    }
}

/// The index of the most similar cluster in a non-empty cluster list.
pub open spec fn spec_best_cluster(
    criterion: Criterion,
    m: DistanceMetric,
    t: TraceView,
    clusters: Seq<ClusterView>,
) -> int {
    spec_best_cluster_to(criterion, m, t, clusters, clusters.len() as int)
}

/// The selected index always lies within the cluster list.
pub proof fn lemma_best_cluster_in_range(
    criterion: Criterion,
    m: DistanceMetric,
    t: TraceView,
    clusters: Seq<ClusterView>,
    n: int,
)
    requires
        n >= 1,
    ensures
        0 <= spec_best_cluster_to(criterion, m, t, clusters, n) < n,
    decreases n,
{
    if n > 1 {
        lemma_best_cluster_in_range(criterion, m, t, clusters, n - 1);
    }
}

/// Computes the selection aggregate of a cluster.
fn sel_aggregate(criterion: Criterion, m: DistanceMetric, t: &Trace, c: &Cluster) -> (r: u64)
    requires
        spec_trace_ok(criterion, t@),
        spec_cluster_ok(t@, c@),
    ensures
        r == spec_sel_aggregate(criterion, m, t@, c@),
{
    let e = min_member_dist(m, t, &c.traces, true);
    let s = min_member_dist(m, t, &c.traces, false);
    match criterion {
        Criterion::EdgesOnly => e,
        Criterion::SyscallsOnly => s,
        Criterion::EdgesOrSyscalls => {
            let ep = e / (t.edges.len() as u64);
            let sp = s / (t.syscalls.len() as u64);
            if ep < sp {
                ep
            } else {
                sp
            }
        },
        Criterion::EdgesAndSyscalls => {
            match e.checked_add(s) {
                Some(sum) => sum,
                None => u64::MAX,
            }
        },
    }
}

/// Computes the index of the most similar cluster.
fn best_cluster_index(
    criterion: Criterion,
    m: DistanceMetric,
    t: &Trace,
    clusters: &Vec<Cluster>,
) -> (r: usize)
    requires
        clusters.deep_view().len() > 0,
        spec_trace_ok(criterion, t@),
        spec_clusters_ok(t@, clusters.deep_view()),
    ensures
        r == spec_best_cluster(criterion, m, t@, clusters.deep_view()),
        r < clusters.deep_view().len(),
{
    let first = &clusters[0];
    proof {
        assert(clusters.deep_view()[0] == first@);
    }
    let mut best: usize = 0;
    let mut best_agg: u64 = sel_aggregate(criterion, m, t, first);
    let mut i: usize = 1;
    while i < clusters.len()
        invariant
            1 <= i <= clusters.deep_view().len(),
            spec_trace_ok(criterion, t@),
            spec_clusters_ok(t@, clusters.deep_view()),
            best < i,
            best == spec_best_cluster_to(criterion, m, t@, clusters.deep_view(), i as int),
            best_agg == spec_sel_aggregate(criterion, m, t@, clusters.deep_view()[best as int]),
        decreases clusters.deep_view().len() - i,
    {
        let candidate = &clusters[i];
        proof {
            assert(clusters.deep_view()[i as int] == candidate@);
        }
        let agg = sel_aggregate(criterion, m, t, candidate);
        if agg < best_agg {
            best = i;
            best_agg = agg;
        }
        i = i + 1;
    }
    best
}

/// Returns the most similar cluster to the trace, or `None` when no cluster
/// exists yet. Among equally similar clusters the one created first wins.
pub fn get_most_similar_cluster<'a>(
    trace: &Trace,
    clusters: &'a Vec<Cluster>,
    criterion: Criterion,
    distance_metric: DistanceMetric,
) -> (r: Option<&'a Cluster>)
    requires
        spec_trace_ok(criterion, trace@),
        spec_clusters_ok(trace@, clusters.deep_view()),
    ensures
        r is None <==> clusters.deep_view().len() == 0,
        r matches Some(c) ==> c@ == clusters.deep_view()[spec_best_cluster(
            criterion,
            distance_metric,
            trace@,
            clusters.deep_view(),
        )],
{
    if clusters.len() == 0 {
        None
    } else {
        let b = best_cluster_index(criterion, distance_metric, trace, clusters);
        Some(&clusters[b])
    }
}

// ---------------------------------------------------------------------------
// Cluster formation
// ---------------------------------------------------------------------------
/// The uid of the `n`-th cluster, in creation order.
pub open spec fn spec_cluster_uid(n: int) -> Seq<char> {
    "cluster_"@ + spec_dec_pad(n as nat, 6)
}

/// A fresh singleton cluster for a trace, with both envelopes collapsed to
/// the tolerances.
pub open spec fn spec_new_cluster(t: TraceView, n: int, etol: u64, stol: u64) -> ClusterView {
    ClusterView {
        uid: spec_cluster_uid(n),
        traces: seq![t],
        min_edge_distance: etol,
        max_edge_distance: etol,
        min_syscall_distance: stol,
        max_syscall_distance: stol,
    }
}

/// Whether a cluster admits a trace: the trace must be at least as close to
/// every member as the cluster's own minimum internal distance, on the
/// component(s) the criterion selects.
pub open spec fn spec_admit(
    criterion: Criterion,
    m: DistanceMetric,
    t: TraceView,
    c: ClusterView,
) -> bool {
    let edge_ok = spec_max_dist(m, t, c.traces, true) <= c.min_edge_distance;
    let syscall_ok = spec_max_dist(m, t, c.traces, false) <= c.min_syscall_distance;
    match criterion {
        Criterion::EdgesOnly => edge_ok,
        Criterion::SyscallsOnly => syscall_ok,
        Criterion::EdgesOrSyscalls => edge_ok || syscall_ok,
        Criterion::EdgesAndSyscalls => edge_ok && syscall_ok,
    }
}

/// The cluster after admitting a trace: the trace joins the member list and
/// the envelopes are updated, with the minima floored by the tolerances.
pub open spec fn spec_admitted_cluster(
    m: DistanceMetric,
    t: TraceView,
    c: ClusterView,
    etol: u64,
    stol: u64,
) -> ClusterView {
    let max_e = spec_max_dist(m, t, c.traces, true);
    let max_s = spec_max_dist(m, t, c.traces, false);
    ClusterView {
        uid: c.uid,
        traces: c.traces.push(t),
        min_edge_distance: vstd::math::min(
            c.min_edge_distance as int,
            vstd::math::max(max_e, etol as int),
        ) as u64,
        max_edge_distance: vstd::math::max(c.max_edge_distance as int, max_e) as u64,
        min_syscall_distance: vstd::math::min(
            c.min_syscall_distance as int,
            vstd::math::max(max_s, stol as int),
        ) as u64,
        max_syscall_distance: vstd::math::max(c.max_syscall_distance as int, max_s) as u64,
    }
}

/// One clustering step: the trace joins the most similar cluster when that
/// cluster admits it, and founds a new singleton cluster otherwise.
pub open spec fn spec_cluster_step(
    criterion: Criterion,
    m: DistanceMetric,
    t: TraceView,
    clusters: Seq<ClusterView>,
    etol: u64,
    stol: u64,
) -> Seq<ClusterView> {
    if clusters.len() == 0 {
        seq![spec_new_cluster(t, 0, etol, stol)]
    } else {
        let b = spec_best_cluster(criterion, m, t, clusters);
        if spec_admit(criterion, m, t, clusters[b]) {
            clusters.update(b, spec_admitted_cluster(m, t, clusters[b], etol, stol))
        } else {
            clusters.push(spec_new_cluster(t, clusters.len() as int, etol, stol))
        }
    }
}

/// The clusters formed from the first `n` traces, in creation order.
pub open spec fn spec_cluster_traces_to(
    traces: Seq<TraceView>,
    n: int,
    criterion: Criterion,
    m: DistanceMetric,
    etol: u64,
    stol: u64,
) -> Seq<ClusterView>
    decreases n,
{
    if n <= 0 {
        Seq::empty()
    } else {
        spec_cluster_step(
            criterion,
            m,
            traces[n - 1],
            spec_cluster_traces_to(traces, n - 1, criterion, m, etol, stol),
            etol,
            stol,
        )
    }
}

/// The clusters formed from a sequence of traces, in creation order.
pub open spec fn spec_cluster_traces(
    traces: Seq<TraceView>,
    criterion: Criterion,
    m: DistanceMetric,
    etol: u64,
    stol: u64,
) -> Seq<ClusterView> {
    spec_cluster_traces_to(traces, traces.len() as int, criterion, m, etol, stol)
}

/// Whether every cluster is non-empty with all member vectors of the given
/// lengths.
pub open spec fn spec_clusters_wf(clusters: Seq<ClusterView>, elen: int, slen: int) -> bool {
    &&& forall|i: int| 0 <= i < clusters.len() ==> (#[trigger] clusters[i]).traces.len() > 0
    &&& forall|i: int, j: int|
        0 <= i < clusters.len() && 0 <= j < clusters[i].traces.len() ==> (#[trigger] clusters[i].traces[j]).edges.len()
            == elen && clusters[i].traces[j].syscalls.len() == slen
}

proof fn lemma_cluster_step_wf(
    criterion: Criterion,
    m: DistanceMetric,
    t: TraceView,
    clusters: Seq<ClusterView>,
    etol: u64,
    stol: u64,
    elen: int,
    slen: int,
)
    requires
        spec_clusters_wf(clusters, elen, slen),
        t.edges.len() == elen,
        t.syscalls.len() == slen,
    ensures
        spec_clusters_wf(spec_cluster_step(criterion, m, t, clusters, etol, stol), elen, slen),
{
    if clusters.len() > 0 {
        lemma_best_cluster_in_range(criterion, m, t, clusters, clusters.len() as int);
    }
}

/// Builds the fresh singleton cluster for a trace.
fn new_cluster(t: &Trace, n: u64, etol: u64, stol: u64) -> (r: Cluster)
    ensures
        r@ == spec_new_cluster(t@, n as int, etol, stol),
{
    let mut uid: String = "cluster_".to_owned();
    push_dec_pad(&mut uid, n, 6);
    let mut members: Vec<Trace> = Vec::new();
    members.push(t.clone());
    let r = Cluster {
        uid,
        traces: members,
        min_edge_distance: etol,
        max_edge_distance: etol,
        min_syscall_distance: stol,
        max_syscall_distance: stol,
    };
    proof {
        assert(r@ =~~= spec_new_cluster(t@, n as int, etol, stol));
    }
    r
}

/// Groups traces into clusters, one pass in input order.
///
/// The result is a pure function of the inputs: same traces, criterion,
/// metric and tolerances give the same clusters (see
/// [`lemma_clustering_deterministic`]).
pub fn cluster_traces(
    traces: &Vec<Trace>,
    criterion: Criterion,
    distance_metric: DistanceMetric,
    edge_tolerance: u64,
    syscall_tolerance: u64,
) -> (r: Vec<Cluster>)
    requires
        forall|i: int|
            0 <= i < traces.deep_view().len() ==> spec_trace_ok(
                criterion,
                #[trigger] traces.deep_view()[i],
            ),
        forall|i: int, j: int|
            0 <= i < traces.deep_view().len() && 0 <= j < traces.deep_view().len() ==> (
            #[trigger] traces.deep_view()[i]).edges.len() == (
            #[trigger] traces.deep_view()[j]).edges.len()
                && traces.deep_view()[i].syscalls.len() == traces.deep_view()[j].syscalls.len(),
    ensures
        r.deep_view() == spec_cluster_traces(
            traces.deep_view(),
            criterion,
            distance_metric,
            edge_tolerance,
            syscall_tolerance,
        ),
        traces.deep_view().len() == 0 ==> r.deep_view().len() == 0,
        traces.deep_view().len() > 0 ==> spec_clusters_wf(
            r.deep_view(),
            traces.deep_view()[0].edges.len() as int,
            traces.deep_view()[0].syscalls.len() as int,
        ),
{
    let ghost tvs = traces.deep_view();
    let mut clusters: Vec<Cluster> = Vec::new();
    let mut i: usize = 0;
    while i < traces.len()
        invariant
            i <= tvs.len(),
            tvs == traces.deep_view(),
            forall|k: int| 0 <= k < tvs.len() ==> spec_trace_ok(criterion, #[trigger] tvs[k]),
            forall|k: int, j: int|
                0 <= k < tvs.len() && 0 <= j < tvs.len() ==> (#[trigger] tvs[k]).edges.len() == (
                #[trigger] tvs[j]).edges.len() && tvs[k].syscalls.len() == tvs[j].syscalls.len(),
            clusters.deep_view() == spec_cluster_traces_to(
                tvs,
                i as int,
                criterion,
                distance_metric,
                edge_tolerance,
                syscall_tolerance,
            ),
            i < tvs.len() ==> spec_clusters_wf(
                clusters.deep_view(),
                tvs[i as int].edges.len() as int,
                tvs[i as int].syscalls.len() as int,
            ),
            tvs.len() > 0 ==> spec_clusters_wf(
                clusters.deep_view(),
                tvs[0].edges.len() as int,
                tvs[0].syscalls.len() as int,
            ),
        decreases tvs.len() - i,
    {
        let t = &traces[i];
        let ghost pre = clusters.deep_view();
        proof {
            assert(t@ == tvs[i as int]);
            assert forall|k: int| 0 <= k < pre.len() implies spec_cluster_ok(
                t@,
                #[trigger] pre[k],
            ) by {
                assert(spec_clusters_wf(pre, t@.edges.len() as int, t@.syscalls.len() as int));
            }
        }
        if clusters.len() == 0 {
            let c = new_cluster(t, 0, edge_tolerance, syscall_tolerance);
            clusters.push(c);
            proof {
                assert(clusters.deep_view() =~~= spec_cluster_step(
                    criterion,
                    distance_metric,
                    t@,
                    pre,
                    edge_tolerance,
                    syscall_tolerance,
                ));
            }
        } else {
            let b = best_cluster_index(criterion, distance_metric, t, &clusters);
            let chosen = &clusters[b];
            proof {
                assert(clusters.deep_view()[b as int] == chosen@);
            }
            let max_e = max_member_dist(distance_metric, t, &chosen.traces, true);
            let max_s = max_member_dist(distance_metric, t, &chosen.traces, false);
            let edge_ok = max_e <= chosen.min_edge_distance;
            let syscall_ok = max_s <= chosen.min_syscall_distance;
            let accepted = match criterion {
                Criterion::EdgesOnly => edge_ok,
                Criterion::SyscallsOnly => syscall_ok,
                Criterion::EdgesOrSyscalls => edge_ok || syscall_ok,
                Criterion::EdgesAndSyscalls => edge_ok && syscall_ok,
            };
            if accepted {
                let mut c = clusters.remove(b);
                c.traces.push(t.clone());
                c.min_edge_distance = min_u64(c.min_edge_distance, max_u64(max_e, edge_tolerance));
                c.max_edge_distance = max_u64(c.max_edge_distance, max_e);
                c.min_syscall_distance = min_u64(
                    c.min_syscall_distance,
                    max_u64(max_s, syscall_tolerance),
                );
                c.max_syscall_distance = max_u64(c.max_syscall_distance, max_s);
                clusters.insert(b, c);
                proof {
                    assert(clusters.deep_view() =~~= pre.update(
                        b as int,
                        spec_admitted_cluster(
                            distance_metric,
                            t@,
                            pre[b as int],
                            edge_tolerance,
                            syscall_tolerance,
                        ),
                    ));
                    assert(clusters.deep_view() =~~= spec_cluster_step(
                        criterion,
                        distance_metric,
                        t@,
                        pre,
                        edge_tolerance,
                        syscall_tolerance,
                    ));
                }
            } else {
                let n = clusters.len();
                let c = new_cluster(t, n as u64, edge_tolerance, syscall_tolerance);
                clusters.push(c);
                proof {
                    assert(clusters.deep_view() =~~= spec_cluster_step(
                        criterion,
                        distance_metric,
                        t@,
                        pre,
                        edge_tolerance,
                        syscall_tolerance,
                    ));
                }
            }
        }
        proof {
            if i + 1 < tvs.len() {
                lemma_cluster_step_wf(
                    criterion,
                    distance_metric,
                    t@,
                    pre,
                    edge_tolerance,
                    syscall_tolerance,
                    tvs[i + 1].edges.len() as int,
                    tvs[i + 1].syscalls.len() as int,
                );
            }
            if tvs.len() > 0 {
                lemma_cluster_step_wf(
                    criterion,
                    distance_metric,
                    t@,
                    pre,
                    edge_tolerance,
                    syscall_tolerance,
                    tvs[0].edges.len() as int,
                    tvs[0].syscalls.len() as int,
                );
            }
        }
        i = i + 1;
    }
    clusters
}

/// The smaller of two machine integers.
fn min_u64(a: u64, b: u64) -> (r: u64)
    ensures
        r as int == vstd::math::min(a as int, b as int),
{
    if a < b {
        a
    } else {
        b
    }
}

/// The larger of two machine integers.
fn max_u64(a: u64, b: u64) -> (r: u64)
    ensures
        r as int == vstd::math::max(a as int, b as int),
{
    if a > b {
        a
    } else {
        b
    }
}

/// The member uids of the first `n` traces of a cluster, joined by line
/// breaks.
pub open spec fn spec_uid_lines_to(members: Seq<TraceView>, n: int) -> Seq<char>
    decreases n,
{
    if n <= 0 {
        Seq::empty()
    } else if n == 1 {
        members[0].uid
    } else {
        spec_uid_lines_to(members, n - 1) + seq!['\n'] + members[n - 1].uid
    }
}

/// The contents of a cluster's file: its member trace uids, one per line,
/// ended by a line break.
pub open spec fn spec_cluster_file(c: ClusterView) -> Seq<char> {
    spec_uid_lines_to(c.traces, c.traces.len() as int) + seq!['\n']
}

/// Renders the file a cluster is persisted as.
pub fn cluster_file_contents(c: &Cluster) -> (r: String)
    ensures
        r@ == spec_cluster_file(c@),
{
    let mut r = String::new();
    let mut i: usize = 0;
    while i < c.traces.len()
        invariant
            i <= c.traces.deep_view().len(),
            r@ == spec_uid_lines_to(c.traces.deep_view(), i as int),
        decreases c.traces.deep_view().len() - i,
    {
        if i > 0 {
            push_char(&mut r, '\n');
        }
        let member = &c.traces[i];
        proof {
            assert(c.traces.deep_view()[i as int] == c.traces@[i as int]@);
        }
        r.append(member.uid.as_str());
        proof {
            assert(r@ =~= spec_uid_lines_to(c.traces.deep_view(), i + 1 as int));
        }
        i = i + 1;
    }
    push_char(&mut r, '\n');
    proof {
        assert(r@ =~= spec_cluster_file(c@));
    }
    r
}

// ---------------------------------------------------------------------------
// Properties of the clustering
// ---------------------------------------------------------------------------
/// Clustering is deterministic: equal input sequences, criteria, metrics and
/// tolerances yield equal cluster lists.
pub proof fn lemma_clustering_deterministic(
    traces1: Seq<TraceView>,
    traces2: Seq<TraceView>,
    criterion1: Criterion,
    criterion2: Criterion,
    m1: DistanceMetric,
    m2: DistanceMetric,
    etol1: u64,
    etol2: u64,
    stol1: u64,
    stol2: u64,
)
    requires
        traces1 == traces2,
        criterion1 == criterion2,
        m1 == m2,
        etol1 == etol2,
        stol1 == stol2,
    ensures
        spec_cluster_traces(traces1, criterion1, m1, etol1, stol1) == spec_cluster_traces(
            traces2,
            criterion2,
            m2,
            etol2,
            stol2,
        ),
{
}

/// Clustering an empty trace list yields an empty cluster list.
pub proof fn lemma_cluster_traces_empty(
    traces: Seq<TraceView>,
    criterion: Criterion,
    m: DistanceMetric,
    etol: u64,
    stol: u64,
)
    requires
        traces.len() == 0,
    ensures
        spec_cluster_traces(traces, criterion, m, etol, stol).len() == 0,
{
}

/// In every cluster the algorithm forms, the minimum internal distances sit
/// exactly at the configured tolerances, and the maxima at or above them.
pub proof fn lemma_cluster_envelope(
    traces: Seq<TraceView>,
    n: int,
    criterion: Criterion,
    m: DistanceMetric,
    etol: u64,
    stol: u64,
)
    requires
        n <= traces.len(),
        forall|k: int| 0 <= k < traces.len() ==> spec_trace_ok(criterion, #[trigger] traces[k]),
    ensures
        forall|i: int|
            0 <= i < spec_cluster_traces_to(traces, n, criterion, m, etol, stol).len() ==> {
                let c = #[trigger] spec_cluster_traces_to(traces, n, criterion, m, etol, stol)[i];
                c.min_edge_distance == etol && c.min_syscall_distance == stol
                    && c.max_edge_distance >= etol && c.max_syscall_distance >= stol
            },
    decreases n,
{
    if n > 0 {
        lemma_cluster_envelope(traces, n - 1, criterion, m, etol, stol);
        let pre = spec_cluster_traces_to(traces, n - 1, criterion, m, etol, stol);
        let post = spec_cluster_traces_to(traces, n, criterion, m, etol, stol);
        let t = traces[n - 1];
        assert(post == spec_cluster_step(criterion, m, t, pre, etol, stol));
        assert forall|i: int| 0 <= i < post.len() implies {
            let c = #[trigger] post[i];
            c.min_edge_distance == etol && c.min_syscall_distance == stol
                && c.max_edge_distance >= etol && c.max_syscall_distance >= stol
        } by {
            if pre.len() == 0 {
                assert(post[i] == spec_new_cluster(t, 0, etol, stol));
            } else {
                lemma_best_cluster_in_range(criterion, m, t, pre, pre.len() as int);
                let b = spec_best_cluster(criterion, m, t, pre);
                if spec_admit(criterion, m, t, pre[b]) {
                    if i == b {
                        lemma_max_dist_bound(m, t, pre[b].traces, true);
                        lemma_max_dist_bound(m, t, pre[b].traces, false);
                        assert(spec_trace_ok(criterion, t));
                        assert(post[i] == spec_admitted_cluster(m, t, pre[b], etol, stol));
                        assert(pre[b].min_edge_distance == etol);
                        assert(pre[b].min_syscall_distance == stol);
                    } else {
                        assert(post[i] == pre[i]);
                    }
                } else {
                    if i < pre.len() {
                        assert(post[i] == pre[i]);
                    } else {
                        assert(post[i] == spec_new_cluster(t, pre.len() as int, etol, stol));
                    }
                }
            }
        }
    }
}

/// A trace whose edge vector is all zero admits to a cluster whose minimum
/// edge distance is positive only because the edge tolerance forces that
/// minimum up: the tolerance must itself be positive.
pub proof fn lemma_zero_vector_admission(
    traces: Seq<TraceView>,
    criterion: Criterion,
    m: DistanceMetric,
    etol: u64,
    stol: u64,
    t: TraceView,
    i: int,
)
    requires
        forall|k: int| 0 <= k < traces.len() ==> spec_trace_ok(criterion, #[trigger] traces[k]),
        forall|k: int| 0 <= k < t.edges.len() ==> t.edges[k] == 0,
        0 <= i < spec_cluster_traces(traces, criterion, m, etol, stol).len(),
        spec_cluster_traces(traces, criterion, m, etol, stol)[i].min_edge_distance > 0,
        spec_admit(criterion, m, t, spec_cluster_traces(traces, criterion, m, etol, stol)[i]),
    ensures
        etol > 0,
{
    lemma_cluster_envelope(traces, traces.len() as int, criterion, m, etol, stol);
}

/// Two cluster candidates whose selection aggregates both saturate at
/// `u64::MAX` under the edges-and-syscalls criterion are told apart only by
/// insertion order: the earlier one is selected.
pub proof fn lemma_saturated_tie_break(
    m: DistanceMetric,
    t: TraceView,
    clusters: Seq<ClusterView>,
)
    requires
        clusters.len() == 2,
        spec_sel_aggregate(Criterion::EdgesAndSyscalls, m, t, clusters[0]) == u64::MAX as int,
        spec_sel_aggregate(Criterion::EdgesAndSyscalls, m, t, clusters[1]) == u64::MAX as int,
    ensures
        spec_best_cluster(Criterion::EdgesAndSyscalls, m, t, clusters) == 0,
{
    assert(spec_best_cluster_to(Criterion::EdgesAndSyscalls, m, t, clusters, 1) == 0);
    assert(spec_best_cluster_to(Criterion::EdgesAndSyscalls, m, t, clusters, 2) == 0);
}

} // verus!
