//! The CompMinMax metamorphic oracle algorithm.
//!
//! Two families of distances matter: the distances between the trace and
//! every member of the cluster, and the internal spread the cluster recorded
//! at formation time. If the smallest trace-to-member distance exceeds the
//! cluster's maximum internal distance, the trace lies outside the cluster's
//! behavior envelope and is considered to correspond to a backdoor.

use vstd::prelude::*;

use crate::clustering::{min_member_dist, spec_cluster_ok, Cluster};
use crate::criterion::Criterion;
use crate::decision::{Decision, DecisionReason, Discriminants};
use crate::distance_metric::{spec_len_ok, DistanceMetric};
use crate::oracle::{spec_oracle_backdoor, spec_oracle_decision, spec_oracle_reason};
use crate::trace::{covered_at, spec_covered, Trace, TraceView};

verus! {

/// The discriminant indices over the first `n` positions of the chosen
/// vector: with `from_trace` set, the positions where the trace is non-zero
/// but every cluster member is zero; otherwise the positions where the trace
/// is zero but some cluster member is non-zero.
pub open spec fn spec_discr_to(
    t: TraceView,
    members: Seq<TraceView>,
    n: int,
    edges: bool,
    from_trace: bool,
) -> Seq<usize>
    decreases n,
{
    if n <= 0 {
        Seq::empty()
    } else {
        let pre = spec_discr_to(t, members, n - 1, edges, from_trace);
        let b = if edges {
            t.edges[n - 1]
        } else {
            t.syscalls[n - 1]
        };
        let hit = if from_trace {
            b != 0 && !spec_covered(members, n - 1, edges)
        } else {
            b == 0 && spec_covered(members, n - 1, edges)
        };
        if hit {
            pre.push((n - 1) as usize)
        } else {
            pre
        }
    }
}

/// The discriminant indices over the whole chosen vector of the trace.
pub open spec fn spec_discr(
    t: TraceView,
    members: Seq<TraceView>,
    edges: bool,
    from_trace: bool,
) -> Seq<usize> {
    spec_discr_to(
        t,
        members,
        if edges {
            t.edges.len() as int
        } else {
            t.syscalls.len() as int
        },
        edges,
        from_trace,
    )
}

/// Computes one discriminant index list.
fn discr_list(t: &Trace, members: &Vec<Trace>, edges: bool, from_trace: bool) -> (r: Vec<usize>)
    requires
        forall|k: int|
            0 <= k < members.deep_view().len() ==> (#[trigger] members.deep_view()[k]).edges.len()
                == t@.edges.len() && members.deep_view()[k].syscalls.len() == t@.syscalls.len(),
    ensures
        r@ == spec_discr(t@, members.deep_view(), edges, from_trace),
{
    let len = if edges {
        t.edges.len()
    } else {
        t.syscalls.len()
    };
    let mut r: Vec<usize> = Vec::new();
    let mut i: usize = 0;
    while i < len
        invariant
            i <= len,
            len == (if edges {
                t@.edges.len()
            } else {
                t@.syscalls.len()
            }),
            forall|k: int|
                0 <= k < members.deep_view().len() ==> (
                #[trigger] members.deep_view()[k]).edges.len() == t@.edges.len()
                    && members.deep_view()[k].syscalls.len() == t@.syscalls.len(),
            r@ == spec_discr_to(t@, members.deep_view(), i as int, edges, from_trace),
        decreases len - i,
    {
        proof {
            assert forall|k: int| 0 <= k < members@.len() implies i < (if edges {
                (#[trigger] members@[k])@.edges.len()
            } else {
                members@[k]@.syscalls.len()
            }) by {
                assert(members.deep_view()[k] == members@[k]@);
            }
        }
        let b = if edges {
            t.edges[i]
        } else {
            t.syscalls[i]
        };
        let cov = covered_at(members, i, edges);
        let hit = if from_trace {
            b != 0 && !cov
        } else {
            b == 0 && cov
        };
        if hit {
            r.push(i);
        }
        i = i + 1;
    }
    r
}

/// The CompMinMax metamorphic oracle algorithm.
#[derive(Clone, Copy, Debug, PartialEq, Eq, Structural)]
pub struct CompMinMax;

impl CompMinMax {
    /// The stable tag of the oracle.
    pub fn name(&self) -> (r: &str)
        ensures
            r@ == "comp-min-max"@,
    {
        "comp-min-max"
    }

    /// Decides whether a trace triggers a backdoor, compared against the
    /// given cluster.
    pub fn decide(
        &self,
        trace: &Trace,
        cluster: &Cluster,
        criterion: Criterion,
        distance_metric: DistanceMetric,
    ) -> (r: Decision)
        requires
            spec_cluster_ok(trace@, cluster@),
            spec_len_ok(trace@.edges.len() as int),
            spec_len_ok(trace@.syscalls.len() as int),
        ensures
            spec_oracle_decision(r@, criterion, distance_metric, trace@, cluster@),
    {
        comp_min_max_oracle(trace, cluster, criterion, distance_metric)
    }
}

/// Classifies a trace against its most similar cluster: the classification follows
/// the criterion's predicates over minimum trace-to-cluster distances versus
/// the cluster's maximum internal distances, and the discriminant lists are
/// always computed, whatever the outcome.
pub fn comp_min_max_oracle(
    trace: &Trace,
    cluster: &Cluster,
    criterion: Criterion,
    distance_metric: DistanceMetric,
) -> (r: Decision)
    requires
        spec_cluster_ok(trace@, cluster@),
        spec_len_ok(trace@.edges.len() as int),
        spec_len_ok(trace@.syscalls.len() as int),
    ensures
        spec_oracle_decision(r@, criterion, distance_metric, trace@, cluster@),
{
    let min_edge_distance = min_member_dist(distance_metric, trace, &cluster.traces, true);
    let min_syscall_distance = min_member_dist(distance_metric, trace, &cluster.traces, false);

    let edge_fired = min_edge_distance > cluster.max_edge_distance;
    let syscall_fired = min_syscall_distance > cluster.max_syscall_distance;

    let (is_backdoor, reason) = match criterion {
        Criterion::EdgesOnly => (edge_fired, DecisionReason::Edges),
        Criterion::SyscallsOnly => (syscall_fired, DecisionReason::Syscalls),
        Criterion::EdgesOrSyscalls => (
            edge_fired || syscall_fired,
            if edge_fired || syscall_fired {
                if edge_fired {
                    DecisionReason::Edges
                } else {
                    DecisionReason::Syscalls
                }
            } else {
                DecisionReason::EdgesAndSyscalls
            },
        ),
        Criterion::EdgesAndSyscalls => (
            edge_fired && syscall_fired,
            if edge_fired && syscall_fired {
                DecisionReason::EdgesAndSyscalls
            } else if edge_fired {
                DecisionReason::Syscalls
            } else {
                DecisionReason::Edges
            },
        ),
    };

    let discriminants = Discriminants {
        trace_edges: discr_list(trace, &cluster.traces, true, true),
        cluster_edges: discr_list(trace, &cluster.traces, true, false),
        trace_syscalls: discr_list(trace, &cluster.traces, false, true),
        cluster_syscalls: discr_list(trace, &cluster.traces, false, false),
    };

    let r = Decision {
        trace_uid: trace.uid.clone(),
        trace_name: trace.name.clone(),
        cluster_uid: cluster.uid.clone(),
        is_backdoor,
        reason,
        discriminants,
    };
    proof {
        assert(r@.is_backdoor == spec_oracle_backdoor(criterion, distance_metric, trace@, cluster@));
        assert(r@.reason == spec_oracle_reason(criterion, distance_metric, trace@, cluster@));
        assert(r@.discriminants =~= crate::decision::DiscriminantsView {
            trace_edges: spec_discr(trace@, cluster@.traces, true, true),
            cluster_edges: spec_discr(trace@, cluster@.traces, true, false),
            trace_syscalls: spec_discr(trace@, cluster@.traces, false, true),
            cluster_syscalls: spec_discr(trace@, cluster@.traces, false, false),
        });
    }
    r
}

} // verus!
