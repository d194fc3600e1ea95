//! The metamorphic oracle: decides whether a trace triggers a backdoor by
//! comparing it against its most similar cluster.

use vstd::prelude::*;

use crate::clustering::{spec_cluster_ok, spec_min_dist, Cluster, ClusterView};
use crate::criterion::Criterion;
use crate::decision::{Decision, DecisionReason, DiscriminantsView};
use crate::distance_metric::{spec_len_ok, DistanceMetric};
use crate::error::RosaError;
use crate::oracle::comp_min_max::comp_min_max_oracle;
use crate::text::str_eq;
use crate::trace::{Trace, TraceView};

pub mod comp_min_max;

verus! {

/// The oracle algorithm in use. The set of algorithms is closed, so it is
/// modelled as an enum; each variant's algorithm lives in its own module.
#[derive(Clone, Copy, Debug, PartialEq, Eq, Structural)]
pub enum Oracle {
    /// Compare the minimum trace-to-cluster distance against the cluster's
    /// maximum internal distance.
    CompMinMax,
}

/// Whether the trace's minimum edge distance to the cluster exceeds the
/// cluster's maximum internal edge distance.
pub open spec fn spec_edge_fired(m: DistanceMetric, t: TraceView, c: ClusterView) -> bool {
    spec_min_dist(m, t, c.traces, true) > c.max_edge_distance
}

/// Whether the trace's minimum syscall distance to the cluster exceeds the
/// cluster's maximum internal syscall distance.
pub open spec fn spec_syscall_fired(m: DistanceMetric, t: TraceView, c: ClusterView) -> bool {
    spec_min_dist(m, t, c.traces, false) > c.max_syscall_distance
}

/// Whether the oracle classifies the trace as backdoor-triggering
/// under the criterion.
pub open spec fn spec_oracle_backdoor(
    criterion: Criterion,
    m: DistanceMetric,
    t: TraceView,
    c: ClusterView,
) -> bool {
    let e = spec_edge_fired(m, t, c);
    let s = spec_syscall_fired(m, t, c);
    match criterion {
        Criterion::EdgesOnly => e,
        Criterion::SyscallsOnly => s,
        Criterion::EdgesOrSyscalls => e || s,
        Criterion::EdgesAndSyscalls => e && s,
    }
}

/// The reason recorded beside the classification. For the either-or criterion the
/// reason names the predicate that fired (or the combination when neither
/// did); for the both-and criterion it names the predicate still missing
/// when only one fired.
pub open spec fn spec_oracle_reason(
    criterion: Criterion,
    m: DistanceMetric,
    t: TraceView,
    c: ClusterView,
) -> DecisionReason {
    let e = spec_edge_fired(m, t, c);
    let s = spec_syscall_fired(m, t, c);
    match criterion {
        Criterion::EdgesOnly => DecisionReason::Edges,
        Criterion::SyscallsOnly => DecisionReason::Syscalls,
        Criterion::EdgesOrSyscalls => if e || s {
            if e {
                DecisionReason::Edges
            } else {
                DecisionReason::Syscalls
            }
        } else {
            DecisionReason::EdgesAndSyscalls
        },
        Criterion::EdgesAndSyscalls => if e && s {
            DecisionReason::EdgesAndSyscalls
        } else if e {
            DecisionReason::Syscalls
        } else {
            DecisionReason::Edges
        },
    }
}

/// What a full oracle decision must hold: the identities of the trace and
/// cluster, the classification and reason above, and the four discriminant lists.
pub open spec fn spec_oracle_decision(
    d: crate::decision::DecisionView,
    criterion: Criterion,
    m: DistanceMetric,
    t: TraceView,
    c: ClusterView,
) -> bool {
    &&& d.trace_uid == t.uid
    &&& d.trace_name == t.name
    &&& d.cluster_uid == c.uid
    &&& d.is_backdoor == spec_oracle_backdoor(criterion, m, t, c)
    &&& d.reason == spec_oracle_reason(criterion, m, t, c)
    &&& d.discriminants == DiscriminantsView {
        trace_edges: comp_min_max::spec_discr(t, c.traces, true, true),
        cluster_edges: comp_min_max::spec_discr(t, c.traces, true, false),
        trace_syscalls: comp_min_max::spec_discr(t, c.traces, false, true),
        cluster_syscalls: comp_min_max::spec_discr(t, c.traces, false, false),
    }
}

impl Oracle {
    /// Decides whether a trace triggers a backdoor, compared against the
    /// given cluster.
    pub fn decide(
        &self,
        trace: &Trace,
        cluster: &Cluster,
        criterion: Criterion,
        distance_metric: DistanceMetric,
    ) -> (r: Decision)
        requires
            spec_cluster_ok(trace@, cluster@),
            spec_len_ok(trace@.edges.len() as int),
            spec_len_ok(trace@.syscalls.len() as int),
        ensures
            spec_oracle_decision(r@, criterion, distance_metric, trace@, cluster@),
    {
        match self {
            Oracle::CompMinMax => comp_min_max_oracle(trace, cluster, criterion, distance_metric),
        }
    }

    /// The stable tag of the oracle, as used in configuration files.
    pub open spec fn spec_name(self) -> Seq<char> {
        match self {
            Oracle::CompMinMax => "comp-min-max"@,
        }
    }

    /// The stable tag of the oracle.
    pub fn name(&self) -> (r: &str)
        ensures
            r@ == self.spec_name(),
    {
        match self {
            Oracle::CompMinMax => "comp-min-max",
        }
    }

    /// Parses an oracle tag; fails exactly on the strings that name no
    /// oracle.
    pub fn from_name(s: &str) -> (r: Result<Oracle, RosaError>)
        ensures
            r matches Ok(o) ==> o.spec_name() == s@,
            r is Err ==> forall|o: Oracle| o.spec_name() != s@,
    {
        if str_eq(s, "comp-min-max") {
            Ok(Oracle::CompMinMax)
        } else {
            proof {
                assert forall|o: Oracle| o.spec_name() != s@ by {
                    assert(o.spec_name() == "comp-min-max"@);
                }
            }
            Err(
                RosaError::new(
                    "rosa::oracle",
                    0,
                    "oracle.rs",
                    "invalid oracle.",
                ),
            )
        }
    }
}

} // verus!
