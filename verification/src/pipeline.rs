//! The detection campaign state machine.
//!
//! A campaign moves through the phases starting, collecting-inputs,
//! clustering-inputs, detecting-backdoors and stopped. While collecting, it
//! records each new trace under a synthetic seed decision; at the phase
//! boundary it clusters everything seen so far, exactly once; while
//! detecting, it classifies each new trace through the oracle, counts
//! backdoors, and deduplicates them by fingerprint. The binary around the
//! library performs the file and process work between steps; every decision
//! the campaign takes is made here.

use vstd::prelude::*;

use crate::clustering::{
    cluster_traces, get_most_similar_cluster, spec_best_cluster, spec_cluster_ok,
    spec_cluster_traces, spec_clusters_wf, spec_trace_ok, Cluster,
};
use crate::config::RosaPhase;
use crate::criterion::Criterion;
use crate::decision::{
    spec_fingerprint, Decision, DecisionReason, Discriminants, TimedDecision,
};
use crate::distance_metric::{spec_len_ok, DistanceMetric};
use crate::error::RosaError;
use crate::oracle::{spec_oracle_decision, Oracle};
use crate::text::str_eq;
use crate::trace::Trace;

verus! {

/// The state of one detection campaign.
pub struct Campaign {
    /// The current phase.
    pub phase: RosaPhase,
    /// Every trace observed so far, in ingestion order.
    pub traces: Vec<Trace>,
    /// The clusters formed at the phase boundary; empty before that.
    pub clusters: Vec<Cluster>,
    /// Every decision produced so far, in production order.
    pub decisions: Vec<TimedDecision>,
    /// The distinct fingerprints of the backdoors found so far; one
    /// backdoor directory exists per entry.
    pub fingerprints: Vec<String>,
    /// How many backdoor decisions were produced, duplicates included.
    pub total_backdoors: u64,
    /// The elapsed seconds of the most recent decision.
    pub last_seconds: u64,
}

impl Campaign {
    /// The campaign's invariant: trace uids are unique; each trace gets at
    /// most one decision; decision times never decrease; fingerprints are
    /// distinct and never outnumber the total backdoor count; all trace
    /// vectors share their lengths; clusters exist only once formed, and
    /// their members' vectors match the campaign's.
    pub open spec fn wf(self) -> bool {
        let ts = self.traces.deep_view();
        let ds = self.decisions.deep_view();
        let fs = self.fingerprints.deep_view();
        &&& forall|i: int, j: int|
            0 <= i < j < ts.len() ==> (#[trigger] ts[i]).uid != (#[trigger] ts[j]).uid
        &&& forall|i: int, j: int|
            0 <= i < ts.len() && 0 <= j < ts.len() ==> (#[trigger] ts[i]).edges.len() == (
            #[trigger] ts[j]).edges.len() && ts[i].syscalls.len() == ts[j].syscalls.len()
        &&& forall|i: int|
            0 <= i < ts.len() ==> spec_len_ok((#[trigger] ts[i]).edges.len() as int) && spec_len_ok(
                ts[i].syscalls.len() as int,
            )
        &&& forall|i: int, j: int|
            0 <= i < j < ds.len() ==> (#[trigger] ds[i]).decision.trace_uid != (
            #[trigger] ds[j]).decision.trace_uid
        &&& forall|i: int, j: int|
            0 <= i < j < ds.len() ==> (#[trigger] ds[i]).seconds <= (#[trigger] ds[j]).seconds
        &&& forall|i: int| 0 <= i < ds.len() ==> (#[trigger] ds[i]).seconds <= self.last_seconds
        &&& forall|i: int, j: int| 0 <= i < j < fs.len() ==> #[trigger] fs[i] != #[trigger] fs[j]
        &&& fs.len() <= self.total_backdoors
        &&& self.total_backdoors <= ds.len()
        &&& ((self.phase == RosaPhase::Starting || self.phase == RosaPhase::CollectingInputs)
            ==> self.clusters.deep_view().len() == 0)
        &&& (self.clusters.deep_view().len() > 0 ==> ts.len() > 0)
        &&& (ts.len() > 0 ==> spec_clusters_wf(
            self.clusters.deep_view(),
            ts[0].edges.len() as int,
            ts[0].syscalls.len() as int,
        ))
    }

    /// Whether a trace with this uid has been observed.
    pub open spec fn spec_contains_trace(self, uid: Seq<char>) -> bool {
        exists|i: int|
            0 <= i < self.traces.deep_view().len() && (#[trigger] self.traces.deep_view()[i]).uid
                == uid
    }

    /// Whether a decision has been produced for this trace uid.
    pub open spec fn spec_has_decision(self, uid: Seq<char>) -> bool {
        exists|i: int|
            0 <= i < self.decisions.deep_view().len() && (
            #[trigger] self.decisions.deep_view()[i]).decision.trace_uid == uid
    }

    /// Whether a backdoor with this fingerprint has already been recorded.
    pub open spec fn spec_has_fingerprint(self, fp: Seq<char>) -> bool {
        exists|i: int|
            0 <= i < self.fingerprints.deep_view().len()
                && #[trigger] self.fingerprints.deep_view()[i] == fp
    }

    /// A fresh campaign: starting phase, nothing observed.
    pub fn new() -> (r: Campaign)
        ensures
            r.wf(),
            r.phase == RosaPhase::Starting,
            r.traces.deep_view().len() == 0,
            r.clusters.deep_view().len() == 0,
            r.decisions.deep_view().len() == 0,
            r.fingerprints.deep_view().len() == 0,
            r.total_backdoors == 0,
            r.last_seconds == 0,
    {
        Campaign {
            phase: RosaPhase::Starting,
            traces: Vec::new(),
            clusters: Vec::new(),
            decisions: Vec::new(),
            fingerprints: Vec::new(),
            total_backdoors: 0,
            last_seconds: 0,
        }
    }

    /// Enters the input collection phase.
    pub fn start_collecting(&mut self)
        requires
            old(self).wf(),
            old(self).phase == RosaPhase::Starting,
        ensures
            final(self).wf(),
            final(self).phase == RosaPhase::CollectingInputs,
            final(self).traces == old(self).traces,
            final(self).clusters == old(self).clusters,
            final(self).decisions == old(self).decisions,
            final(self).fingerprints == old(self).fingerprints,
            final(self).total_backdoors == old(self).total_backdoors,
            final(self).last_seconds == old(self).last_seconds,
    {
        self.phase = RosaPhase::CollectingInputs;
    }

    /// Ends the campaign.
    pub fn stop(&mut self)
        requires
            old(self).wf(),
        ensures
            final(self).wf(),
            final(self).phase == RosaPhase::Stopped,
            final(self).traces == old(self).traces,
            final(self).clusters == old(self).clusters,
            final(self).decisions == old(self).decisions,
            final(self).fingerprints == old(self).fingerprints,
            final(self).total_backdoors == old(self).total_backdoors,
            final(self).last_seconds == old(self).last_seconds,
    {
        self.phase = RosaPhase::Stopped;
    }

    /// Tests whether a trace with this uid has been observed.
    pub fn contains_trace(&self, uid: &str) -> (r: bool)
        ensures
            r == self.spec_contains_trace(uid@),
    {
        let mut k: usize = 0;
        while k < self.traces.len()
            invariant
                k <= self.traces.deep_view().len(),
                forall|j: int|
                    0 <= j < k ==> (#[trigger] self.traces.deep_view()[j]).uid != uid@,
            decreases self.traces.deep_view().len() - k,
        {
            proof {
                assert(self.traces.deep_view()[k as int] == self.traces@[k as int]@);
            }
            if str_eq(self.traces[k].uid.as_str(), uid) {
                proof {
                    assert(self.traces.deep_view()[k as int].uid == uid@);
                }
                return true;
            }
            k = k + 1;
        }
        false
    }

    /// Tests whether a decision exists for this trace uid.
    pub fn has_decision(&self, uid: &str) -> (r: bool)
        ensures
            r == self.spec_has_decision(uid@),
    {
        let mut k: usize = 0;
        while k < self.decisions.len()
            invariant
                k <= self.decisions.deep_view().len(),
                forall|j: int|
                    0 <= j < k ==> (#[trigger] self.decisions.deep_view()[j]).decision.trace_uid
                        != uid@,
            decreases self.decisions.deep_view().len() - k,
        {
            proof {
                assert(self.decisions.deep_view()[k as int] == self.decisions@[k as int]@);
            }
            if str_eq(self.decisions[k].decision.trace_uid.as_str(), uid) {
                proof {
                    assert(self.decisions.deep_view()[k as int].decision.trace_uid == uid@);
                }
                return true;
            }
            k = k + 1;
        }
        false
    }

    /// Tests whether this backdoor fingerprint has already been recorded.
    pub fn contains_fingerprint(&self, fp: &str) -> (r: bool)
        ensures
            r == self.spec_has_fingerprint(fp@),
    {
        let mut k: usize = 0;
        while k < self.fingerprints.len()
            invariant
                k <= self.fingerprints.deep_view().len(),
                forall|j: int| 0 <= j < k ==> #[trigger] self.fingerprints.deep_view()[j] != fp@,
            decreases self.fingerprints.deep_view().len() - k,
        {
            proof {
                assert(self.fingerprints.deep_view()[k as int] == self.fingerprints@[k as int]@);
            }
            if str_eq(self.fingerprints[k].as_str(), fp) {
                proof {
                    assert(self.fingerprints.deep_view()[k as int] == fp@);
                }
                return true;
            }
            k = k + 1;
        }
        false
    }

    /// The number of unique backdoors found so far: one per distinct
    /// fingerprint, and so one per backdoor directory.
    pub fn unique_backdoors(&self) -> (r: u64)
        requires
            self.fingerprints.deep_view().len() <= u64::MAX,
        ensures
            r == self.fingerprints.deep_view().len(),
    {
        self.fingerprints.len() as u64
    }

    /// Records a newly observed trace. Fails exactly when the trace's
    /// vectors do not match the lengths established by the campaign's
    /// earlier traces, or are too long for distance computations; the
    /// campaign is unchanged on failure.
    pub fn observe_trace(&mut self, t: Trace) -> (r: Result<(), RosaError>)
        requires
            old(self).wf(),
            !old(self).spec_contains_trace(t@.uid),
        ensures
            final(self).wf(),
            r is Ok <==> (spec_len_ok(t@.edges.len() as int) && spec_len_ok(
                t@.syscalls.len() as int,
            ) && (old(self).traces.deep_view().len() > 0 ==> t@.edges.len() == old(
                self,
            ).traces.deep_view()[0].edges.len() && t@.syscalls.len() == old(
                self,
            ).traces.deep_view()[0].syscalls.len())),
            r is Ok ==> final(self).traces.deep_view() == old(self).traces.deep_view().push(t@),
            r is Err ==> final(self).traces == old(self).traces,
            final(self).phase == old(self).phase,
            final(self).clusters == old(self).clusters,
            final(self).decisions == old(self).decisions,
            final(self).fingerprints == old(self).fingerprints,
            final(self).total_backdoors == old(self).total_backdoors,
            final(self).last_seconds == old(self).last_seconds,
    {
        if (t.edges.len() as u64) > 0x100_0000_0000_0000u64 || (t.syscalls.len() as u64)
            > 0x100_0000_0000_0000u64 {
            return Err(
                RosaError::new(
                    "rosa::pipeline",
                    0,
                    "pipeline.rs",
                    "trace vectors are too long for distance computations.",
                ),
            );
        }
        if self.traces.len() > 0 {
            let first = &self.traces[0];
            proof {
                assert(self.traces.deep_view()[0] == self.traces@[0]@);
            }
            if t.edges.len() != first.edges.len() || t.syscalls.len() != first.syscalls.len() {
                return Err(
                    RosaError::new(
                        "rosa::pipeline",
                        0,
                        "pipeline.rs",
                        "trace vector lengths differ from the campaign's.",
                    ),
                );
            }
        }
        let ghost pre = self.traces.deep_view();
        self.traces.push(t);
        proof {
            assert(self.traces.deep_view() =~= pre.push(self.traces@[pre.len() as int]@));
        }
        Ok(())
    }

    /// The synthetic decision recorded for a trace collected during the
    /// seed phase: never a backdoor, reason `seed`, no cluster, and empty
    /// discriminant lists.
    pub fn decide_seed(&mut self, i: usize, seconds: u64) -> (r: TimedDecision)
        requires
            old(self).wf(),
            old(self).phase == RosaPhase::CollectingInputs,
            i < old(self).traces.deep_view().len(),
            !old(self).spec_has_decision(old(self).traces.deep_view()[i as int].uid),
            seconds >= old(self).last_seconds,
        ensures
            final(self).wf(),
            r@.decision.trace_uid == old(self).traces.deep_view()[i as int].uid,
            r@.decision.trace_name == old(self).traces.deep_view()[i as int].name,
            r@.decision.cluster_uid == "<none>"@,
            r@.decision.is_backdoor == false,
            r@.decision.reason == DecisionReason::Seed,
            r@.decision.discriminants.trace_edges.len() == 0,
            r@.decision.discriminants.cluster_edges.len() == 0,
            r@.decision.discriminants.trace_syscalls.len() == 0,
            r@.decision.discriminants.cluster_syscalls.len() == 0,
            r@.seconds == seconds,
            final(self).decisions.deep_view() == old(self).decisions.deep_view().push(r@),
            final(self).last_seconds == seconds,
            final(self).phase == old(self).phase,
            final(self).traces == old(self).traces,
            final(self).clusters == old(self).clusters,
            final(self).fingerprints == old(self).fingerprints,
            final(self).total_backdoors == old(self).total_backdoors,
    {
        let t = &self.traces[i];
        proof {
            assert(self.traces.deep_view()[i as int] == self.traces@[i as int]@);
        }
        let timed = TimedDecision {
            decision: Decision {
                trace_uid: t.uid.clone(),
                trace_name: t.name.clone(),
                cluster_uid: "<none>".to_owned(),
                is_backdoor: false,
                reason: DecisionReason::Seed,
                discriminants: Discriminants {
                    trace_edges: Vec::new(),
                    cluster_edges: Vec::new(),
                    trace_syscalls: Vec::new(),
                    cluster_syscalls: Vec::new(),
                },
            },
            seconds,
        };
        let ghost pre = self.decisions.deep_view();
        let logged = timed.clone();
        self.decisions.push(logged);
        self.last_seconds = seconds;
        proof {
            assert(self.decisions.deep_view() =~= pre.push(timed@));
        }
        timed
    }

    /// Forms the behavior clusters, exactly once, at the boundary between
    /// input collection and backdoor detection, and enters the detection
    /// phase.
    pub fn form_clusters(
        &mut self,
        criterion: Criterion,
        distance_metric: DistanceMetric,
        edge_tolerance: u64,
        syscall_tolerance: u64,
    )
        requires
            old(self).wf(),
            old(self).phase == RosaPhase::CollectingInputs,
            criterion == Criterion::EdgesOrSyscalls ==> (old(self).traces.deep_view().len() > 0
                ==> old(self).traces.deep_view()[0].edges.len() > 0 && old(
                self,
            ).traces.deep_view()[0].syscalls.len() > 0),
        ensures
            final(self).wf(),
            final(self).phase == RosaPhase::DetectingBackdoors,
            final(self).clusters.deep_view() == spec_cluster_traces(
                old(self).traces.deep_view(),
                criterion,
                distance_metric,
                edge_tolerance,
                syscall_tolerance,
            ),
            final(self).traces == old(self).traces,
            final(self).decisions == old(self).decisions,
            final(self).fingerprints == old(self).fingerprints,
            final(self).total_backdoors == old(self).total_backdoors,
            final(self).last_seconds == old(self).last_seconds,
    {
        self.phase = RosaPhase::ClusteringInputs;
        proof {
            let ts = self.traces.deep_view();
            assert forall|k: int| 0 <= k < ts.len() implies spec_trace_ok(
                criterion,
                #[trigger] ts[k],
            ) by {
                assert(ts[k].edges.len() == ts[0].edges.len());
                assert(ts[k].syscalls.len() == ts[0].syscalls.len());
            }
        }
        let clusters = cluster_traces(
            &self.traces,
            criterion,
            distance_metric,
            edge_tolerance,
            syscall_tolerance,
        );
        self.clusters = clusters;
        self.phase = RosaPhase::DetectingBackdoors;
    }

    /// Classifies one trace through the oracle against its most similar
    /// cluster, logs the timed decision, and accounts for backdoors: the
    /// total count grows with every backdoor classification, while the unique
    /// count grows only when the detection's fingerprint was never seen
    /// before. Returns the timed decision, the fingerprint when the classification
    /// is a backdoor, and whether that fingerprint is new (so that one
    /// backdoor directory is created per fingerprint).
    pub fn decide_trace(
        &mut self,
        i: usize,
        oracle: Oracle,
        selection_criterion: Criterion,
        selection_metric: DistanceMetric,
        oracle_criterion: Criterion,
        oracle_metric: DistanceMetric,
        seconds: u64,
    ) -> (r: (TimedDecision, Option<String>, bool))
        requires
            old(self).wf(),
            old(self).phase == RosaPhase::DetectingBackdoors,
            old(self).clusters.deep_view().len() > 0,
            i < old(self).traces.deep_view().len(),
            !old(self).spec_has_decision(old(self).traces.deep_view()[i as int].uid),
            seconds >= old(self).last_seconds,
            old(self).decisions.deep_view().len() < usize::MAX,
            selection_criterion == Criterion::EdgesOrSyscalls ==> old(
                self,
            ).traces.deep_view()[i as int].edges.len() > 0 && old(
                self,
            ).traces.deep_view()[i as int].syscalls.len() > 0,
        ensures
            final(self).wf(),
            spec_oracle_decision(
                r.0@.decision,
                oracle_criterion,
                oracle_metric,
                old(self).traces.deep_view()[i as int],
                old(self).clusters.deep_view()[spec_best_cluster(
                    selection_criterion,
                    selection_metric,
                    old(self).traces.deep_view()[i as int],
                    old(self).clusters.deep_view(),
                )],
            ),
            r.0@.seconds == seconds,
            final(self).decisions.deep_view() == old(self).decisions.deep_view().push(r.0@),
            final(self).last_seconds == seconds,
            r.0@.decision.is_backdoor ==> final(self).total_backdoors == old(self).total_backdoors + 1,
            !r.0@.decision.is_backdoor ==> final(self).total_backdoors == old(self).total_backdoors
                && final(self).fingerprints == old(self).fingerprints,
            r.1 is Some <==> r.0@.decision.is_backdoor,
            r.1 matches Some(fp) ==> fp@ == spec_fingerprint(
                r.0@.decision.discriminants,
                oracle_criterion,
                r.0@.decision.cluster_uid,
            ),
            r.2 == (r.0@.decision.is_backdoor && !old(self).spec_has_fingerprint(
                spec_fingerprint(
                    r.0@.decision.discriminants,
                    oracle_criterion,
                    r.0@.decision.cluster_uid,
                ),
            )),
            r.2 ==> final(self).fingerprints.deep_view() == old(self).fingerprints.deep_view().push(
                spec_fingerprint(
                    r.0@.decision.discriminants,
                    oracle_criterion,
                    r.0@.decision.cluster_uid,
                ),
            ),
            r.0@.decision.is_backdoor && !r.2 ==> final(self).fingerprints == old(self).fingerprints,
            final(self).traces == old(self).traces,
            final(self).clusters == old(self).clusters,
            final(self).phase == old(self).phase,
    {
        let decision = {
            let t = &self.traces[i];
            proof {
                assert(self.traces.deep_view()[i as int] == self.traces@[i as int]@);
                let ts = self.traces.deep_view();
                let cl = self.clusters.deep_view();
                assert(spec_trace_ok(selection_criterion, t@));
                assert forall|k: int| 0 <= k < cl.len() implies spec_cluster_ok(
                    t@,
                    #[trigger] cl[k],
                ) by {
                    assert(spec_clusters_wf(cl, ts[0].edges.len() as int, ts[0].syscalls.len() as int));
                    assert(ts[i as int].edges.len() == ts[0].edges.len());
                }
            }
            let most_similar = get_most_similar_cluster(
                t,
                &self.clusters,
                selection_criterion,
                selection_metric,
            );
            let cluster = match most_similar {
                Some(c) => c,
                None => unreached(),
            };
            proof {
                crate::clustering::lemma_best_cluster_in_range(
                    selection_criterion,
                    selection_metric,
                    t@,
                    self.clusters.deep_view(),
                    self.clusters.deep_view().len() as int,
                );
            }
            oracle.decide(t, cluster, oracle_criterion, oracle_metric)
        };
        let fingerprint = decision.discriminants.uid(
            oracle_criterion,
            decision.cluster_uid.as_str(),
        );
        let is_backdoor = decision.is_backdoor;
        let mut fp_opt: Option<String> = None;
        let mut is_new: bool = false;
        if is_backdoor {
            self.total_backdoors = self.total_backdoors + 1;
            is_new = !self.contains_fingerprint(fingerprint.as_str());
            if is_new {
                let ghost pre_fps = self.fingerprints.deep_view();
                self.fingerprints.push(fingerprint.clone());
                proof {
                    assert(self.fingerprints.deep_view() =~= pre_fps.push(fingerprint@));
                }
            }
            fp_opt = Some(fingerprint);
        }
        let timed = TimedDecision { decision, seconds };
        let ghost pre = self.decisions.deep_view();
        let logged = timed.clone();
        self.decisions.push(logged);
        self.last_seconds = seconds;
        proof {
            assert(self.decisions.deep_view() =~= pre.push(timed@));
        }
        (timed, fp_opt, is_new)
    }
}

// ---------------------------------------------------------------------------
// Properties of the campaign state
// ---------------------------------------------------------------------------
/// Every observed trace is recorded exactly once: trace uids never repeat,
/// so each uid names exactly one test-input file and one trace-dump file.
pub proof fn lemma_traces_recorded_once(c: Campaign)
    requires
        c.wf(),
    ensures
        forall|i: int, j: int|
            0 <= i < j < c.traces.deep_view().len() ==> (#[trigger] c.traces.deep_view()[i]).uid
                != (#[trigger] c.traces.deep_view()[j]).uid,
{
}

/// Every trace receives at most one decision, and decision times never
/// decrease in the order decisions are produced.
pub proof fn lemma_decision_log(c: Campaign)
    requires
        c.wf(),
    ensures
        forall|i: int, j: int|
            0 <= i < j < c.decisions.deep_view().len() ==> (
            #[trigger] c.decisions.deep_view()[i]).decision.trace_uid != (
            #[trigger] c.decisions.deep_view()[j]).decision.trace_uid,
        forall|i: int, j: int|
            0 <= i < j < c.decisions.deep_view().len() ==> (
            #[trigger] c.decisions.deep_view()[i]).seconds <= (
            #[trigger] c.decisions.deep_view()[j]).seconds,
{
}

/// The unique-backdoor count equals the number of distinct fingerprints —
/// one backdoor directory each — and never exceeds the total count.
pub proof fn lemma_backdoor_counts(c: Campaign)
    requires
        c.wf(),
    ensures
        c.fingerprints.deep_view().len() <= c.total_backdoors,
        forall|i: int, j: int|
            0 <= i < j < c.fingerprints.deep_view().len() ==> #[trigger] c.fingerprints.deep_view()[i]
                != #[trigger] c.fingerprints.deep_view()[j],
{
}

} // verus!
