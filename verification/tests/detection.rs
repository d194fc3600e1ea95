//! End-to-end detection scenarios: clustering, backdoor classifications, reason
//! assignment, and fingerprints.

use rosa::clustering::{cluster_traces, get_most_similar_cluster, Cluster};
use rosa::criterion::Criterion;
use rosa::decision::{DecisionReason, Discriminants};
use rosa::distance_metric::DistanceMetric;
use rosa::oracle::Oracle;
use rosa::trace::Trace;

fn trace(uid: &str, edges: Vec<u8>, syscalls: Vec<u8>) -> Trace {
    Trace {
        uid: uid.to_string(),
        name: uid.to_string(),
        test_input: vec![0x41],
        edges,
        syscalls,
    }
}

fn seed_traces() -> Vec<Trace> {
    vec![
        trace("main_t1", vec![1, 0, 1, 0], vec![0, 1, 0, 1]),
        trace("main_t2", vec![1, 0, 1, 0], vec![0, 1, 0, 1]),
        trace("main_t3", vec![1, 0, 1, 0], vec![0, 1, 0, 1]),
    ]
}

/// Three identical seed traces form a single cluster whose envelopes
/// collapse to the tolerances, and an identical later trace is benign with
/// empty discriminants.
#[test]
fn scenario_single_cluster_no_backdoor() {
    let clusters = cluster_traces(
        &seed_traces(),
        Criterion::EdgesOnly,
        DistanceMetric::Hamming,
        0,
        0,
    );
    assert_eq!(clusters.len(), 1);
    assert_eq!(clusters[0].uid, "cluster_000000");
    assert_eq!(clusters[0].traces.len(), 3);
    assert_eq!(clusters[0].min_edge_distance, 0);
    assert_eq!(clusters[0].max_edge_distance, 0);
    assert_eq!(clusters[0].min_syscall_distance, 0);
    assert_eq!(clusters[0].max_syscall_distance, 0);

    let probe = trace("main_t4", vec![1, 0, 1, 0], vec![0, 1, 0, 1]);
    let decision = Oracle::CompMinMax.decide(
        &probe,
        &clusters[0],
        Criterion::EdgesOnly,
        DistanceMetric::Hamming,
    );
    assert!(!decision.is_backdoor);
    assert_eq!(decision.reason, DecisionReason::Edges);
    assert_eq!(decision.trace_uid, "main_t4");
    assert_eq!(decision.cluster_uid, "cluster_000000");
    assert!(decision.discriminants.trace_edges.is_empty());
    assert!(decision.discriminants.cluster_edges.is_empty());
    assert!(decision.discriminants.trace_syscalls.is_empty());
    assert!(decision.discriminants.cluster_syscalls.is_empty());

    // The fingerprint is the hash of empty edge-index lists, scoped to the
    // cluster's uid.
    let fingerprint = decision
        .discriminants
        .uid(Criterion::EdgesOnly, &decision.cluster_uid);
    let empty = Discriminants {
        trace_edges: Vec::new(),
        cluster_edges: Vec::new(),
        trace_syscalls: Vec::new(),
        cluster_syscalls: Vec::new(),
    };
    assert_eq!(fingerprint, empty.uid(Criterion::EdgesOnly, "cluster_000000"));
    // The hashed bytes are the two list lengths, zero each: sixteen zero
    // bytes through 64-bit FNV-1a.
    assert_eq!(fingerprint, "88201fb960ff6465_cluster_000000");
}

/// A trace two edges away from every member exceeds the cluster's maximum
/// internal edge distance and is flagged, with the diverging indices
/// recorded.
#[test]
fn scenario_backdoor_via_edges() {
    let clusters = cluster_traces(
        &seed_traces(),
        Criterion::EdgesOnly,
        DistanceMetric::Hamming,
        0,
        0,
    );
    let probe = trace("main_t5", vec![1, 1, 1, 1], vec![0, 1, 0, 1]);
    let decision = Oracle::CompMinMax.decide(
        &probe,
        &clusters[0],
        Criterion::EdgesOnly,
        DistanceMetric::Hamming,
    );
    assert!(decision.is_backdoor);
    assert_eq!(decision.reason, DecisionReason::Edges);
    assert_eq!(decision.discriminants.trace_edges, vec![1usize, 3usize]);
    assert!(decision.discriminants.cluster_edges.is_empty());
}

fn divergence_cluster() -> Cluster {
    // One member; all envelope distances are zero.
    let member = trace("main_m", vec![1, 0], vec![0, 0, 0]);
    Cluster {
        uid: "cluster_000000".to_string(),
        traces: vec![member],
        min_edge_distance: 0,
        max_edge_distance: 0,
        min_syscall_distance: 0,
        max_syscall_distance: 0,
    }
}

/// Under edges-or-syscalls, a divergence in syscalls alone flags the trace
/// with reason `syscalls`.
#[test]
fn scenario_or_reason_assignment() {
    let cluster = divergence_cluster();
    // Identical edges (distance 0), syscalls three counts away.
    let probe = trace("main_t6", vec![1, 0], vec![1, 1, 1]);
    let decision = Oracle::CompMinMax.decide(
        &probe,
        &cluster,
        Criterion::EdgesOrSyscalls,
        DistanceMetric::Hamming,
    );
    assert!(decision.is_backdoor);
    assert_eq!(decision.reason, DecisionReason::Syscalls);
}

/// Under edges-and-syscalls, a trace whose edge predicate fired alone is
/// benign, and the recorded reason names the predicate still needed.
#[test]
fn scenario_and_reason_assignment() {
    let cluster = divergence_cluster();
    // Edges one count away, syscalls identical.
    let probe = trace("main_t7", vec![0, 0], vec![0, 0, 0]);
    let decision = Oracle::CompMinMax.decide(
        &probe,
        &cluster,
        Criterion::EdgesAndSyscalls,
        DistanceMetric::Hamming,
    );
    assert!(!decision.is_backdoor);
    assert_eq!(decision.reason, DecisionReason::Syscalls);

    // And with neither predicate fired, both are still needed.
    let probe = trace("main_t8", vec![1, 0], vec![0, 0, 0]);
    let decision = Oracle::CompMinMax.decide(
        &probe,
        &cluster,
        Criterion::EdgesAndSyscalls,
        DistanceMetric::Hamming,
    );
    assert!(!decision.is_backdoor);
    assert_eq!(decision.reason, DecisionReason::Edges);
}

/// Clustering an empty trace list yields an empty cluster list.
#[test]
fn clustering_empty_input() {
    let clusters = cluster_traces(
        &Vec::new(),
        Criterion::EdgesOnly,
        DistanceMetric::Hamming,
        0,
        0,
    );
    assert!(clusters.is_empty());
}

/// With zero tolerance no cluster carries a positive minimum distance, so
/// an all-zero trace only joins clusters of all-zero traces; a positive
/// tolerance forces the minima up and lets it join.
#[test]
fn zero_vector_admission() {
    let traces = vec![
        trace("main_a", vec![2, 2], vec![1, 0]),
        trace("main_b", vec![0, 0], vec![1, 0]),
    ];
    let clusters = cluster_traces(
        &traces,
        Criterion::EdgesOnly,
        DistanceMetric::Hamming,
        0,
        0,
    );
    // Distance 4 exceeds the zero envelope: two clusters.
    assert_eq!(clusters.len(), 2);
    assert_eq!(clusters[0].min_edge_distance, 0);
    assert_eq!(clusters[1].min_edge_distance, 0);

    let clusters = cluster_traces(
        &traces,
        Criterion::EdgesOnly,
        DistanceMetric::Hamming,
        4,
        0,
    );
    // A tolerance of four keeps the all-zero trace inside.
    assert_eq!(clusters.len(), 1);
    assert_eq!(clusters[0].min_edge_distance, 4);
    assert_eq!(clusters[0].max_edge_distance, 4);
}

/// Cluster selection breaks ties by insertion order.
#[test]
fn selection_tie_break() {
    let traces = vec![
        trace("main_a", vec![1, 0], vec![0, 0]),
        trace("main_b", vec![0, 1], vec![0, 0]),
    ];
    let clusters = cluster_traces(
        &traces,
        Criterion::EdgesOnly,
        DistanceMetric::Hamming,
        0,
        0,
    );
    assert_eq!(clusters.len(), 2);
    // Equidistant from both clusters: the first one wins.
    let probe = trace("main_c", vec![1, 1], vec![0, 0]);
    let best = get_most_similar_cluster(
        &probe,
        &clusters,
        Criterion::EdgesAndSyscalls,
        DistanceMetric::Hamming,
    )
    .unwrap();
    assert_eq!(best.uid, "cluster_000000");
}

/// Selecting from an empty cluster list finds nothing.
#[test]
fn selection_empty() {
    let probe = trace("main_c", vec![1, 1], vec![0, 0]);
    let clusters: Vec<Cluster> = Vec::new();
    assert!(get_most_similar_cluster(
        &probe,
        &clusters,
        Criterion::EdgesOnly,
        DistanceMetric::Hamming,
    )
    .is_none());
}

/// Clustering is deterministic: the same inputs give the same clusters.
#[test]
fn clustering_deterministic() {
    let run = || {
        cluster_traces(
            &vec![
                trace("main_a", vec![1, 0, 3], vec![0, 2, 0]),
                trace("main_b", vec![1, 0, 3], vec![0, 2, 0]),
                trace("main_c", vec![9, 9, 9], vec![7, 7, 7]),
            ],
            Criterion::EdgesAndSyscalls,
            DistanceMetric::Hamming,
            1,
            1,
        )
    };
    let a = run();
    let b = run();
    assert_eq!(a.len(), b.len());
    for (x, y) in a.iter().zip(b.iter()) {
        assert_eq!(x.uid, y.uid);
        assert_eq!(x.min_edge_distance, y.min_edge_distance);
        assert_eq!(x.max_edge_distance, y.max_edge_distance);
        assert_eq!(x.min_syscall_distance, y.min_syscall_distance);
        assert_eq!(x.max_syscall_distance, y.max_syscall_distance);
        let xu: Vec<&String> = x.traces.iter().map(|t| &t.uid).collect();
        let yu: Vec<&String> = y.traces.iter().map(|t| &t.uid).collect();
        assert_eq!(xu, yu);
    }
}

/// Fingerprints depend only on the lists in the criterion's scope and on
/// the cluster uid.
#[test]
fn fingerprint_scope() {
    let d1 = Discriminants {
        trace_edges: vec![1, 3],
        cluster_edges: vec![],
        trace_syscalls: vec![7],
        cluster_syscalls: vec![2],
    };
    let d2 = Discriminants {
        trace_edges: vec![1, 3],
        cluster_edges: vec![],
        trace_syscalls: vec![9, 9],
        cluster_syscalls: vec![],
    };
    // Same edge lists, same cluster: identical under the edges-only scope.
    assert_eq!(
        d1.uid(Criterion::EdgesOnly, "cluster_000001"),
        d2.uid(Criterion::EdgesOnly, "cluster_000001")
    );
    // The syscall lists differ, so the full scope tells them apart.
    assert_ne!(
        d1.uid(Criterion::EdgesAndSyscalls, "cluster_000001"),
        d2.uid(Criterion::EdgesAndSyscalls, "cluster_000001")
    );
    // A different cluster uid changes the fingerprint's suffix.
    assert_ne!(
        d1.uid(Criterion::EdgesOnly, "cluster_000001"),
        d1.uid(Criterion::EdgesOnly, "cluster_000002")
    );
}

/// The tag vocabulary round-trips and rejects unknown tags.
#[test]
fn tag_parsing() {
    assert_eq!(Criterion::from_name("edges-only").unwrap(), Criterion::EdgesOnly);
    assert_eq!(
        Criterion::from_name("edges-and-syscalls").unwrap(),
        Criterion::EdgesAndSyscalls
    );
    assert_eq!(Criterion::EdgesOrSyscalls.name(), "edges-or-syscalls");
    assert!(Criterion::from_name("both").is_err());

    assert_eq!(DistanceMetric::from_name("hamming").unwrap(), DistanceMetric::Hamming);
    assert_eq!(DistanceMetric::Hamming.name(), "hamming");
    assert!(DistanceMetric::from_name("euclid").is_err());

    assert_eq!(Oracle::from_name("comp-min-max").unwrap(), Oracle::CompMinMax);
    assert_eq!(Oracle::CompMinMax.name(), "comp-min-max");
    assert!(Oracle::from_name("oracle-of-delphi").is_err());

    assert_eq!(DecisionReason::from_name("seed").unwrap(), DecisionReason::Seed);
    assert_eq!(DecisionReason::EdgesAndSyscalls.name(), "edges-and-syscalls");
    assert!(DecisionReason::from_name("gut-feeling").is_err());
}

/// The Hamming distance adds up byte-wise XOR values.
#[test]
fn hamming_distance() {
    let m = DistanceMetric::Hamming;
    assert_eq!(m.dist(&vec![], &vec![]), 0);
    assert_eq!(m.dist(&vec![1, 0, 1, 0], &vec![1, 0, 1, 0]), 0);
    assert_eq!(m.dist(&vec![1, 0, 1, 0], &vec![1, 1, 1, 1]), 2);
    assert_eq!(m.dist(&vec![0xff, 0x00], &vec![0x00, 0xff]), 510);
}
