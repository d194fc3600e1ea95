//! Tests for the campaign state machine, the trace store, the trace-dump
//! codec, and the text renderings.

use rosa::config::RosaPhase;
use rosa::criterion::Criterion;
use rosa::decision::{Decision, DecisionReason, Discriminants, TimedDecision};
use rosa::distance_metric::DistanceMetric;
use rosa::fuzzer::FuzzerConfig;
use rosa::oracle::Oracle;
use rosa::pipeline::Campaign;
use rosa::trace::{
    coverage_counts, encode_trace_dump, make_trace_uid, parse_trace_dump, plan_trace_loading,
    Trace,
};
use rosa::tui::RosaTuiStats;

fn trace(uid: &str, edges: Vec<u8>, syscalls: Vec<u8>) -> Trace {
    Trace {
        uid: uid.to_string(),
        name: uid.to_string(),
        test_input: vec![0x42],
        edges,
        syscalls,
    }
}

fn collected_campaign() -> Campaign {
    let mut campaign = Campaign::new();
    campaign.start_collecting();
    for uid in ["main_s1", "main_s2", "main_s3"] {
        assert!(!campaign.contains_trace(uid));
        campaign
            .observe_trace(trace(uid, vec![1, 0, 1, 0], vec![0, 1, 0, 1]))
            .unwrap();
    }
    campaign
}

/// Seed-phase decisions are never backdoors: reason `seed`, no cluster,
/// empty discriminants.
#[test]
fn seed_decisions() {
    let mut campaign = collected_campaign();
    for i in 0..3 {
        let timed = campaign.decide_seed(i, 5);
        assert!(!timed.decision.is_backdoor);
        assert_eq!(timed.decision.reason, DecisionReason::Seed);
        assert_eq!(timed.decision.cluster_uid, "<none>");
        assert!(timed.decision.discriminants.trace_edges.is_empty());
        assert!(timed.decision.discriminants.cluster_edges.is_empty());
        assert!(timed.decision.discriminants.trace_syscalls.is_empty());
        assert!(timed.decision.discriminants.cluster_syscalls.is_empty());
        assert_eq!(timed.seconds, 5);
    }
    assert_eq!(campaign.decisions.len(), 3);
}

/// Once the seed condition fires, the phase passes through clustering to
/// detection, with every seed trace decided before the boundary.
#[test]
fn phase_transition_on_seconds() {
    let seconds_condition = 1u64;
    let mut campaign = collected_campaign();
    assert_eq!(campaign.phase, RosaPhase::CollectingInputs);
    let elapsed = 1u64;
    for i in 0..3 {
        if !campaign.has_decision(&campaign.traces[i].uid.clone()) {
            campaign.decide_seed(i, elapsed);
        }
    }
    assert!(elapsed >= seconds_condition);
    campaign.form_clusters(Criterion::EdgesOnly, DistanceMetric::Hamming, 0, 0);
    assert_eq!(campaign.phase, RosaPhase::DetectingBackdoors);
    assert_eq!(campaign.clusters.len(), 1);
    for timed in &campaign.decisions {
        assert_eq!(timed.decision.reason, DecisionReason::Seed);
    }
}

/// A repeated backdoor yields a second decision but no second unique
/// backdoor: the total count grows, the unique count does not.
#[test]
fn backdoor_deduplication() {
    let mut campaign = collected_campaign();
    for i in 0..3 {
        campaign.decide_seed(i, 1);
    }
    campaign.form_clusters(Criterion::EdgesOnly, DistanceMetric::Hamming, 0, 0);

    campaign
        .observe_trace(trace("main_b1", vec![1, 1, 1, 1], vec![0, 1, 0, 1]))
        .unwrap();
    let (timed, fingerprint, is_new) = campaign.decide_trace(
        3,
        Oracle::CompMinMax,
        Criterion::EdgesAndSyscalls,
        DistanceMetric::Hamming,
        Criterion::EdgesOnly,
        DistanceMetric::Hamming,
        2,
    );
    assert!(timed.decision.is_backdoor);
    assert!(is_new);
    let first_fingerprint = fingerprint.unwrap();
    assert_eq!(campaign.total_backdoors, 1);
    assert_eq!(campaign.unique_backdoors(), 1);

    // The same behavior again, under a fresh uid.
    campaign
        .observe_trace(trace("main_b2", vec![1, 1, 1, 1], vec![0, 1, 0, 1]))
        .unwrap();
    let (timed, fingerprint, is_new) = campaign.decide_trace(
        4,
        Oracle::CompMinMax,
        Criterion::EdgesAndSyscalls,
        DistanceMetric::Hamming,
        Criterion::EdgesOnly,
        DistanceMetric::Hamming,
        3,
    );
    assert!(timed.decision.is_backdoor);
    assert!(!is_new);
    assert_eq!(fingerprint.unwrap(), first_fingerprint);
    assert_eq!(campaign.total_backdoors, 2);
    assert_eq!(campaign.unique_backdoors(), 1);
    assert_eq!(campaign.decisions.len(), 5);

    // Decision times never decrease along the log.
    for pair in campaign.decisions.windows(2) {
        assert!(pair[0].seconds <= pair[1].seconds);
    }

    campaign.stop();
    assert_eq!(campaign.phase, RosaPhase::Stopped);
}

/// A trace whose vector lengths disagree with the campaign's is rejected.
#[test]
fn observe_length_mismatch() {
    let mut campaign = collected_campaign();
    let result = campaign.observe_trace(trace("main_bad", vec![1], vec![0, 1, 0, 1]));
    assert!(result.is_err());
    assert_eq!(campaign.traces.len(), 3);
}

/// The trace-dump codec round-trips.
#[test]
fn trace_dump_round_trip() {
    let edges = vec![1u8, 0, 255, 3];
    let syscalls = vec![9u8, 8];
    let encoded = encode_trace_dump(&edges, &syscalls);
    assert_eq!(encoded.len(), 16 + 4 + 2);
    assert_eq!(&encoded[0..8], &[4, 0, 0, 0, 0, 0, 0, 0]);
    assert_eq!(&encoded[8..16], &[2, 0, 0, 0, 0, 0, 0, 0]);
    let (decoded_edges, decoded_syscalls) = parse_trace_dump(&encoded).unwrap();
    assert_eq!(decoded_edges, edges);
    assert_eq!(decoded_syscalls, syscalls);

    // Empty vectors round-trip too.
    let encoded = encode_trace_dump(&vec![], &vec![]);
    let (decoded_edges, decoded_syscalls) = parse_trace_dump(&encoded).unwrap();
    assert!(decoded_edges.is_empty());
    assert!(decoded_syscalls.is_empty());
}

/// Malformed dumps are rejected: short headers and truncated payloads.
#[test]
fn trace_dump_malformed() {
    assert!(parse_trace_dump(&vec![1, 2, 3]).is_err());
    let mut encoded = encode_trace_dump(&vec![1, 2, 3, 4], &vec![5, 6]);
    encoded.pop();
    assert!(parse_trace_dump(&encoded).is_err());
}

/// Coverage counts the indices that are non-zero anywhere, per component.
#[test]
fn coverage_accounting() {
    let traces = vec![
        trace("main_a", vec![1, 0, 0, 0], vec![0, 0, 1]),
        trace("main_b", vec![0, 2, 0, 0], vec![0, 0, 3]),
    ];
    let (edge_cov, edge_len, syscall_cov, syscall_len) = coverage_counts(&traces);
    assert_eq!((edge_cov, edge_len), (2, 4));
    assert_eq!((syscall_cov, syscall_len), (1, 3));
    assert_eq!(coverage_counts(&Vec::new()), (0, 0, 0, 0));
}

/// Loading plans keep only new traces with their dumps present, sorted by
/// name; a missing dump defers or fails depending on the mode.
#[test]
fn trace_loading_plan() {
    let known = vec![trace("main_id:000001", vec![1], vec![1])];
    let entries = vec![
        ("id:000003".to_string(), true),
        ("id:000001".to_string(), true),
        ("id:000002".to_string(), true),
    ];
    let plan = plan_trace_loading(&entries, "main", &known, false).unwrap();
    assert_eq!(plan, vec!["id:000002".to_string(), "id:000003".to_string()]);

    // A new trace without its dump is skipped in lenient mode.
    let entries = vec![
        ("id:000004".to_string(), false),
        ("id:000005".to_string(), true),
    ];
    let plan = plan_trace_loading(&entries, "main", &known, true).unwrap();
    assert_eq!(plan, vec!["id:000005".to_string()]);

    // And fails the poll in strict mode.
    assert!(plan_trace_loading(&entries, "main", &known, false).is_err());
}

/// Trace uids prefix the producing instance's name.
#[test]
fn trace_uid_namespacing() {
    assert_eq!(make_trace_uid("main", "id:000007"), "main_id:000007");
}

/// The human-readable renderings of a trace.
#[test]
fn trace_renderings() {
    let t = trace("main_a", vec![1, 0, 1, 0], vec![0, 1, 0, 1]);
    assert_eq!(t.edges_as_string(), "2 edges (50.00%)");
    assert_eq!(t.syscalls_as_string(), "2 syscalls (50.00%)");
    let t = trace("main_b", vec![1, 1, 1], vec![2, 0, 0]);
    assert_eq!(t.edges_as_string(), "3 edges (100.00%)");
    assert_eq!(t.syscalls_as_string(), "2 syscalls (66.67%)");

    let t = Trace {
        uid: "main_c".to_string(),
        name: "main_c".to_string(),
        test_input: vec![0x41, 0x42, 0x00, 0x7f, 0x20],
        edges: vec![1],
        syscalls: vec![1],
    };
    assert_eq!(t.printable_test_input(), "AB\\x00\\x7f ");
}

/// The seed placeholder is substituted in every command word.
#[test]
fn seed_substitution() {
    let config = FuzzerConfig {
        name: "main".to_string(),
        env: vec![("AFL_DEBUG".to_string(), "1".to_string())],
        cmd: vec![
            "./fuzz".to_string(),
            "-s".to_string(),
            "{{ROSA_SEED}}".to_string(),
            "x{{ROSA_SEED}}y{{ROSA_SEED}}".to_string(),
        ],
        test_input_dir: "out/main/queue".to_string(),
        trace_dump_dir: "out/main/trace_dumps".to_string(),
        crashes_dir: "out/main/crashes".to_string(),
    };
    let cmd = config.seeded_cmd(7);
    assert_eq!(cmd, vec!["./fuzz", "-s", "7", "x7y7"]);
    assert_eq!(config.env_as_string(), "AFL_DEBUG=1");
    assert_eq!(config.cmd_as_string(), "./fuzz -s {{ROSA_SEED}} x{{ROSA_SEED}}y{{ROSA_SEED}}");
}

/// Environment placeholders are replaced by the given process values.
#[test]
fn env_placeholders() {
    let env = vec![
        ("LD_PRELOAD".to_string(), "$LD_PRELOAD:inst.so".to_string()),
        ("WORKDIR".to_string(), "$PWD/jobs".to_string()),
        ("CONFIG".to_string(), "$HOME/.rosa".to_string()),
    ];
    let replaced = rosa::config::replace_env_var_placeholders(&env, "base.so", "/work", "/root");
    assert_eq!(replaced[0].1, "base.so:inst.so");
    assert_eq!(replaced[1].1, "/work/jobs");
    assert_eq!(replaced[2].1, "/root/.rosa");
}

/// The phase vocabulary round-trips through its file form.
#[test]
fn phase_tags() {
    for phase in [
        RosaPhase::Starting,
        RosaPhase::CollectingInputs,
        RosaPhase::ClusteringInputs,
        RosaPhase::DetectingBackdoors,
        RosaPhase::Stopped,
    ] {
        assert_eq!(RosaPhase::from_name(phase.name()).unwrap(), phase);
    }
    assert_eq!(RosaPhase::DetectingBackdoors.name(), "detecting-backdoors");
    assert!(RosaPhase::from_name("paused").is_err());
}

/// The dashboard clocks render as zero-padded hours, minutes and seconds.
#[test]
fn dashboard_clocks() {
    let mut stats = RosaTuiStats::new("config.toml", "out");
    assert_eq!(stats.config_file_path, "config.toml");
    assert_eq!(stats.output_dir_path, "out/");
    assert_eq!(stats.run_time(), "(not started yet)");
    assert_eq!(stats.time_since_last_backdoor(), "(none seen yet)");
    assert_eq!(stats.time_since_last_new_trace(), "(none seen yet)");
    stats.run_seconds = Some(3 * 3600 + 25 * 60 + 9);
    assert_eq!(stats.run_time(), "03:25:09");
    stats.seconds_since_last_backdoor = Some(59);
    assert_eq!(stats.time_since_last_backdoor(), "00:00:59");
    stats.seconds_since_last_new_trace = Some(100 * 3600);
    assert_eq!(stats.time_since_last_new_trace(), "100:00:00");
}

/// The decision file renders as stable TOML, with strings quoted and
/// escaped and index lists as arrays.
#[test]
fn decision_file_rendering() {
    let timed = TimedDecision {
        decision: Decision {
            trace_uid: "main_id:000002".to_string(),
            trace_name: "id:000002".to_string(),
            cluster_uid: "cluster_000000".to_string(),
            is_backdoor: true,
            reason: DecisionReason::Edges,
            discriminants: Discriminants {
                trace_edges: vec![1, 3],
                cluster_edges: vec![],
                trace_syscalls: vec![7],
                cluster_syscalls: vec![],
            },
        },
        seconds: 42,
    };
    let expected = "seconds = 42\n\n[decision]\ntrace_uid = \"main_id:000002\"\ntrace_name = \"id:000002\"\ncluster_uid = \"cluster_000000\"\nis_backdoor = true\nreason = \"edges\"\n\n[decision.discriminants]\ntrace_edges = [1, 3]\ncluster_edges = []\ntrace_syscalls = [7]\ncluster_syscalls = []\n";
    assert_eq!(timed.to_toml_string(), expected);

    // A quote or backslash in a name is escaped.
    let tricky = TimedDecision {
        decision: Decision {
            trace_uid: "main_a\"b\\c".to_string(),
            trace_name: "a\"b\\c".to_string(),
            cluster_uid: "<none>".to_string(),
            is_backdoor: false,
            reason: DecisionReason::Seed,
            discriminants: Discriminants {
                trace_edges: vec![],
                cluster_edges: vec![],
                trace_syscalls: vec![],
                cluster_syscalls: vec![],
            },
        },
        seconds: 0,
    };
    let text = tricky.to_toml_string();
    assert!(text.contains("trace_uid = \"main_a\\\"b\\\\c\"\n"));
}
