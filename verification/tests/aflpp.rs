//! Tests for the AFL++ backend: command construction, the liveness rule,
//! and PID extraction.

use rosa::fuzzer::aflpp::{parse_fuzzer_pid, status_from_markers, AFLPlusPlus};
use rosa::fuzzer::FuzzerStatus;

fn strings(words: &[&str]) -> Vec<String> {
    words.iter().map(|w| w.to_string()).collect()
}

/// Verify that the command to invoke AFL++ is correctly computed from its
/// configuration.
#[test]
fn verify_aflpp_cmd() {
    let name = "main".to_string();
    let afl_fuzz = "afl-fuzz".to_string();
    let input_dir = "corpus".to_string();
    let output_dir = "findings".to_string();
    let target: Vec<String> = vec!["sudo", "--stdin", "--reset-timestamp", "--", "id"]
        .iter()
        .map(|arg| arg.to_string())
        .collect();
    let extra_args: Vec<String> = vec!["-Q", "-c", "0"].iter().map(|arg| arg.to_string()).collect();
    let config = AFLPlusPlus {
        name: name.clone(),
        is_main: true,
        afl_fuzz: afl_fuzz.clone(),
        input_dir: input_dir.clone(),
        output_dir: output_dir.clone(),
        target: target.clone(),
        extra_args: extra_args.clone(),
    };
    assert_eq!(
        config.cmd(),
        [
            vec![
                afl_fuzz.clone(),
                "-i".to_string(),
                input_dir.clone(),
                "-o".to_string(),
                output_dir.clone(),
                "-M".to_string(),
                name
            ],
            extra_args,
            vec!["--".to_string()],
            target
        ]
        .concat()
    );

    let name = "secondary".to_string();
    let afl_fuzz = "./afl-fuzz".to_string();
    let input_dir = "in".to_string();
    let output_dir = "out".to_string();
    let target: Vec<String> = vec!["./target"].iter().map(|arg| arg.to_string()).collect();
    let config = AFLPlusPlus {
        name: name.clone(),
        is_main: false,
        afl_fuzz: afl_fuzz.clone(),
        input_dir: input_dir.clone(),
        output_dir: output_dir.clone(),
        target: target.clone(),
        extra_args: Vec::new(),
    };
    assert_eq!(
        config.cmd(),
        [
            vec![
                afl_fuzz.clone(),
                "-i".to_string(),
                input_dir.clone(),
                "-o".to_string(),
                output_dir.clone(),
                "-S".to_string(),
                name,
                "--".to_string()
            ],
            target
        ]
        .concat()
    );
}

#[test]
fn aflpp_directories() {
    let config = AFLPlusPlus {
        name: "main".to_string(),
        is_main: true,
        afl_fuzz: "afl-fuzz".to_string(),
        input_dir: "seeds".to_string(),
        output_dir: "findings".to_string(),
        target: strings(&["./target"]),
        extra_args: Vec::new(),
    };
    assert_eq!(config.test_input_dir(), "findings/main/queue");
    assert_eq!(config.runtime_trace_dir(), "findings/main/trace_dumps");
    assert_eq!(config.crashes_dir(), "findings/main/crashes");
}

#[test]
fn status_rule() {
    // Setup newer than stats: still starting.
    assert_eq!(status_from_markers(Some(10), Some(5), true), FuzzerStatus::Starting);
    // Both settled and the PID is alive: running.
    assert_eq!(status_from_markers(Some(5), Some(10), true), FuzzerStatus::Running);
    // Both settled but the PID is gone: stopped.
    assert_eq!(status_from_markers(Some(5), Some(10), false), FuzzerStatus::Stopped);
    // Setup without stats: starting.
    assert_eq!(status_from_markers(Some(5), None, false), FuzzerStatus::Starting);
    // Nothing on disk: stopped.
    assert_eq!(status_from_markers(None, None, true), FuzzerStatus::Stopped);
    assert_eq!(status_from_markers(None, Some(3), true), FuzzerStatus::Stopped);
}

#[test]
fn pid_extraction() {
    let stats = "start_time        : 1\nfuzzer_pid        : 12345\ncycles_done       : 0\n";
    assert_eq!(parse_fuzzer_pid(stats).unwrap(), "12345");

    // The PID may sit on the last line, without a final line break.
    let stats = "start_time        : 1\nfuzzer_pid        : 99";
    assert_eq!(parse_fuzzer_pid(stats).unwrap(), "99");

    // No fuzzer_pid entry at all.
    assert!(parse_fuzzer_pid("start_time : 1\n").is_err());

    // A fuzzer_pid entry without a colon.
    assert!(parse_fuzzer_pid("fuzzer_pid").is_err());
}
