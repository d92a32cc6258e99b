use rust_plc::realtime_gate::{
    cli_output_mode_str, no_board_gate_status, no_board_gate_verdict, no_board_realtime_failures,
    parse_cli_output_mode, parse_commissioning_run_args, parse_no_board_gate_args,
    parse_release_bundle_args, release_gate_summary, CliOutputMode, RealtimeThresholdConfig,
};

fn strings(v: &[&str]) -> Vec<String> {
    v.iter().map(|s| s.to_string()).collect()
}

const USAGE: &str = "usage: rust_plc no-board-gate <plc> --out-dir <dir>";

#[test]
fn output_mode_words() {
    assert_eq!(parse_cli_output_mode("human"), Some(CliOutputMode::Human));
    assert_eq!(parse_cli_output_mode("json"), Some(CliOutputMode::Json));
    assert_eq!(parse_cli_output_mode("xml"), None);
    assert_eq!(cli_output_mode_str(CliOutputMode::Json), "json");
}

#[test]
fn realtime_failures_name_each_exceeded_limit() {
    let t = RealtimeThresholdConfig { max_p99_exec_us: Some(1000), max_overrun_count: Some(2) };
    assert_eq!(
        no_board_realtime_failures(1200, 3, &t),
        strings(&[
            "p99 exec_us=1200 exceeds --max-p99-exec-us=1000",
            "overrun_count=3 exceeds --max-overrun-count=2",
        ])
    );
    assert!(no_board_realtime_failures(1000, 2, &t).is_empty());
    let none = RealtimeThresholdConfig { max_p99_exec_us: None, max_overrun_count: None };
    assert!(no_board_realtime_failures(u64::MAX, u64::MAX, &none).is_empty());
}

#[test]
fn no_board_verdict_lists_reasons() {
    let failures = strings(&["a", "b"]);
    assert_eq!(
        no_board_gate_verdict(false, "out/diff_report.json", &failures),
        Err("no-board-gate failed: trace mismatch (see out/diff_report.json), realtime threshold exceeded (a; b)"
            .to_string())
    );
    assert_eq!(
        no_board_gate_verdict(true, "x", &failures),
        Err("no-board-gate failed: realtime threshold exceeded (a; b)".to_string())
    );
    assert_eq!(
        no_board_gate_verdict(false, "d.json", &[]),
        Err("no-board-gate failed: trace mismatch (see d.json)".to_string())
    );
    assert_eq!(no_board_gate_verdict(true, "x", &[]), Ok(()));
    assert_eq!(no_board_gate_status(true, &[]), "pass");
    assert_eq!(no_board_gate_status(true, &failures), "fail");
    assert_eq!(no_board_gate_status(false, &[]), "fail");
}

#[test]
fn release_gate_summary_passes_only_clean_runs() {
    let t = RealtimeThresholdConfig { max_p99_exec_us: Some(800), max_overrun_count: None };
    let s = release_gate_summary(false, "tick=Some(3), type=Some(StepMismatch), index=Some(1)", 900, 7, t);
    assert_eq!(s.schema_version, 1);
    assert!(!s.trace_match);
    assert!(!s.realtime_pass);
    assert!(!s.passed);
    assert_eq!(
        s.reasons,
        strings(&[
            "trace mismatch (tick=Some(3), type=Some(StepMismatch), index=Some(1))",
            "p99 exec_us=900 exceeds threshold 800",
        ])
    );
    let ok = release_gate_summary(true, "", 800, 7, t);
    assert!(ok.passed && ok.realtime_pass);
    assert!(ok.reasons.is_empty());
    let t2 = RealtimeThresholdConfig { max_p99_exec_us: None, max_overrun_count: Some(0) };
    let over = release_gate_summary(true, "", 1, 1, t2);
    assert!(!over.passed);
    assert_eq!(over.reasons, strings(&["overrun_count=1 exceeds threshold 0"]));
}

#[test]
fn no_board_gate_args_fall_back_to_the_shared_scenario() {
    let a = parse_no_board_gate_args(
        &strings(&["a.plc", "--scenario", "s.yaml", "--out-dir", "out"]),
        USAGE,
    )
    .expect("args");
    assert_eq!(a.plc_path, "a.plc");
    assert_eq!(a.sil_scenario_path, "s.yaml");
    assert_eq!(a.board_scenario_path, "s.yaml");
    assert_eq!(a.out_dir, "out");
    assert_eq!(a.context_window, 3);
    assert_eq!(a.output, CliOutputMode::Human);
    assert_eq!(a.thresholds, RealtimeThresholdConfig { max_p99_exec_us: None, max_overrun_count: None });

    let b = parse_no_board_gate_args(
        &strings(&[
            "a.plc",
            "--board-scenario",
            "b.yaml",
            "--sil-scenario",
            "s.yaml",
            "--out-dir",
            "o",
            "--context",
            "+7",
            "--max-p99-exec-us",
            "500",
            "--max-overrun-count",
            "0",
            "--output",
            "json",
        ]),
        USAGE,
    )
    .expect("args");
    assert_eq!(b.sil_scenario_path, "s.yaml");
    assert_eq!(b.board_scenario_path, "b.yaml");
    assert_eq!(b.context_window, 7);
    assert_eq!(b.thresholds, RealtimeThresholdConfig { max_p99_exec_us: Some(500), max_overrun_count: Some(0) });
    assert_eq!(b.output, CliOutputMode::Json);
}

#[test]
fn no_board_gate_args_errors() {
    let p = |v: &[&str]| parse_no_board_gate_args(&strings(v), USAGE);
    assert_eq!(p(&[]), Err(USAGE.to_string()));
    assert_eq!(p(&["a.plc", "--scenario", "s.yaml"]), Err(USAGE.to_string()));
    assert_eq!(p(&["a.plc", "--out-dir", "o"]), Err(USAGE.to_string()));
    assert_eq!(p(&["a.plc", "--out-dir", "o", "--sil-scenario", "s"]), Err(USAGE.to_string()));
    assert_eq!(p(&["a.plc", "-h"]), Err(USAGE.to_string()));
    assert_eq!(
        p(&["a.plc", "--context", "x"]),
        Err("Invalid --context value (expected usize): x".to_string())
    );
    assert_eq!(
        p(&["a.plc", "--max-p99-exec-us"]),
        Err("Missing value for --max-p99-exec-us <us>".to_string())
    );
    assert_eq!(
        p(&["a.plc", "--max-overrun-count", "-1"]),
        Err("Invalid --max-overrun-count value (expected u64): -1".to_string())
    );
    assert_eq!(
        p(&["a.plc", "--output", "xml"]),
        Err("Invalid --output value `xml` (expected `human` or `json`)".to_string())
    );
    assert_eq!(p(&["a.plc", "--output"]), Err("Missing value for --output <human|json>".to_string()));
    assert_eq!(
        p(&["a.plc", "--bogus"]),
        Err("Unknown argument for no-board-gate: --bogus".to_string())
    );
}

#[test]
fn release_bundle_args() {
    let a = parse_release_bundle_args(
        &strings(&["a.plc", "--scenario", "s.yaml", "--out-dir", "rel", "--io-map", "io.toml", "--max-p99-exec-us", "900"]),
        USAGE,
    )
    .expect("args");
    assert_eq!(a.scenario_path, "s.yaml");
    assert_eq!(a.out_dir, "rel");
    assert_eq!(a.io_map_path, Some("io.toml".to_string()));
    assert_eq!(a.thresholds.max_p99_exec_us, Some(900));
    assert_eq!(a.thresholds.max_overrun_count, None);
    assert_eq!(
        parse_release_bundle_args(&strings(&["a.plc", "--out-dir", "rel"]), USAGE),
        Err(USAGE.to_string())
    );
    assert_eq!(
        parse_release_bundle_args(&strings(&["a.plc", "--context", "3"]), USAGE),
        Err("Unknown argument for release-bundle: --context".to_string())
    );
    assert_eq!(
        parse_release_bundle_args(&strings(&["a.plc", "--io-map"]), USAGE),
        Err("Missing value for --io-map <file>".to_string())
    );
}

#[test]
fn commissioning_run_args() {
    let a = parse_commissioning_run_args(&strings(&["a.plc", "--out-dir", "c", "--output", "json"]), USAGE)
        .expect("args");
    assert_eq!((a.plc_path.as_str(), a.out_dir.as_str(), a.output), ("a.plc", "c", CliOutputMode::Json));
    assert_eq!(parse_commissioning_run_args(&strings(&["a.plc"]), USAGE), Err(USAGE.to_string()));
    assert_eq!(
        parse_commissioning_run_args(&strings(&["a.plc", "--scenario", "x"]), USAGE),
        Err("Unknown argument for commissioning-run: --scenario".to_string())
    );
}

#[test]
fn gate_tick_ms_must_match() {
    assert_eq!(rust_plc::realtime_gate::check_gate_tick_ms(10, 10), Ok(()));
    assert_eq!(
        rust_plc::realtime_gate::check_gate_tick_ms(10, 20),
        Err("SIL tick_ms (10) must match board tick_ms (20) for no-board-gate".to_string())
    );
}
