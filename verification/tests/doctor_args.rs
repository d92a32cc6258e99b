use rust_plc::diagnostics::EvidenceSource;
use rust_plc::doctor_args::{
    parse_intent_doctor_args, parse_scenario_doctor_args, parse_trace_diff_args, parse_trace_doctor_args,
};
use rust_plc::realtime_gate::CliOutputMode;

const USAGE: &str = "usage: rust_plc trace-doctor <plc> --scenario <s> [--trace|--diff]";

fn parse(v: &[&str]) -> Result<rust_plc::doctor_args::TraceDoctorArgs, String> {
    let args: Vec<String> = v.iter().map(|s| s.to_string()).collect();
    parse_trace_doctor_args(&args, USAGE)
}

#[test]
fn trace_doctor_args_defaults() {
    let a = parse(&["a.plc", "--scenario", "s.yaml", "--trace", "t.jsonl"]).expect("args");
    assert_eq!(a.plc_path, "a.plc");
    assert_eq!(a.scenario_path, "s.yaml");
    assert_eq!(a.trace_path.as_deref(), Some("t.jsonl"));
    assert_eq!(a.diff_path, None);
    assert_eq!(a.evidence_source, EvidenceSource::Mixed);
    assert_eq!(a.top_n, 3);
    assert_eq!(a.output, CliOutputMode::Human);
}

#[test]
fn trace_doctor_args_all_options() {
    let a = parse(&[
        "a.plc",
        "--diff",
        "d.json",
        "--scenario",
        "s.yaml",
        "--timing-report",
        "tr.json",
        "--io-snapshot",
        "io.json",
        "--evidence-source",
        "hil_board",
        "--top",
        "5",
        "--output",
        "json",
    ])
    .expect("args");
    assert_eq!(a.diff_path.as_deref(), Some("d.json"));
    assert_eq!(a.timing_report_path.as_deref(), Some("tr.json"));
    assert_eq!(a.io_snapshot_path.as_deref(), Some("io.json"));
    assert_eq!(a.evidence_source, EvidenceSource::HilBoard);
    assert_eq!(a.top_n, 5);
    assert_eq!(a.output, CliOutputMode::Json);
}

#[test]
fn trace_doctor_args_errors() {
    assert_eq!(parse(&[]), Err(USAGE.to_string()));
    assert_eq!(parse(&["a.plc", "--trace", "t"]), Err(USAGE.to_string()));
    assert_eq!(
        parse(&["a.plc", "--scenario", "s"]),
        Err("trace-doctor requires at least one input artifact: --trace <trace.jsonl> or --diff <diff_report.json>".to_string())
    );
    assert_eq!(
        parse(&["a.plc", "--evidence-source", "lab"]),
        Err("Invalid --evidence-source value `lab` (expected `no_board`, `hil_board`, `runtime_live`, or `mixed`)".to_string())
    );
    assert_eq!(parse(&["a.plc", "--top", "0"]), Err("Invalid --top value (expected >= 1)".to_string()));
    assert_eq!(parse(&["a.plc", "--top"]), Err("Missing value for --top <n>".to_string()));
    assert_eq!(
        parse(&["a.plc", "--x"]),
        Err("Unknown argument for trace-doctor: --x".to_string())
    );
}

fn strings(v: &[&str]) -> Vec<String> {
    v.iter().map(|s| s.to_string()).collect()
}

#[test]
fn scenario_doctor_args() {
    assert_eq!(
        parse_scenario_doctor_args(&strings(&["a.plc", "--fix-preview", "--scenario", "s.yaml"]), USAGE),
        Ok(("a.plc".to_string(), "s.yaml".to_string(), true, CliOutputMode::Human))
    );
    assert_eq!(
        parse_scenario_doctor_args(&strings(&["a.plc", "--output", "json"]), USAGE),
        Err("Missing required argument: --scenario <scenario.yaml>".to_string())
    );
    assert_eq!(parse_scenario_doctor_args(&strings(&[]), USAGE), Err(USAGE.to_string()));
    assert_eq!(
        parse_scenario_doctor_args(&strings(&["a.plc", "--fix"]), USAGE),
        Err("Unknown argument for scenario-doctor: --fix".to_string())
    );
}

#[test]
fn trace_diff_args() {
    let a = parse_trace_diff_args(
        &strings(&["--sil", "s.jsonl", "--board", "b.jsonl", "--out", "r.json", "--fail-on-mismatch", "--context", "7"]),
        USAGE,
    )
    .expect("args");
    assert_eq!(a.sil_path, "s.jsonl");
    assert_eq!(a.board_path, "b.jsonl");
    assert_eq!(a.out_path, "r.json");
    assert_eq!(a.context_window, 7);
    assert!(a.fail_on_mismatch);
    let d = parse_trace_diff_args(&strings(&["--sil", "s", "--board", "b", "--out", "r"]), USAGE).expect("args");
    assert_eq!(d.context_window, 3);
    assert!(!d.fail_on_mismatch);
    assert_eq!(parse_trace_diff_args(&strings(&["--sil", "s", "--board", "b"]), USAGE), Err(USAGE.to_string()));
    assert_eq!(
        parse_trace_diff_args(&strings(&["--context", "-3"]), USAGE),
        Err("Invalid --context value (expected usize): -3".to_string())
    );
}

#[test]
fn intent_doctor_args() {
    let a = parse_intent_doctor_args(&strings(&["a.plc", "--trace", "t.jsonl"]), USAGE).expect("args");
    assert_eq!(a.plc_path, "a.plc");
    assert_eq!(a.trace_path, "t.jsonl");
    assert_eq!(a.intent_contract_path, None);
    assert_eq!(a.top_n, 5);
    assert_eq!(a.output, CliOutputMode::Human);
    let b = parse_intent_doctor_args(
        &strings(&["a.plc", "--intent-contract", "c.json", "--trace", "t", "--top", "2", "--output", "json"]),
        USAGE,
    )
    .expect("args");
    assert_eq!(b.intent_contract_path.as_deref(), Some("c.json"));
    assert_eq!(b.top_n, 2);
    assert_eq!(b.output, CliOutputMode::Json);
    assert_eq!(parse_intent_doctor_args(&strings(&["a.plc"]), USAGE), Err(USAGE.to_string()));
    assert_eq!(
        parse_intent_doctor_args(&strings(&["a.plc", "--top", "0"]), USAGE),
        Err("Invalid --top value (expected >= 1)".to_string())
    );
}
