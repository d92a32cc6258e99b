use rust_plc::component_report::{
    format_component_scenario_validate_error, format_component_sim_error,
    format_component_topology_validate_error, ComponentIssue,
};
use rust_plc::diagnostics::{
    binding_stability_label, intent_contract_file_name, runtime_layouts_from_program,
    sole_contract_in_docs, BindingStability, RuntimeTaskNames,
};
use rust_plc::perf_bench::{parse_args, BenchRequest, Config, OutputFormat};
use rust_plc::sim_channels::feedback_parameter_hints_for_failure;

fn args(v: &[&str]) -> Vec<String> {
    v.iter().map(|s| s.to_string()).collect()
}

#[test]
fn bench_args_default_and_overrides() {
    assert_eq!(parse_args(&[]), Ok(BenchRequest::Run(Config::default())));
    let d = Config::default();
    assert_eq!((d.samples, d.warmups, d.simple_iterations, d.complex_iterations), (7, 2, 100_000, 20_000));
    assert_eq!(
        parse_args(&args(&["--samples", "3", "--output", "json", "--warmups", "0"])),
        Ok(BenchRequest::Run(Config {
            samples: 3,
            warmups: 0,
            simple_iterations: 100_000,
            complex_iterations: 20_000,
            output: OutputFormat::Json,
        }))
    );
    assert_eq!(parse_args(&args(&["--samples", "3", "-h", "--bogus"])), Ok(BenchRequest::Help));
}

#[test]
fn bench_args_errors() {
    assert_eq!(parse_args(&args(&["--samples"])), Err("missing value for --samples".to_string()));
    assert_eq!(
        parse_args(&args(&["--warmups", "x"])),
        Err("invalid integer for --warmups: `x`".to_string())
    );
    assert_eq!(parse_args(&args(&["--output"])), Err("missing value for --output".to_string()));
    assert_eq!(
        parse_args(&args(&["--output", "xml"])),
        Err("invalid --output value `xml` (expected human|json)".to_string())
    );
    assert_eq!(parse_args(&args(&["--fast"])), Err("unknown argument `--fast`".to_string()));
    assert_eq!(
        parse_args(&args(&["--samples", "0"])),
        Err("--samples must be greater than 0".to_string())
    );
    assert_eq!(
        parse_args(&args(&["--complex-iterations", "0"])),
        Err("--complex-iterations must be greater than 0".to_string())
    );
}

#[test]
fn regression_feedback_hints() {
    let h = feedback_parameter_hints_for_failure("timeout", Some(1200));
    assert_eq!(h.len(), 4);
    assert_eq!(h[0], "increase duration_ms to keep timeout windows observable");
    assert_eq!(h[3], "duration_ms near 1200 reproduces this failure signature with lower noise");
    assert_eq!(
        feedback_parameter_hints_for_failure("assertion", None),
        vec!["re-run with --minimize-failure and inspect minimized_scenario.yaml".to_string()]
    );
    assert_eq!(
        feedback_parameter_hints_for_failure("compile_error", None),
        vec!["fix PLC semantic/verification errors before scenario expansion".to_string()]
    );
}

fn issue(code: &str) -> ComponentIssue {
    ComponentIssue { code: code.to_string(), path: "$.devices[0]".to_string(), message: "bad".to_string() }
}

#[test]
fn component_error_messages() {
    let issues: Vec<ComponentIssue> = (0..9).map(|i| issue(&format!("CTOP-{i}"))).collect();
    let msg = format_component_topology_validate_error("topo.json", &issues);
    assert!(msg.starts_with("component topology validation failed for topo.json (9 issue(s))\n- [CTOP-0] $.devices[0]: bad"));
    assert!(msg.ends_with("\n- [CTOP-7] $.devices[0]: bad\n- ... 1 more issue(s)"));
    let scn = format_component_scenario_validate_error("s.json", &[issue("CSCN-MIG-001")]);
    assert_eq!(
        scn,
        "component scenario validation failed for s.json (1 issue(s))\n- [CSCN-MIG-001] $.devices[0]: bad\nMigration hint: replace legacy `faults.sensor_stuck` and `forces` with `component_faults` events targeted by component ID."
    );
    assert_eq!(format_component_sim_error(&[]), "component simulation failed (0 issue(s))");
}

#[test]
fn intent_alignment_helpers() {
    assert_eq!(binding_stability_label(BindingStability::Repeated), "repeated");
    let tasks = vec![RuntimeTaskNames { name: "main".to_string(), steps: args(&["main.idle", "main.run.fast"]) }];
    let layouts = runtime_layouts_from_program(&tasks).ok().expect("layouts");
    assert_eq!(layouts[0].root_task, "main");
    assert_eq!(layouts[0].step_keys, vec![("main".to_string(), "idle".to_string()), ("main".to_string(), "run.fast".to_string())]);
    let bad = vec![RuntimeTaskNames { name: "main".to_string(), steps: args(&["idle"]) }];
    assert_eq!(
        runtime_layouts_from_program(&bad).err(),
        Some("runtime step `idle` is missing the expected `task.step` naming form".to_string())
    );
    assert_eq!(
        intent_contract_file_name("line.bundle.toml"),
        Some("line.bundle.intent_alignment.contract.json".to_string())
    );
    assert_eq!(
        intent_contract_file_name("line.plc.plc"),
        Some("line.intent_alignment.contract.json".to_string())
    );
    assert_eq!(intent_contract_file_name("line.txt"), None);
    assert_eq!(sole_contract_in_docs(&args(&["a.md", "x.intent_alignment.contract.json"])), Some(1));
    assert_eq!(
        sole_contract_in_docs(&args(&["x.intent_alignment.contract.json", "y.intent_alignment.contract.json"])),
        None
    );
    assert_eq!(sole_contract_in_docs(&args(&["a.md"])), None);
}
