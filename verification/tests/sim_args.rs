use rust_plc::sim_plc_args::parse_sim_plc_args;

const USAGE: &str = "usage: rust_plc sim-plc <plc> --scenario <s> --out <trace>";

fn parse(v: &[&str]) -> Result<rust_plc::sim_plc_args::SimPlcArgs, String> {
    let args: Vec<String> = v.iter().map(|s| s.to_string()).collect();
    parse_sim_plc_args(&args, USAGE)
}

#[test]
fn sim_args_defaults() {
    let a = parse(&["a.plc", "--scenario", "s.yaml", "--out", "t.jsonl"]).expect("args");
    assert_eq!(a.plc_path, "a.plc");
    assert_eq!(a.options.scenario_path.as_deref(), Some("s.yaml"));
    assert_eq!(a.options.out_path.as_deref(), Some("t.jsonl"));
    assert!(!a.options.alarm_options_seen);
    assert_eq!(a.options.alarm_top_n, 3);
    assert_eq!(a.options.alarm_dedup_window_ms, 1_000);
    assert_eq!(a.options.alarm_min_interval_ms, 200);
    assert!(!a.options.enable_online_force_dev);
    assert_eq!(a.options.io_snapshot_out, None);
}

#[test]
fn sim_args_alarm_options() {
    let a = parse(&[
        "a.plc",
        "--alarm-top",
        "5",
        "--scenario",
        "s.yaml",
        "--alarm-scenario-id",
        "line-1",
        "--out",
        "t.jsonl",
        "--alarm-dedup-window-ms",
        "50",
        "--alarm-min-interval-ms",
        "0",
        "--alarm-hmi-ws",
        "ws://h:1/p",
        "--alarm-audit-out",
        "alarms.ndjson",
        "--io-snapshot-out",
        "io.json",
    ])
    .expect("args");
    assert!(a.options.alarm_options_seen);
    assert_eq!(a.options.alarm_top_n, 5);
    assert_eq!(a.options.alarm_scenario_id.as_deref(), Some("line-1"));
    assert_eq!(a.options.alarm_dedup_window_ms, 50);
    assert_eq!(a.options.alarm_min_interval_ms, 0);
    assert_eq!(a.options.alarm_hmi_ws.as_deref(), Some("ws://h:1/p"));
    assert_eq!(a.options.alarm_audit_out.as_deref(), Some("alarms.ndjson"));
    assert_eq!(a.options.io_snapshot_out.as_deref(), Some("io.json"));
}

#[test]
fn sim_args_cross_option_rules() {
    assert_eq!(
        parse(&["a.plc", "--scenario", "s", "--out", "t", "--retain-state", "r.json"]),
        Err("--retain-state requires --retain-config".to_string())
    );
    let ok = parse(&["a.plc", "--scenario", "s", "--out", "t", "--retain-state", "r.json", "--retain-config", "r.toml"])
        .expect("retain pair");
    assert_eq!(ok.options.retain_config_path.as_deref(), Some("r.toml"));
    let msg = "online-force/variable dev control plane is disabled by default; add --enable-online-force-dev to use --online-force-script/--online-force-audit-out/--online-var-script/--online-var-bindings/--online-var-audit-out";
    assert_eq!(
        parse(&["a.plc", "--scenario", "s", "--out", "t", "--online-var-bindings", "b.toml"]),
        Err(msg.to_string())
    );
    let dev = parse(&[
        "a.plc",
        "--enable-online-force-dev",
        "--scenario",
        "s",
        "--out",
        "t",
        "--online-force-script",
        "f.jsonl",
    ])
    .expect("dev plane");
    assert!(dev.options.enable_online_force_dev);
    assert_eq!(dev.options.online_force_script.as_deref(), Some("f.jsonl"));
}

#[test]
fn sim_args_errors() {
    assert_eq!(parse(&[]), Err(USAGE.to_string()));
    assert_eq!(parse(&["a.plc", "--out", "t"]), Err(USAGE.to_string()));
    assert_eq!(parse(&["a.plc", "--help"]), Err(USAGE.to_string()));
    assert_eq!(
        parse(&["a.plc", "--alarm-scenario-id", "  "]),
        Err("--alarm-scenario-id cannot be empty".to_string())
    );
    assert_eq!(
        parse(&["a.plc", "--alarm-top", "0"]),
        Err("Invalid --alarm-top value (expected >= 1)".to_string())
    );
    assert_eq!(
        parse(&["a.plc", "--alarm-top", "x"]),
        Err("Invalid --alarm-top value (expected usize): x".to_string())
    );
    assert_eq!(
        parse(&["a.plc", "--out"]),
        Err("Missing value for --out <trace.jsonl>".to_string())
    );
    assert_eq!(
        parse(&["a.plc", "--x"]),
        Err("Unknown argument for sim-plc: --x".to_string())
    );
}
