use rust_plc::project_scaffold::{DeliveryLayer, ProjectLayout};
use rust_plc::realtime_gate::CliOutputMode;
use rust_plc::tool_args::{
    parse_board_parse_args, parse_build_renode_args, parse_component_scenario_validate_args,
    parse_component_sim_args, parse_component_topology_validate_args, parse_flash_rp2040_args,
    parse_flowchart_args,
    parse_io_map_normalize_args, parse_new_project_args, parse_path_options, parse_pid_kpi_args,
    parse_scenario_expand_args, parse_scenario_validate_args, parse_sim_args, parse_sim_regress_args,
    parse_timing_report_args, parse_topology_diff_args,
};

const USAGE: &str = "usage: rust_plc <tool> ...";

fn strings(v: &[&str]) -> Vec<String> {
    v.iter().map(|s| s.to_string()).collect()
}

#[test]
fn path_options_keep_the_last_value() {
    let (v, m) = parse_path_options(
        &strings(&["x", "--a", "1", "--a", "2"]),
        1,
        &["--a", "--b"],
        &["missing a", "missing b"],
        false,
        "t",
        USAGE,
    )
    .expect("options");
    assert_eq!(v, vec![Some("2".to_string()), None]);
    assert_eq!(m, CliOutputMode::Human);
    assert_eq!(
        parse_path_options(&strings(&[]), 1, &["--a"], &["missing a"], false, "t", USAGE),
        Err(USAGE.to_string())
    );
    assert_eq!(
        parse_path_options(&strings(&["x", "--b"]), 1, &["--a", "--b"], &["missing a", "missing b"], false, "t", USAGE),
        Err("missing b".to_string())
    );
}

#[test]
fn board_parse_timing_and_io_map_args() {
    assert_eq!(
        parse_board_parse_args(&strings(&["--out-dir", "o", "--in", "board.log"]), USAGE),
        Ok(("board.log".to_string(), "o".to_string()))
    );
    assert_eq!(parse_board_parse_args(&strings(&["--in", "b"]), USAGE), Err(USAGE.to_string()));
    assert_eq!(
        parse_board_parse_args(&strings(&["b.log"]), USAGE),
        Err("Unknown argument for board-parse: b.log".to_string())
    );
    assert_eq!(
        parse_timing_report_args(&strings(&["--in", "t.jsonl"]), USAGE),
        Ok(("t.jsonl".to_string(), None))
    );
    assert_eq!(
        parse_timing_report_args(&strings(&["--in", "t.jsonl", "--out", "r.json"]), USAGE),
        Ok(("t.jsonl".to_string(), Some("r.json".to_string())))
    );
    assert_eq!(
        parse_timing_report_args(&strings(&["--out"]), USAGE),
        Err("Missing value for --out <timing_report.json>".to_string())
    );
    assert_eq!(
        parse_io_map_normalize_args(&strings(&["--in", "io.toml", "--out", "n.toml"]), USAGE),
        Ok(("io.toml".to_string(), "n.toml".to_string()))
    );
    assert_eq!(parse_io_map_normalize_args(&strings(&["--in", "io.toml"]), USAGE), Err(USAGE.to_string()));
}

#[test]
fn renode_and_scenario_validate_args() {
    let a = parse_build_renode_args(&strings(&["a.plc", "--scenario", "s.yaml", "--out", "r", "--output", "json"]), USAGE)
        .expect("args");
    assert_eq!(
        (a.plc_path.as_str(), a.scenario_path.as_str(), a.out_dir.as_str(), a.output),
        ("a.plc", "s.yaml", "r", CliOutputMode::Json)
    );
    assert_eq!(parse_build_renode_args(&strings(&["a.plc", "--out", "r"]), USAGE), Err(USAGE.to_string()));
    assert_eq!(
        parse_scenario_validate_args(&strings(&["a.plc", "--scenario", "s.yaml"]), USAGE),
        Ok(("a.plc".to_string(), "s.yaml".to_string(), CliOutputMode::Human))
    );
    assert_eq!(
        parse_scenario_validate_args(&strings(&["a.plc"]), USAGE),
        Err("Missing required argument: --scenario <scenario.yaml>".to_string())
    );
    assert_eq!(parse_scenario_validate_args(&strings(&[]), USAGE), Err(USAGE.to_string()));
}

#[test]
fn component_args() {
    let a = parse_component_sim_args(
        &strings(&["topo.toml", "--scenario", "s.json", "--keypoints-out", "k.json", "--output", "json"]),
        USAGE,
    )
    .expect("args");
    assert_eq!(a.topology_path, "topo.toml");
    assert_eq!(a.scenario_path, "s.json");
    assert_eq!(a.trace_out, None);
    assert_eq!(a.keypoints_out.as_deref(), Some("k.json"));
    assert_eq!(a.output, CliOutputMode::Json);
    assert_eq!(
        parse_component_sim_args(&strings(&["topo.toml", "--diagnosis-out"]), USAGE),
        Err("Missing value for --diagnosis-out <component_diagnosis.json>".to_string())
    );
    assert_eq!(parse_component_sim_args(&strings(&["topo.toml"]), USAGE), Err(USAGE.to_string()));
    assert_eq!(
        parse_topology_diff_args(&strings(&["a.toml", "b.toml", "--out", "d.json"]), USAGE),
        Ok(("a.toml".to_string(), "b.toml".to_string(), "d.json".to_string(), CliOutputMode::Human))
    );
    assert_eq!(parse_topology_diff_args(&strings(&["a.toml"]), USAGE), Err(USAGE.to_string()));
    assert_eq!(
        parse_topology_diff_args(&strings(&["a.toml", "b.toml", "--in", "x"]), USAGE),
        Err("Unknown argument for component-topology-diff: --in".to_string())
    );
}

#[test]
fn sim_and_scenario_expand_args() {
    let a = parse_sim_args(&strings(&["s.yaml", "--vcd-out", "w.vcd", "--out", "t.jsonl"]), USAGE).expect("args");
    assert_eq!(a.scenario_path, "s.yaml");
    assert_eq!(a.out_path.as_deref(), Some("t.jsonl"));
    assert_eq!(a.vcd_out_path.as_deref(), Some("w.vcd"));
    assert_eq!(a.analog_out_path, None);
    assert_eq!(a.report_out_path, None);
    assert_eq!(parse_sim_args(&strings(&[]), USAGE), Err(USAGE.to_string()));
    assert_eq!(
        parse_sim_args(&strings(&["s.yaml", "--report-out"]), USAGE),
        Err("Missing value for --report-out <report.json>".to_string())
    );
    assert_eq!(
        parse_scenario_expand_args(&strings(&["a.plc", "--out", "e.yaml", "--scenario", "s.yaml"]), USAGE),
        Ok(("a.plc".to_string(), "s.yaml".to_string(), "e.yaml".to_string()))
    );
    assert_eq!(
        parse_scenario_expand_args(&strings(&["a.plc", "--scenario", "s.yaml"]), USAGE),
        Err(USAGE.to_string())
    );
}

#[test]
fn new_project_args() {
    let a = parse_new_project_args(&strings(&["proj"]), USAGE).expect("args");
    assert_eq!(a.project_dir, "proj");
    assert!(!a.force);
    assert_eq!(a.layout, ProjectLayout::SingleFile);
    assert_eq!(a.delivery_layer, DeliveryLayer::Station);
    let b = parse_new_project_args(
        &strings(&["proj", "--force", "--layout", "structured-fragments", "--delivery-layer", "line"]),
        USAGE,
    )
    .expect("args");
    assert!(b.force);
    assert_eq!(b.layout, ProjectLayout::StructuredFragments);
    assert_eq!(b.delivery_layer, DeliveryLayer::Line);
    assert_eq!(
        parse_new_project_args(&strings(&["proj", "--layout", "flat"]), USAGE),
        Err("Unknown layout `flat` (expected `single-file` or `structured-fragments`)".to_string())
    );
    assert_eq!(
        parse_new_project_args(&strings(&["proj", "--delivery-layer"]), USAGE),
        Err("Missing value for --delivery-layer <module|station|line>".to_string())
    );
    assert_eq!(parse_new_project_args(&strings(&[]), USAGE), Err(USAGE.to_string()));
    assert_eq!(
        parse_new_project_args(&strings(&["proj", "--fast"]), USAGE),
        Err("Unknown argument for new: --fast".to_string())
    );
}

#[test]
fn pid_kpi_and_component_validate_args() {
    assert_eq!(
        parse_pid_kpi_args(&strings(&["a.plc", "--scenario", "pid.yaml"]), USAGE),
        Ok(("a.plc".to_string(), "pid.yaml".to_string(), None))
    );
    assert_eq!(parse_pid_kpi_args(&strings(&["a.plc", "--out", "k.json"]), USAGE), Err(USAGE.to_string()));
    assert_eq!(
        parse_component_topology_validate_args(&strings(&["t.json", "--output", "json"]), USAGE),
        Ok(("t.json".to_string(), None, CliOutputMode::Json))
    );
    assert_eq!(
        parse_component_topology_validate_args(&strings(&["t.json", "--normalized-out"]), USAGE),
        Err("Missing value for --normalized-out <normalized_topology.json>".to_string())
    );
    assert_eq!(
        parse_component_scenario_validate_args(&strings(&["s.json", "--normalized-out", "n.json"]), USAGE),
        Ok(("s.json".to_string(), Some("n.json".to_string()), CliOutputMode::Human))
    );
    assert_eq!(
        parse_component_scenario_validate_args(&strings(&["s.json", "--x"]), USAGE),
        Err("Unknown argument for component-scenario-validate: --x".to_string())
    );
}

#[test]
fn flash_and_regress_args() {
    assert_eq!(
        parse_flash_rp2040_args(&strings(&["--dry-run", "--uf2", "fw.uf2", "--mount", "/media/RPI"]), USAGE),
        Ok(("fw.uf2".to_string(), "/media/RPI".to_string(), true))
    );
    assert_eq!(parse_flash_rp2040_args(&strings(&["--uf2", "fw.uf2"]), USAGE), Err(USAGE.to_string()));
    let r = parse_sim_regress_args(
        &strings(&["--plc-dir", "plc", "--scenario-dir", "sc", "--minimize-failure", "--summary-out", "s.json"]),
        USAGE,
    )
    .expect("args");
    assert_eq!(r.plc_dir, "plc");
    assert_eq!(r.scenario_dir, "sc");
    assert_eq!(r.artifacts_dir, None);
    assert_eq!(r.summary_out.as_deref(), Some("s.json"));
    assert!(r.minimize_failure);
    assert_eq!(parse_sim_regress_args(&strings(&["--plc-dir", "plc"]), USAGE), Err(USAGE.to_string()));
    assert_eq!(
        parse_sim_regress_args(&strings(&["--artifacts-dir"]), USAGE),
        Err("Missing value for --artifacts-dir <dir>".to_string())
    );
}

#[test]
fn flowchart_args() {
    assert_eq!(
        parse_flowchart_args(&strings(&["a.plc", "--title", "Line 1", "--output", "json"]), USAGE),
        Ok(("a.plc".to_string(), None, Some("Line 1".to_string()), CliOutputMode::Json))
    );
    assert_eq!(
        parse_flowchart_args(&strings(&["a.plc", "--output", "svg"]), USAGE),
        Err("Invalid value for --output `svg` (expected human or json)".to_string())
    );
    assert_eq!(
        parse_flowchart_args(&strings(&["a.plc", "--zoom", "2"]), USAGE),
        Err(format!("Unknown argument for flowchart: --zoom\n{USAGE}"))
    );
    assert_eq!(parse_flowchart_args(&strings(&[]), USAGE), Err(USAGE.to_string()));
}
