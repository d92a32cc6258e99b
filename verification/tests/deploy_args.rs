use rust_plc::deploy_args::{parse_build_rp2040_args, parse_pil_run_args, parse_virtual_board_args};
use rust_plc::io_usage::analog_calibration_template_for_contract;
use rust_plc::realtime_gate::CliOutputMode;

const USAGE: &str = "usage: rust_plc <command> <plc> ...";

fn strings(v: &[&str]) -> Vec<String> {
    v.iter().map(|s| s.to_string()).collect()
}

#[test]
fn build_rp2040_args_read_paths_and_output() {
    let a = parse_build_rp2040_args(
        &strings(&["a.plc", "--io-map", "io.toml", "--out", "build", "--emit-uf2", "fw.uf2", "--output", "json"]),
        USAGE,
    )
    .expect("args");
    assert_eq!(a.plc_path, "a.plc");
    assert_eq!(a.out_dir, "build");
    assert_eq!(a.io_map_path.as_deref(), Some("io.toml"));
    assert_eq!(a.analog_calibration_path, None);
    assert_eq!(a.emit_uf2.as_deref(), Some("fw.uf2"));
    assert_eq!(a.output, CliOutputMode::Json);
}

#[test]
fn build_rp2040_args_errors() {
    let p = |v: &[&str]| parse_build_rp2040_args(&strings(v), USAGE);
    assert_eq!(p(&[]), Err(USAGE.to_string()));
    assert_eq!(p(&["a.plc"]), Err(USAGE.to_string()));
    assert_eq!(p(&["a.plc", "--out"]), Err("Missing value for --out <dir>".to_string()));
    assert_eq!(
        p(&["a.plc", "--analog-calibration"]),
        Err("Missing value for --analog-calibration <file>".to_string())
    );
    assert_eq!(
        p(&["a.plc", "--output", "yaml"]),
        Err("Invalid --output value `yaml` (expected `human` or `json`)".to_string())
    );
    assert_eq!(p(&["a.plc", "--help"]), Err(USAGE.to_string()));
    assert_eq!(
        p(&["a.plc", "--scenario", "s"]),
        Err("Unknown argument for build-rp2040: --scenario".to_string())
    );
}

#[test]
fn virtual_board_and_pil_run_args() {
    let a = parse_virtual_board_args(&strings(&["a.plc", "--out-dir", "vb", "--scenario", "s.yaml"]), USAGE)
        .expect("args");
    assert_eq!((a.plc_path.as_str(), a.scenario_path.as_str(), a.out_dir.as_str()), ("a.plc", "s.yaml", "vb"));
    assert_eq!(
        parse_virtual_board_args(&strings(&["a.plc", "--scenario", "s.yaml"]), USAGE),
        Err(USAGE.to_string())
    );
    assert_eq!(
        parse_virtual_board_args(&strings(&["a.plc", "--output", "json"]), USAGE),
        Err("Unknown argument for virtual-board: --output".to_string())
    );
    assert_eq!(
        parse_pil_run_args(&strings(&["a.plc", "--scenario", "s.yaml"]), USAGE),
        Ok(("a.plc".to_string(), "s.yaml".to_string()))
    );
    assert_eq!(parse_pil_run_args(&strings(&["a.plc"]), USAGE), Err(USAGE.to_string()));
    assert_eq!(
        parse_pil_run_args(&strings(&["a.plc", "--scenario"]), USAGE),
        Err("Missing value for --scenario <scenario.yaml>".to_string())
    );
    assert_eq!(
        parse_pil_run_args(&strings(&["a.plc", "--out-dir", "x"]), USAGE),
        Err("Unknown argument for pil-run: --out-dir".to_string())
    );
}

#[test]
fn analog_calibration_template_lists_each_channel() {
    let t = analog_calibration_template_for_contract(&strings(&["ai0", "ai2"]), &strings(&["ao1"]));
    let head = "# Analog calibration template (optional)\n#\n# The firmware applies calibration as:\n#   eng_calibrated = eng_raw * scale + offset\n#\n# Notes:\n# - Keys match analog_contract.toml sections: ai0/ao0/...\n# - Only entries present here override defaults.\n\n";
    assert_eq!(
        t,
        format!(
            "{head}[analog_inputs]\n# ai0 = {{ scale = 1.0, offset = 0.0 }}\n# ai2 = {{ scale = 1.0, offset = 0.0 }}\n\n[analog_outputs]\n# ao1 = {{ scale = 1.0, offset = 0.0 }}\n\n"
        )
    );
    assert_eq!(analog_calibration_template_for_contract(&[], &[]), head);
}
