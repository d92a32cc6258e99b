use rust_plc::scenario_gen::{ScenarioCoverageMode, ScenarioGenCombo};
use rust_plc::scenario_plan::{
    parse_scenario_gen_args, plan_scenario_case, scenario_case_file_name, scenario_case_name, sensor_targets_of,
    PlannedFault, PlannedInput,
};

fn at(at_ms: u64, digital: &[(u16, bool)]) -> PlannedInput {
    PlannedInput { at_ms, digital: digital.to_vec() }
}

#[test]
fn plan_orders_start_baseline_release_and_sensors() {
    let combo = ScenarioGenCombo {
        duration_ms: 1000,
        start_pulse_ms: 50,
        sensor_window_ms: 30,
        inject_sensor_stuck: true,
    };
    let p = plan_scenario_case(2, 100, 10, &combo, Some(0), &[3, 0, 5], Some(0));
    assert_eq!(p.seed, 102);
    assert_eq!(p.tick_ms, 10);
    assert_eq!(p.duration_ms, 1000);
    assert_eq!(
        p.inputs,
        vec![
            at(0, &[(0, true)]),
            at(0, &[(3, false), (5, false)]),
            at(50, &[(0, false)]),
            at(80, &[(3, true)]),
            at(110, &[(5, true)]),
        ]
    );
    assert_eq!(p.faults, vec![PlannedFault { at_ms: 200, target: 3, value: true }]);
}

#[test]
fn plan_keeps_events_inside_a_short_run() {
    let combo = ScenarioGenCombo {
        duration_ms: 40,
        start_pulse_ms: 50,
        sensor_window_ms: 30,
        inject_sensor_stuck: true,
    };
    let p = plan_scenario_case(0, 0, 10, &combo, Some(1), &[2], None);
    assert_eq!(
        p.inputs,
        vec![at(0, &[(1, true)]), at(0, &[(2, false)]), at(30, &[(1, false)])]
    );
    assert_eq!(p.faults, vec![PlannedFault { at_ms: 30, target: 2, value: true }]);
}

#[test]
fn plan_without_inputs() {
    let combo = ScenarioGenCombo {
        duration_ms: 500,
        start_pulse_ms: 10,
        sensor_window_ms: 10,
        inject_sensor_stuck: true,
    };
    let p = plan_scenario_case(0, 7, 5, &combo, None, &[], None);
    assert!(p.inputs.is_empty());
    assert_eq!(p.faults, vec![PlannedFault { at_ms: 200, target: 0, value: true }]);
    let q = plan_scenario_case(0, 7, 5, &ScenarioGenCombo { inject_sensor_stuck: false, ..combo }, None, &[], Some(4));
    assert_eq!(q.inputs, vec![at(0, &[(4, true)]), at(10, &[(4, false)])]);
    assert!(q.faults.is_empty());
}

#[test]
fn sensor_targets_skip_the_start_and_stop_at_eight() {
    let ids: Vec<u16> = (1..=10).collect();
    assert_eq!(sensor_targets_of(&ids, Some(2)), vec![1, 3, 4, 5, 6, 7, 8, 9]);
    assert_eq!(sensor_targets_of(&ids, None), vec![1, 2, 3, 4, 5, 6, 7, 8]);
    assert_eq!(sensor_targets_of(&[4, 4, 9], Some(9)), vec![4, 4]);
}

#[test]
fn case_names_are_numbered_from_one() {
    assert_eq!(scenario_case_name(0), "case_0001");
    assert_eq!(scenario_case_name(41), "case_0042");
    assert_eq!(scenario_case_file_name(0), "scenario_0001.yaml");
    assert_eq!(scenario_case_file_name(9999), "scenario_10000.yaml");
}

#[test]
fn scenario_gen_args_defaults_and_errors() {
    let usage = "usage: rust_plc scenario-gen --plc <file> --config <gen.yaml> --out-dir <dir>";
    let s = |v: &[&str]| -> Vec<String> { v.iter().map(|x| x.to_string()).collect() };
    let a = parse_scenario_gen_args(&s(&["--plc", "m.plc", "--config", "g.yaml", "--out-dir", "out"]), usage)
        .expect("args");
    assert_eq!(a.plc_path, "m.plc");
    assert_eq!(a.config_path, "g.yaml");
    assert_eq!(a.out_dir, "out");
    assert_eq!(a.coverage_mode, ScenarioCoverageMode::Pairwise);
    assert!(!a.dry_run);
    assert_eq!(a.template_library_path, "scenarios/templates/metadata.json");

    let b = parse_scenario_gen_args(
        &s(&["--dry-run", "--coverage-mode", " Risk-First ", "--plc", "m.plc", "--config", "g", "--out-dir", "o", "--template-library", "t.json"]),
        usage,
    )
    .expect("args");
    assert!(b.dry_run);
    assert_eq!(b.coverage_mode, ScenarioCoverageMode::RiskFirst);
    assert_eq!(b.template_library_path, "t.json");

    assert_eq!(parse_scenario_gen_args(&s(&["--plc", "m.plc"]), usage), Err(usage.to_string()));
    assert_eq!(
        parse_scenario_gen_args(&s(&["--coverage-mode", "random"]), usage),
        Err("Invalid --coverage-mode `random` (expected pairwise|boundary-first|risk-first)".to_string())
    );
    assert_eq!(
        parse_scenario_gen_args(&s(&["--coverage-mode"]), usage),
        Err("Missing value for --coverage-mode <pairwise|boundary-first|risk-first>".to_string())
    );
    assert_eq!(
        parse_scenario_gen_args(&s(&["--seed", "1"]), usage),
        Err("Unknown argument for scenario-gen: --seed".to_string())
    );
}

#[test]
fn plan_cases_stops_at_max_cases() {
    let meta = |id: &str, kind: &str| rust_plc::scenario_gen::ScenarioTemplateMeta {
        id: id.to_string(),
        path: format!("{id}.yaml"),
        kind: kind.to_string(),
        description: String::new(),
        parameters: vec![],
    };
    let lib = rust_plc::scenario_gen::ScenarioTemplateLibrary {
        schema_version: 1,
        templates: vec![meta("nom", "nominal"), meta("flt", "fault")],
    };
    let c = |d: u64, f: bool| ScenarioGenCombo {
        duration_ms: d,
        start_pulse_ms: 50,
        sensor_window_ms: 30,
        inject_sensor_stuck: f,
    };
    let combos = vec![c(1000, false), c(1000, true), c(2000, false)];
    let cases = rust_plc::scenario_plan::plan_scenario_cases(&combos, 2, 100, 10, Some(0), &[3], Some(0), &lib);
    assert_eq!(cases.len(), 2);
    assert_eq!(cases[0].name, "case_0001");
    assert_eq!(cases[1].file_name, "scenario_0002.yaml");
    assert_eq!(cases[0].template_id, "nom");
    assert_eq!(cases[1].template_id, "flt");
    assert_eq!(cases[1].scenario.seed, 101);
    assert_eq!(cases[1].scenario, plan_scenario_case(1, 100, 10, &combos[1], Some(0), &[3], Some(0)));
    let all = rust_plc::scenario_plan::plan_scenario_cases(&combos, 10, 0, 10, None, &[], None, &lib);
    assert_eq!(all.len(), 3);
}
