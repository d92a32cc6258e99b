use rust_plc::project_scaffold::{prettify_project_name, DeliveryLayer, ProjectLayout};
use rust_plc::runtime_budget::{
    estimate_budget_time, estimate_budget_time_values, BudgetTimeEstimate, RuntimeBudget,
    RuntimeBudgetThresholds, TransitionBudgetScope,
};
use rust_plc::scenario_gen::{
    build_scenario_gen_combos, dedup_u64_preserve_order_with_default, doctor_category_from_tag,
    round_down_to_tick, round_up_to_tick, scenario_gen_default_max_cases,
    scenario_gen_default_template_library_path, scenario_gen_default_tick_ms,
    select_template_id, ScenarioCoverageMode, ScenarioGenCombo, ScenarioGenConfig,
    ScenarioTemplateLibrary, ScenarioTemplateMeta,
};

fn config() -> ScenarioGenConfig {
    ScenarioGenConfig {
        seed_base: None,
        tick_ms: 10,
        duration_ms: vec![],
        start_pulse_ms: vec![],
        sensor_window_ms: vec![],
        inject_sensor_stuck: vec![],
        max_cases: 16,
    }
}

#[test]
fn scenario_config_defaults_and_validation() {
    let c = config();
    assert_eq!(c.validate(), Ok(()));
    assert_eq!(c.seed_base_value(), 42);
    assert_eq!(c.duration_values(), vec![1000, 2000, 3000]);
    assert_eq!(c.start_pulse_values(), vec![30, 50]);
    assert_eq!(c.sensor_window_values(), vec![20, 40]);
    assert_eq!(c.fault_values(), vec![false, true]);
    assert_eq!(scenario_gen_default_tick_ms(), 10);
    assert_eq!(scenario_gen_default_max_cases(), 16);
    assert_eq!(scenario_gen_default_template_library_path(), "scenarios/templates/metadata.json");

    let mut bad = config();
    bad.tick_ms = 0;
    assert_eq!(bad.validate(), Err("tick_ms must be > 0".to_string()));
    let mut bad = config();
    bad.max_cases = 0;
    assert_eq!(bad.validate(), Err("max_cases must be > 0".to_string()));
    let mut bad = config();
    bad.duration_ms = vec![100, 5];
    assert_eq!(bad.validate(), Err("duration_ms[1] (5) must be >= tick_ms (10)".to_string()));
    let mut bad = config();
    bad.duration_ms = vec![0];
    assert_eq!(bad.validate(), Err("duration_ms[0] must be > 0".to_string()));
    let mut bad = config();
    bad.start_pulse_ms = vec![1, 0];
    assert_eq!(bad.validate(), Err("start_pulse_ms[1] must be > 0".to_string()));
    let mut bad = config();
    bad.sensor_window_ms = vec![0];
    assert_eq!(bad.validate(), Err("sensor_window_ms[0] must be > 0".to_string()));
}

#[test]
fn dedup_keeps_first_occurrences() {
    assert_eq!(dedup_u64_preserve_order_with_default(&[3, 1, 3, 2, 1], &[9]), vec![3, 1, 2]);
    assert_eq!(dedup_u64_preserve_order_with_default(&[], &[9, 9]), vec![9]);
}

#[test]
fn tick_rounding() {
    assert_eq!(round_up_to_tick(25, 10), 30);
    assert_eq!(round_up_to_tick(30, 10), 30);
    assert_eq!(round_down_to_tick(25, 10), 20);
    assert_eq!(round_up_to_tick(25, 0), 25);
    assert_eq!(round_down_to_tick(25, 0), 25);
}

#[test]
fn coverage_modes_parse() {
    assert_eq!(ScenarioCoverageMode::parse(" Risk-First "), Ok(ScenarioCoverageMode::RiskFirst));
    assert_eq!(ScenarioCoverageMode::BoundaryFirst.as_str(), "boundary-first");
    assert_eq!(
        ScenarioCoverageMode::parse("all"),
        Err("Invalid --coverage-mode `all` (expected pairwise|boundary-first|risk-first)".to_string())
    );
}

fn combo(d: u64, p: u64, w: u64, f: bool) -> ScenarioGenCombo {
    ScenarioGenCombo { duration_ms: d, start_pulse_ms: p, sensor_window_ms: w, inject_sensor_stuck: f }
}

#[test]
fn combos_follow_the_coverage_mode() {
    let pairwise = build_scenario_gen_combos(&[1000, 2000], &[30], &[20], &[false, true], ScenarioCoverageMode::Pairwise);
    assert_eq!(
        pairwise,
        vec![
            combo(1000, 30, 20, false),
            combo(1000, 30, 20, true),
            combo(2000, 30, 20, false),
            combo(2000, 30, 20, true),
        ]
    );
    let risk = build_scenario_gen_combos(&[1000, 2000], &[30], &[20], &[false, true], ScenarioCoverageMode::RiskFirst);
    assert_eq!(
        risk,
        vec![
            combo(1000, 30, 20, true),
            combo(2000, 30, 20, true),
            combo(1000, 30, 20, false),
            combo(2000, 30, 20, false),
        ]
    );
    let boundary = build_scenario_gen_combos(&[1000, 1500, 2000], &[30], &[20], &[false], ScenarioCoverageMode::BoundaryFirst);
    assert_eq!(
        boundary,
        vec![combo(1000, 30, 20, false), combo(2000, 30, 20, false), combo(1500, 30, 20, false)]
    );
}

#[test]
fn templates_are_chosen_by_kind() {
    let meta = |id: &str, kind: &str| ScenarioTemplateMeta {
        id: id.to_string(),
        path: String::new(),
        kind: kind.to_string(),
        description: String::new(),
        parameters: vec![],
    };
    let lib = ScenarioTemplateLibrary {
        schema_version: 1,
        templates: vec![meta("base", "Nominal"), meta("stuck", "FAULT")],
    };
    assert_eq!(select_template_id(&combo(1, 1, 1, true), &lib), "stuck");
    assert_eq!(select_template_id(&combo(1, 1, 1, false), &lib), "base");
    let only = ScenarioTemplateLibrary { schema_version: 1, templates: vec![meta("x", "other")] };
    assert_eq!(select_template_id(&combo(1, 1, 1, true), &only), "x");
    let none = ScenarioTemplateLibrary { schema_version: 1, templates: vec![] };
    assert_eq!(select_template_id(&combo(1, 1, 1, true), &none), "unassigned");
    assert_eq!(doctor_category_from_tag("events[2].at_ms"), "tick_alignment");
    assert_eq!(doctor_category_from_tag("duration_ms"), "tick_alignment");
    assert_eq!(doctor_category_from_tag("scenario.digital_inputs.3"), "device_mapping");
    assert_eq!(doctor_category_from_tag("risk.same_tick"), "same_tick_risk");
    assert_eq!(doctor_category_from_tag("runtime.probe"), "same_tick_risk");
    assert_eq!(doctor_category_from_tag("other"), "general");
}

fn budget() -> RuntimeBudget {
    RuntimeBudget {
        transition_budget_scope: TransitionBudgetScope::PerTaskPerTick,
        max_transitions_per_tick_cap: 4,
        active_task_count: 2,
        max_transitions_all_tasks_per_tick_upper_bound: 8,
        max_transitions_same_tick_upper_bound: 3,
        max_actions_per_transition: 2,
        max_actions_per_tick_upper_bound: 10,
        max_parallel_branches: 3,
        max_race_branches: 2,
        has_same_tick_cycle: false,
        budget_time_estimate: BudgetTimeEstimate {
            action_cost_us: 0,
            transition_cost_us: 0,
            parallel_expand_cost_us: 0,
            action_component_us: 0,
            transition_component_us: 0,
            parallel_component_us: 0,
            total_estimate_us: 0,
            max_allowed_us: 0,
            exceeds_budget: false,
        },
    }
}

#[test]
fn budget_time_is_estimated_from_counts_and_costs() {
    let est = estimate_budget_time(&budget(), &RuntimeBudgetThresholds::default_thresholds());
    assert_eq!(est.action_component_us, 80);
    assert_eq!(est.transition_component_us, 15);
    assert_eq!(est.parallel_component_us, 36);
    assert_eq!(est.total_estimate_us, 131);
    assert_eq!(est.max_allowed_us, 2000);
    assert!(!est.exceeds_budget);
    let tight = estimate_budget_time_values(&budget(), 8, 5, 12, 100);
    assert!(tight.exceeds_budget);
    let huge = estimate_budget_time_values(&budget(), u64::MAX, 1, 1, 10);
    assert_eq!(huge.total_estimate_us, u64::MAX);
    let summary = budget().summary();
    assert_eq!(summary.transition_budget_scope, "per_task_per_tick");
}

#[test]
fn project_names_and_layouts() {
    assert_eq!(prettify_project_name("conveyor_line-2"), "Conveyor Line 2");
    assert_eq!(prettify_project_name("__"), "RustPLC Project");
    assert_eq!(ProjectLayout::parse("single-file"), Ok(ProjectLayout::SingleFile));
    assert_eq!(
        ProjectLayout::parse("flat"),
        Err("Unknown layout `flat` (expected `single-file` or `structured-fragments`)".to_string())
    );
    assert_eq!(DeliveryLayer::parse(DeliveryLayer::Line.cli_name()), Ok(DeliveryLayer::Line));
    assert_eq!(
        DeliveryLayer::parse("cell"),
        Err("Unknown delivery layer `cell` (expected `module`, `station`, or `line`)".to_string())
    );
    assert_eq!(ProjectLayout::StructuredFragments.entry_plc_path(), "rustplc.bundle.toml");
}
