use rust_plc::compile_args::{parse_compile_args, CompileArgsError};
use rust_plc::compile_checks::RuntimeBudgetThresholds;

fn parse(v: &[&str]) -> Result<rust_plc::compile_args::CompileOptions, CompileArgsError> {
    let args: Vec<String> = v.iter().map(|s| s.to_string()).collect();
    parse_compile_args(&args, RuntimeBudgetThresholds::default())
}

#[test]
fn compile_args_defaults_keep_the_given_thresholds() {
    let o = parse(&[]).expect("no options");
    assert_eq!(o.report_path, None);
    assert!(!o.no_print_ir && !o.deny_warnings);
    assert_eq!(o.thresholds, RuntimeBudgetThresholds::default());
}

#[test]
fn compile_args_override_thresholds() {
    let o = parse(&[
        "--report",
        "r.json",
        "--no-print-ir",
        "--ir-out",
        "ir.json",
        "--deny-warnings",
        "--budget-max-actions-per-transition",
        "4",
        "--budget-max-actions-per-tick",
        "64",
        "--budget-max-parallel-branches",
        "2",
        "--budget-max-race-branches",
        "3",
        "--budget-warn-on-same-tick-cycle",
        "false",
        "--budget-action-cost-us",
        "9",
        "--budget-transition-cost-us",
        "6",
        "--budget-parallel-expand-cost-us",
        "13",
        "--budget-max-time-estimate-us",
        "1500",
    ])
    .expect("options");
    assert_eq!(o.report_path.as_deref(), Some("r.json"));
    assert_eq!(o.ir_out_path.as_deref(), Some("ir.json"));
    assert!(o.no_print_ir && o.deny_warnings);
    assert_eq!(
        o.thresholds,
        RuntimeBudgetThresholds {
            max_actions_per_transition: 4,
            max_actions_per_tick_upper_bound: 64,
            max_parallel_branches: 2,
            max_race_branches: 3,
            warn_on_same_tick_cycle: false,
            action_cost_us: 9,
            transition_cost_us: 6,
            parallel_expand_cost_us: 13,
            max_budget_time_estimate_us: 1500,
        }
    );
}

#[test]
fn compile_args_errors() {
    assert_eq!(
        parse(&["--report"]),
        Err(CompileArgsError::Message("Missing value for --report <file>".to_string()))
    );
    assert_eq!(
        parse(&["--budget-max-race-branches", "many"]),
        Err(CompileArgsError::Message("Invalid integer for --budget-max-race-branches: many".to_string()))
    );
    assert_eq!(
        parse(&["--budget-action-cost-us"]),
        Err(CompileArgsError::Message("Missing value for --budget-action-cost-us <n>".to_string()))
    );
    assert_eq!(
        parse(&["--budget-warn-on-same-tick-cycle", "yes"]),
        Err(CompileArgsError::Message(
            "Invalid boolean for --budget-warn-on-same-tick-cycle: yes".to_string()
        ))
    );
    assert_eq!(parse(&["--no-print-ir", "-h"]), Err(CompileArgsError::Help));
    assert_eq!(parse(&["--verbose"]), Err(CompileArgsError::Unknown("--verbose".to_string())));
}
