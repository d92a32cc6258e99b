use rust_plc::budget_analysis::{
    analyze_program_budget_facts, analyze_runtime_budget, axis_move_migration_notice,
    guard_can_fire_same_tick, statement_includes_axis_move, tally_statements, GuardShape,
    MachineTransition, StateKey, StateMachineShape, StatementShape, StepShape, TaskShape,
    AXIS_BLOCKING_MIGRATION_WARNING_CODE,
};
use rust_plc::compile_checks::{
    apply_runtime_budget_warnings, collect_blocking_warnings, warning_level_label,
    RuntimeBudgetEnv, RuntimeBudgetThresholds, WarningEntry, WarningLevel,
};

fn action() -> StatementShape {
    StatementShape::Action { axis_move: false }
}

fn axis_move() -> StatementShape {
    StatementShape::Action { axis_move: true }
}

fn step(name: &str, statements: Vec<StatementShape>) -> StepShape {
    StepShape { name: name.to_string(), statements }
}

fn key(task: &str, step: &str) -> StateKey {
    StateKey { task_name: task.to_string(), step_name: step.to_string() }
}

fn tr(task: &str, from: &str, to: &str, guard: GuardShape) -> MachineTransition {
    MachineTransition { from: key(task, from), to: key(task, to), guard }
}

#[test]
fn statement_tally_counts_nested_actions_and_branches() {
    let stmts = vec![
        action(),
        StatementShape::Repeat(vec![action(), action()]),
        StatementShape::Parallel(vec![vec![action()], vec![], vec![StatementShape::Race(vec![vec![action()], vec![]])]]),
        StatementShape::Other,
    ];
    assert_eq!(tally_statements(&stmts), (5, 3, 2));
    let tasks = vec![
        TaskShape { name: "main".to_string(), steps: vec![step("a", stmts), step("b", vec![action()])] },
        TaskShape { name: "aux".to_string(), steps: vec![step("c", vec![StatementShape::Race(vec![vec![], vec![], vec![], vec![]])])] },
    ];
    assert_eq!(analyze_program_budget_facts(&tasks), (5, 3, 4));
}

#[test]
fn axis_moves_are_found_in_nested_blocks() {
    assert!(statement_includes_axis_move(&StatementShape::Parallel(vec![vec![], vec![StatementShape::Repeat(vec![axis_move()])]])));
    assert!(!statement_includes_axis_move(&StatementShape::Race(vec![vec![action()]])));
}

#[test]
fn axis_move_notice_names_mixed_steps() {
    let tasks = vec![TaskShape {
        name: "main".to_string(),
        steps: vec![
            step("only_move", vec![axis_move(), StatementShape::AllowIndefiniteWait]),
            step("mixed", vec![axis_move(), action()]),
            step("plain", vec![action(), action()]),
        ],
    }];
    assert_eq!(
        axis_move_migration_notice(&tasks),
        Some("migration notice: axis.move_* now executes with default blocking semantics. Detected main.mixed (1 step(s) total) mixing axis.move_* with other statements inside one step; runtime ordering may differ from older non-blocking assumptions.".to_string())
    );
    let many: Vec<StepShape> = (0..5).map(|i| step(&format!("s{i}"), vec![axis_move(), action()])).collect();
    let tasks = vec![TaskShape { name: "t".to_string(), steps: many }];
    let notice = axis_move_migration_notice(&tasks).expect("notice");
    assert!(notice.contains("Detected t.s0, t.s1, t.s2 and 2 more step(s) mixing"));
    assert_eq!(AXIS_BLOCKING_MIGRATION_WARNING_CODE, "MIG-AXIS-BLOCK-001");
    let quiet = vec![TaskShape { name: "t".to_string(), steps: vec![step("a", vec![action(), action()])] }];
    assert_eq!(axis_move_migration_notice(&quiet), None);
}

#[test]
fn same_tick_guards() {
    assert!(guard_can_fire_same_tick(&GuardShape::Always));
    assert!(guard_can_fire_same_tick(&GuardShape::Condition));
    assert!(guard_can_fire_same_tick(&GuardShape::Timeout { duration_ms: 0 }));
    assert!(!guard_can_fire_same_tick(&GuardShape::Delay { duration_ms: 10 }));
}

#[test]
fn runtime_budget_of_a_chain_and_of_a_cycle() {
    let tasks = vec![TaskShape { name: "main".to_string(), steps: vec![step("a", vec![action(), action(), action()])] }];
    let chain = StateMachineShape {
        task_contexts: vec!["main".to_string()],
        states: vec![key("main", "a"), key("main", "b"), key("main", "c")],
        transitions: vec![
            tr("main", "a", "b", GuardShape::Always),
            tr("main", "b", "c", GuardShape::Condition),
            tr("main", "c", "a", GuardShape::Delay { duration_ms: 100 }),
        ],
    };
    let b = analyze_runtime_budget(&tasks, &chain, 8);
    assert!(!b.has_same_tick_cycle);
    assert_eq!(b.active_task_count, 1);
    assert_eq!(b.max_transitions_per_tick_cap, 8);
    assert_eq!(b.max_transitions_all_tasks_per_tick_upper_bound, 8);
    assert_eq!(b.max_transitions_same_tick_upper_bound, 2);
    assert_eq!(b.max_actions_per_transition, 3);
    assert_eq!(b.max_actions_per_tick_upper_bound, 24);
    assert_eq!(b.budget_time_estimate.total_estimate_us, 24 * 8 + 2 * 5);
    let cycle = StateMachineShape {
        task_contexts: vec![],
        states: vec![key("main", "a"), key("main", "b"), key("aux", "x")],
        transitions: vec![
            tr("main", "a", "b", GuardShape::Always),
            tr("main", "b", "a", GuardShape::Timeout { duration_ms: 0 }),
        ],
    };
    let b = analyze_runtime_budget(&tasks, &cycle, 8);
    assert!(b.has_same_tick_cycle);
    assert_eq!(b.active_task_count, 2);
    assert_eq!(b.max_transitions_all_tasks_per_tick_upper_bound, 16);
    assert_eq!(b.max_transitions_same_tick_upper_bound, 8);
}

#[test]
fn compile_thresholds_read_their_overrides() {
    let d = RuntimeBudgetThresholds::default();
    assert_eq!(d.max_actions_per_transition, 16);
    assert_eq!(d.max_budget_time_estimate_us, 2_000);
    let env = RuntimeBudgetEnv {
        max_actions_per_transition: Some("4".to_string()),
        max_actions_per_tick: Some("many".to_string()),
        max_parallel_branches: None,
        max_race_branches: Some("+3".to_string()),
        warn_on_same_tick_cycle: Some("false".to_string()),
        action_cost_us: Some("-1".to_string()),
        transition_cost_us: None,
        parallel_expand_cost_us: None,
        max_time_estimate_us: Some("100".to_string()),
    };
    let t = RuntimeBudgetThresholds::from_settings(&env);
    assert_eq!(t.max_actions_per_transition, 4);
    assert_eq!(t.max_actions_per_tick_upper_bound, 512);
    assert_eq!(t.max_parallel_branches, 8);
    assert_eq!(t.max_race_branches, 3);
    assert!(!t.warn_on_same_tick_cycle);
    assert_eq!(t.action_cost_us, 8);
    assert_eq!(t.max_budget_time_estimate_us, 100);
}

#[test]
fn budget_warnings_name_each_exceeded_limit() {
    let tasks = vec![TaskShape {
        name: "main".to_string(),
        steps: vec![step("a", vec![action(), action(), action()])],
    }];
    let cycle = StateMachineShape {
        task_contexts: vec![],
        states: vec![key("main", "a")],
        transitions: vec![tr("main", "a", "a", GuardShape::Always)],
    };
    let mut b = analyze_runtime_budget(&tasks, &cycle, 4);
    let mut t = RuntimeBudgetThresholds::default();
    t.max_actions_per_transition = 2;
    t.max_budget_time_estimate_us = 10;
    let warnings = apply_runtime_budget_warnings(&mut b, &t);
    let messages: Vec<&str> = warnings.iter().map(|w| w.message.as_str()).collect();
    assert_eq!(
        messages,
        vec![
            "runtime budget: max_actions_per_transition=3 exceeds threshold 2",
            "runtime budget: same-tick transition subgraph contains a cycle; runtime-core caps chaining to 4 transitions per task per tick (active_tasks=1)",
            "runtime budget time estimate: total_estimate_us=116 exceeds threshold 10",
        ]
    );
    assert!(warnings.iter().all(|w| w.code.is_none() && w.level == WarningLevel::Warn));
}

#[test]
fn blocking_warnings_skip_info_entries() {
    let entry = |code: Option<&str>, level: WarningLevel, message: &str| WarningEntry {
        code: code.map(|c| c.to_string()),
        level,
        message: message.to_string(),
    };
    let safety = vec![entry(None, WarningLevel::Info, "fine"), entry(Some("S-1"), WarningLevel::Error, "bad")];
    let timing = vec![entry(None, WarningLevel::Warn, "slow")];
    let lines = collect_blocking_warnings(&safety, &[], &timing, &[]);
    assert_eq!(lines, vec!["[safety] ERROR (S-1): bad".to_string(), "[timing] WARN: slow".to_string()]);
    assert_eq!(warning_level_label(&WarningLevel::Info), "INFO");
}
