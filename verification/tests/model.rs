use rust_plc::ast::{
    VariableDeclaration, VariableType, WorkpieceHolderDeclaration, WorkpieceSiteDeclaration,
    WorkpieceSiteKind, WorkpieceTypeDeclaration,
};
use rust_plc::flowchart_model::{
    assemble_task_diagrams, build_flowchart_artifact, edge_label, edge_summary, summarize_topology,
};
use rust_plc::flowchart_render::{EdgeSummary, StepSummary};
use rust_plc::keypoints::{order_component_keypoints, ComponentKeypoint};

fn strings(v: &[&str]) -> Vec<String> {
    v.iter().map(|s| s.to_string()).collect()
}

fn program_step(task: &str, step: &str, statement: &str) -> StepSummary {
    StepSummary {
        task_name: task.to_string(),
        step_name: step.to_string(),
        source: Some("main.plc".to_string()),
        line: Some(3),
        generated: false,
        statements: strings(&[statement]),
    }
}

fn edge(from_task: &str, from_step: &str, to_step: &str) -> EdgeSummary {
    edge_summary(
        from_task.to_string(),
        from_step.to_string(),
        from_task.to_string(),
        to_step.to_string(),
        "always".to_string(),
        vec![],
        vec![],
    )
}

#[test]
fn edge_labels_join_guard_and_first_facts() {
    assert_eq!(edge_label("always", &vec![], &vec![]), "next");
    assert_eq!(
        edge_label("timeout 5s", &strings(&["set a", "set b", "set c"]), &strings(&["move x"])),
        "timeout 5s; set a; set b; move x"
    );
    assert_eq!(edge_label("always", &strings(&["set a"]), &vec![]), "set a");
    let e = edge_summary(
        "main".to_string(),
        "a".to_string(),
        "main".to_string(),
        "b".to_string(),
        "di0 == true".to_string(),
        vec![],
        strings(&["spawn part"]),
    );
    assert_eq!(e.label, "di0 == true; spawn part");
    assert_eq!(e.guard, "di0 == true");
}

#[test]
fn diagrams_list_tasks_in_name_order_with_generated_steps_last() {
    let task_names = strings(&["main", "aux"]);
    let steps = vec![
        program_step("main", "idle", "wait start"),
        program_step("main", "run", "set motor"),
        program_step("aux", "watch", "wait sensor"),
    ];
    let states = vec![
        ("main".to_string(), "run".to_string()),
        ("main".to_string(), "zz_done".to_string()),
        ("main".to_string(), "idle".to_string()),
        ("main".to_string(), "a_join".to_string()),
        ("extra".to_string(), "s".to_string()),
    ];
    let edges = vec![edge("main", "idle", "run"), edge("aux", "watch", "watch"), edge("main", "run", "idle")];
    let diagrams = assemble_task_diagrams(&task_names, &steps, &states, &edges);
    let names: Vec<&str> = diagrams.iter().map(|d| d.task_name.as_str()).collect();
    assert_eq!(names, vec!["aux", "extra", "main"]);
    let main = &diagrams[2];
    let step_names: Vec<&str> = main.steps.iter().map(|s| s.step_name.as_str()).collect();
    assert_eq!(step_names, vec!["idle", "run", "a_join", "zz_done"]);
    assert!(!main.steps[0].generated);
    assert_eq!(main.steps[1].statements, strings(&["set motor"]));
    assert!(main.steps[2].generated);
    assert_eq!(main.steps[2].statements, strings(&["generated semantic state"]));
    assert_eq!(main.steps[2].source, None);
    assert_eq!(main.transitions.len(), 2);
    assert_eq!(main.transitions[1].from_step, "run");
    let extra = &diagrams[1];
    assert_eq!(extra.steps.len(), 1);
    assert!(extra.steps[0].generated);
    assert!(extra.transitions.is_empty());
}

fn kp(tick: u64, category: &str, label: &str) -> ComponentKeypoint {
    ComponentKeypoint {
        tick,
        at_ms: tick * 10,
        category: category.to_string(),
        source: "scenario".to_string(),
        label: label.to_string(),
    }
}

#[test]
fn keypoints_are_deduplicated_and_ordered() {
    let cands = vec![
        kp(5, "fault_expired", "fault `stuck` expired on `m1`"),
        kp(2, "diagnosis_fault_context_start", "m1 (CSIM-1)"),
        kp(2, "switch_event", "switch `s1` -> true"),
        kp(5, "fault_expired", "fault `stuck` expired on `m1`"),
        kp(2, "fault_planned", "fault `stuck` on `m1`"),
        kp(2, "sensor_event", "sensor `b` -> false"),
    ];
    let out = order_component_keypoints(&cands);
    let labels: Vec<(u64, &str)> = out.iter().map(|k| (k.tick, k.label.as_str())).collect();
    assert_eq!(
        labels,
        vec![
            (2, "sensor `b` -> false"),
            (2, "switch `s1` -> true"),
            (2, "fault `stuck` on `m1`"),
            (2, "m1 (CSIM-1)"),
            (5, "fault `stuck` expired on `m1`"),
        ]
    );
    assert_eq!(out[0].at_ms, 20);
}

#[test]
fn topology_summary_sorts_links_once_and_formats_declarations() {
    let links = strings(&["valve -> pipe (Drives)", "motor -> belt (Drives)", "valve -> pipe (Drives)"]);
    let vars = vec![VariableDeclaration {
        line: 1,
        name: "count".to_string(),
        var_type: VariableType::Int,
        initial_value: "0".to_string(),
    }];
    let sites = vec![WorkpieceSiteDeclaration {
        line: 2,
        name: "inbox".to_string(),
        kind: WorkpieceSiteKind::CarrierLocation,
        capacity: 4,
    }];
    let holders = vec![WorkpieceHolderDeclaration { line: 3, name: "gripper".to_string(), capacity: 1 }];
    let types = vec![WorkpieceTypeDeclaration {
        line: 4,
        name: "part".to_string(),
        properties: vec![],
        normal_terminal_states: vec![],
        abnormal_terminal_states: vec![],
        ingress_sites: vec![],
        normal_egress_sites: vec![],
        abnormal_egress_sites: vec![],
        allows: vec![],
        derived_from: vec![],
    }];
    let t = summarize_topology(3, &links, &vars, &sites, &holders, &types);
    assert_eq!(t.device_count, 3);
    assert_eq!(t.links, strings(&["motor -> belt (Drives)", "valve -> pipe (Drives)"]));
    assert_eq!(t.link_count, 2);
    assert_eq!(t.variables, strings(&["count:Int=0"]));
    assert_eq!(t.workpiece_sites, strings(&["inbox:CarrierLocation:capacity=4"]));
    assert_eq!(t.workpiece_holders, strings(&["gripper:capacity=1"]));
    assert_eq!(t.workpiece_types, strings(&["part"]));
    let steps = vec![program_step("main", "idle", "wait start")];
    let art = build_flowchart_artifact(
        "line.plc".to_string(),
        "Line".to_string(),
        &strings(&["main"]),
        &steps,
        &[],
        &[],
        t,
    );
    assert_eq!(art.schema_version, 1);
    assert_eq!(art.tasks.len(), 1);
    assert_eq!(art.tasks[0].steps[0].step_name, "idle");
}
