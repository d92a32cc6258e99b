use rust_plc::commissioning::{
    check_commissioning_status, commissioning_failure_message, commissioning_plan,
    commissioning_run_status, commissioning_step_result, status_check_from, CommissioningAction,
    CommissioningPaths, ONLINE_FORCE_SCRIPT, RETAIN_CONFIG_BODY,
};

fn paths() -> CommissioningPaths {
    let o = |n: &str| format!("out/{n}");
    CommissioningPaths {
        plc: "demo.plc".to_string(),
        nominal_yaml: o("nominal.yaml"),
        doctor_nominal_json: o("doctor_nominal.json"),
        retain_toml: o("retain.toml"),
        retain_state_json: o("retain_state.json"),
        nominal_trace_jsonl: o("nominal_trace.jsonl"),
        gate_nominal_dir: o("gate_nominal"),
        gate_nominal_json: o("gate_nominal.json"),
        gate_nominal_sil_trace: o("gate_nominal/sil_trace.jsonl"),
        gate_nominal_board_trace: o("gate_nominal/board_trace.jsonl"),
        gate_nominal_diff_report: o("gate_nominal/diff_report.json"),
        gate_nominal_timing_report: o("gate_nominal/timing_report.json"),
        gate_nominal_diagnosis: o("gate_nominal/diagnosis_report.json"),
        fault_yaml: o("fault.yaml"),
        doctor_fault_json: o("doctor_fault.json"),
        online_force_jsonl: o("online_force.jsonl"),
        online_var_jsonl: o("online_var.jsonl"),
        online_var_bindings_toml: o("online_var_bindings.toml"),
        fault_trace_jsonl: o("fault_trace.jsonl"),
        online_force_audit_jsonl: o("online_force_audit.jsonl"),
        online_var_audit_jsonl: o("online_var_audit.jsonl"),
        gate_fault_dir: o("gate_fault"),
        gate_fault_json: o("gate_fault.json"),
        gate_fault_diff_report: o("gate_fault/diff_report.json"),
        gate_fault_diagnosis: o("gate_fault/diagnosis_report.json"),
    }
}

#[test]
fn commissioning_plan_has_ten_steps_in_order() {
    let plan = commissioning_plan("rust-plc", &paths());
    let ids: Vec<&str> = plan.iter().map(|s| s.id).collect();
    assert_eq!(ids, vec!["A1", "A2", "A3", "A4", "A5", "B1", "B2", "B3", "B4", "B5"]);
    assert_eq!(plan[0].title, "Nominal scenario-init");
    assert_eq!(
        plan[0].command,
        "rust-plc scenario-init demo.plc --preset normal --out out/nominal.yaml"
    );
    assert_eq!(plan[0].artifacts, vec!["out/nominal.yaml".to_string()]);
    match &plan[0].action {
        CommissioningAction::RunChild { stdout_capture, status_check, required, .. } => {
            assert!(stdout_capture.is_none());
            assert!(status_check.is_none());
            assert_eq!(required.len(), 1);
            assert_eq!(required[0].missing_message, "Expected nominal scenario output out/nominal.yaml");
        }
        _ => panic!("A1 runs a child"),
    }
    match &plan[1].action {
        CommissioningAction::RunChild { stdout_capture, status_check, .. } => {
            assert_eq!(stdout_capture.as_deref(), Some("out/doctor_nominal.json"));
            let c = status_check.as_ref().unwrap();
            assert_eq!(c.label, "doctor_nominal");
            assert_eq!(c.json_path, "out/doctor_nominal.json");
        }
        _ => panic!("A2 runs a child"),
    }
    assert_eq!(plan[2].command, "write out/retain.toml");
    match &plan[2].action {
        CommissioningAction::WriteFiles { files, error_prefix } => {
            assert_eq!(files.len(), 1);
            assert_eq!(files[0].path, "out/retain.toml");
            assert_eq!(files[0].body, RETAIN_CONFIG_BODY);
            assert!(files[0].body.starts_with("schema_version = 1\n[digital_inputs]\ndi0 = false\n"));
            assert_eq!(error_prefix, "Failed to write retain config out/retain.toml: ");
        }
        _ => panic!("A3 writes a file"),
    }
    assert_eq!(plan[4].artifacts.len(), 6);
    assert_eq!(
        plan[7].command,
        "write out/online_force.jsonl, out/online_var.jsonl, out/online_var_bindings.toml"
    );
    match &plan[7].action {
        CommissioningAction::WriteFiles { files, .. } => {
            assert_eq!(files.len(), 3);
            assert_eq!(files[0].body, ONLINE_FORCE_SCRIPT);
            assert!(files[2].body.contains("gain_k = \"AI0\""));
        }
        _ => panic!("B3 writes files"),
    }
    match &plan[8].action {
        CommissioningAction::RunChild { args, required, .. } => {
            assert_eq!(args.len(), 21);
            assert_eq!(args[10], "--enable-online-force-dev");
            assert_eq!(required.len(), 3);
        }
        _ => panic!("B4 runs a child"),
    }
    assert_eq!(
        plan[9].command,
        "rust-plc no-board-gate demo.plc --scenario out/fault.yaml --out-dir out/gate_fault --output json"
    );
}

#[test]
fn commissioning_status_check_texts() {
    assert_eq!(check_commissioning_status("gate_nominal", "{\"status\":\"pass\"}", "g.json"), Ok(()));
    assert_eq!(
        check_commissioning_status("gate_nominal", "{\"status\":\"fail\"}", "g.json"),
        Err("gate_nominal status must be `pass`, got `fail`".to_string())
    );
    assert_eq!(
        check_commissioning_status("doctor_fault", "{\"status\":3}", "d.json"),
        Err("JSON file d.json is missing string field `status`".to_string())
    );
    let bad = check_commissioning_status("doctor_fault", "not json", "d.json").unwrap_err();
    assert!(bad.starts_with("Failed to parse JSON file d.json: "));
    assert!(bad.len() > "Failed to parse JSON file d.json: ".len());
    assert_eq!(
        status_check_from("x", "p", &Ok(Some("skip".to_string()))),
        Err("x status must be `pass`, got `skip`".to_string())
    );
}

#[test]
fn commissioning_step_outcomes() {
    let plan = commissioning_plan("rust-plc", &paths());
    let a5 = &plan[4].action;
    let pass = Ok("{\"status\":\"pass\"}".to_string());
    assert_eq!(commissioning_step_result(a5, Ok(()), &pass, &[true, true, true, true]), Ok(()));
    assert_eq!(
        commissioning_step_result(a5, Ok(()), &pass, &[true, true, false, false]),
        Err("Missing nominal gate artifact out/gate_nominal/diff_report.json".to_string())
    );
    assert_eq!(
        commissioning_step_result(a5, Err("boom".to_string()), &pass, &[true, true, true, true]),
        Err("boom".to_string())
    );
    let fail = Ok("{\"status\":\"fail\"}".to_string());
    assert_eq!(
        commissioning_step_result(a5, Ok(()), &fail, &[false, false, false, false]),
        Err("gate_nominal status must be `pass`, got `fail`".to_string())
    );
    let a3 = &plan[2].action;
    assert_eq!(
        commissioning_step_result(a3, Err("denied".to_string()), &Err(String::new()), &[]),
        Err("Failed to write retain config out/retain.toml: denied".to_string())
    );
    assert_eq!(commissioning_run_status(&None), "pass");
    assert_eq!(commissioning_run_status(&Some("x".to_string())), "fail");
    assert_eq!(
        commissioning_failure_message("step broke", "out/commissioning_index.json"),
        "commissioning-run failed: step broke (index: out/commissioning_index.json)"
    );
}
