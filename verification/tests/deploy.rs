use rust_plc::axis_profile::{axis_type_name, AxisDeviceType};
use rust_plc::deployment::{
    child_failure_message, commissioning_command_display, commissioning_step_skipped,
    ensure_trailing_newline, finish_commissioning_step, keypoint_category_priority,
    parse_prefixed_numeric_id, sha256_hex, split_command_prefix, uses_wsl_command_prefix,
    CommissioningStepReport,
};
use rust_plc::perf_bench::parse_usize_arg;

#[test]
fn command_prefixes_split_on_whitespace() {
    assert_eq!(
        split_command_prefix("  wsl picotool  load "),
        Some(("wsl".to_string(), vec!["picotool".to_string(), "load".to_string()]))
    );
    assert_eq!(split_command_prefix("picotool"), None);
    assert!(uses_wsl_command_prefix("WSL picotool"));
    assert!(!uses_wsl_command_prefix("wsl"));
    assert!(!uses_wsl_command_prefix("bash wsl"));
}

#[test]
fn trailing_newline_added_once() {
    assert_eq!(ensure_trailing_newline("a".to_string()), "a\n");
    assert_eq!(ensure_trailing_newline("a\n".to_string()), "a\n");
    assert_eq!(ensure_trailing_newline(String::new()), "\n");
}

#[test]
fn prefixed_ids_parse() {
    assert_eq!(parse_prefixed_numeric_id("DI3", "DI"), Some(3));
    assert_eq!(parse_prefixed_numeric_id("AI3", "DI"), None);
    assert_eq!(parse_prefixed_numeric_id("DI", "DI"), None);
    assert_eq!(parse_prefixed_numeric_id("DI99999", "DI"), None);
}

#[test]
fn sha256_digests_in_lower_hex() {
    assert_eq!(
        sha256_hex(b""),
        "e3b0c44298fc1c149afbf4c8996fb92427ae41e4649b934ca495991b7852b855"
    );
    assert_eq!(
        sha256_hex(b"abc"),
        "ba7816bf8f01cfea414140de5dae2223b00361a396177a9cb410ff61f20015ad"
    );
}

#[test]
fn commissioning_commands_display_with_arguments() {
    assert_eq!(
        commissioning_command_display("tool", &["a".to_string(), "b c".to_string()]),
        "tool a b c"
    );
    assert_eq!(commissioning_command_display("tool", &[]), "tool");
}

#[test]
fn child_failures_name_status_arguments_and_stderr() {
    assert_eq!(
        child_failure_message(Some(2), &["a".to_string(), "b".to_string()], "  boom \n"),
        "Command failed (status Some(2)): a b\nboom"
    );
    assert_eq!(
        child_failure_message(None, &[], "  "),
        "Command failed (status None): "
    );
    assert_eq!(
        child_failure_message(Some(-1), &["x".to_string()], ""),
        "Command failed (status Some(-1)): x"
    );
}

#[test]
fn commissioning_steps_skip_after_a_failure() {
    let mut steps: Vec<CommissioningStepReport> = Vec::new();
    let mut failure: Option<String> = None;
    assert!(!commissioning_step_skipped(&mut steps, &failure, "a", "A", "cmd a".to_string(), vec![]));
    finish_commissioning_step(&mut steps, &mut failure, "a", "A", "cmd a".to_string(), vec![], Ok(()));
    assert_eq!(steps[0].status, "pass");
    assert_eq!(failure, None);
    finish_commissioning_step(
        &mut steps,
        &mut failure,
        "b",
        "B",
        "cmd b".to_string(),
        vec!["out/b.json".to_string()],
        Err("broke".to_string()),
    );
    assert_eq!(steps[1].status, "fail");
    assert_eq!(steps[1].detail, Some("broke".to_string()));
    assert_eq!(failure, Some("broke".to_string()));
    assert!(commissioning_step_skipped(&mut steps, &failure, "c", "C", "cmd c".to_string(), vec![]));
    assert_eq!(steps.len(), 3);
    assert_eq!(steps[2].status, "skipped");
    assert_eq!(
        steps[2].detail,
        Some("Skipped because an earlier commissioning step failed".to_string())
    );
}

#[test]
fn keypoint_priorities() {
    assert_eq!(keypoint_category_priority("sensor_event"), 1);
    assert_eq!(keypoint_category_priority("fault_planned"), 2);
    assert_eq!(keypoint_category_priority("fault_activated"), 3);
    assert_eq!(keypoint_category_priority("fault_expired"), 4);
    assert_eq!(keypoint_category_priority("diagnosis_fault_context_end"), 5);
    assert_eq!(keypoint_category_priority("misc"), 6);
}

#[test]
fn usize_arguments_parse() {
    assert_eq!(parse_usize_arg(Some("42".to_string()), "--iters"), Ok(42));
    assert_eq!(
        parse_usize_arg(None, "--iters"),
        Err("missing value for --iters".to_string())
    );
    assert_eq!(
        parse_usize_arg(Some("x1".to_string()), "--iters"),
        Err("invalid integer for --iters: `x1`".to_string())
    );
}

#[test]
fn axis_type_names() {
    assert_eq!(axis_type_name(&AxisDeviceType::StepperMotor), "stepper_motor");
    assert_eq!(axis_type_name(&AxisDeviceType::ServoDrive), "servo_drive");
}

#[test]
fn release_artifact_lists_digest_and_size() {
    let a = rust_plc::deployment::release_bundle_artifact("trace.jsonl", b"abc");
    assert_eq!(a.path, "trace.jsonl");
    assert_eq!(a.sha256, "ba7816bf8f01cfea414140de5dae2223b00361a396177a9cb410ff61f20015ad");
    assert_eq!(a.size_bytes, 3);
}
