use rust_plc::sim_channels::{
    feedback_template_hint_for_failure_kind, normalize_online_variable_name,
    normalize_retain_bool_map, online_var_binding_schema_version,
    parse_auto_online_variable_channel_id, parse_online_force_channel,
    parse_online_variable_target, parse_retain_channel_id, retain_schema_version,
    OnlineForceChannelKind, OnlineVariableKind,
};

#[test]
fn force_channels_parse_kind_and_id() {
    assert_eq!(parse_online_force_channel("DI3"), Ok((OnlineForceChannelKind::Di, 3)));
    assert_eq!(parse_online_force_channel(" ao12 "), Ok((OnlineForceChannelKind::Ao, 12)));
    assert_eq!(parse_online_force_channel("Do+7"), Ok((OnlineForceChannelKind::Do, 7)));
    assert_eq!(parse_online_force_channel("ai65535"), Ok((OnlineForceChannelKind::Ai, 65535)));
}

#[test]
fn force_channels_report_each_error() {
    assert_eq!(
        parse_online_force_channel("xx1"),
        Err("invalid channel `xx1` (expected DI<n>/AI<n>/DO<n>/AO<n>)".to_string())
    );
    assert_eq!(
        parse_online_force_channel(" DI "),
        Err("invalid channel ` DI ` (missing numeric id after kind prefix)".to_string())
    );
    assert_eq!(
        parse_online_force_channel("DI70000"),
        Err("invalid channel `DI70000` (id must be u16)".to_string())
    );
}

#[test]
fn force_kind_names() {
    assert_eq!(OnlineForceChannelKind::Ai.label(), "analog_input");
    assert_eq!(OnlineForceChannelKind::Do.short(), "do");
    assert_eq!(OnlineVariableKind::Real.label(), "real");
}

#[test]
fn variable_targets_parse_kind_and_name() {
    assert_eq!(
        parse_online_variable_target("BOOL:start_button"),
        Ok((OnlineVariableKind::Bool, "start_button".to_string()))
    );
    assert_eq!(
        parse_online_variable_target(" Float : tank.level-1 "),
        Ok((OnlineVariableKind::Real, "tank.level-1".to_string()))
    );
}

#[test]
fn variable_targets_report_each_error() {
    assert_eq!(
        parse_online_variable_target("start"),
        Err("invalid variable `start` (expected BOOL:<name> or REAL:<name>)".to_string())
    );
    assert_eq!(
        parse_online_variable_target("int:x"),
        Err("invalid variable `int:x` (unknown type prefix `int`; expected BOOL or REAL)".to_string())
    );
    assert_eq!(
        parse_online_variable_target("bool:  "),
        Err("invalid variable `bool:  ` (name cannot be empty)".to_string())
    );
    assert_eq!(
        parse_online_variable_target("bool:a b"),
        Err("invalid variable `bool:a b` (name must contain only [A-Za-z0-9_.-])".to_string())
    );
}

#[test]
fn variable_names_normalize() {
    assert_eq!(normalize_online_variable_name("  Start_Button "), "start_button");
    assert_eq!(online_var_binding_schema_version(), 1);
    assert_eq!(retain_schema_version(), 1);
}

#[test]
fn retain_channel_ids_parse() {
    let prefixes = ["di", "x"];
    assert_eq!(parse_retain_channel_id("12", &prefixes), Ok(12));
    assert_eq!(parse_retain_channel_id(" DI7 ", &prefixes), Ok(7));
    assert_eq!(parse_retain_channel_id("X5", &prefixes), Ok(5));
    assert_eq!(
        parse_retain_channel_id("  ", &prefixes),
        Err("channel id key cannot be empty".to_string())
    );
    assert_eq!(
        parse_retain_channel_id("diabc", &prefixes),
        Err("invalid retain channel key `diabc` (expected <id> or di<id>)".to_string())
    );
    assert_eq!(
        parse_retain_channel_id("y3", &prefixes),
        Err("invalid retain channel key `y3` (expected prefixes [\"di\", \"x\"] + integer id)".to_string())
    );
}

#[test]
fn auto_variable_channels_follow_kind() {
    assert_eq!(parse_auto_online_variable_channel_id(OnlineVariableKind::Bool, "x3"), Some(3));
    assert_eq!(parse_auto_online_variable_channel_id(OnlineVariableKind::Real, "x3"), None);
    assert_eq!(parse_auto_online_variable_channel_id(OnlineVariableKind::Real, "ai4"), Some(4));
}

#[test]
fn retain_maps_normalize_keys() {
    let prefixes = ["di", "x"];
    let ok = normalize_retain_bool_map(
        &[("DI1".to_string(), true), ("x2".to_string(), false)],
        &prefixes,
        "digital_inputs",
    )
    .expect("valid keys");
    assert_eq!(ok.len(), 2);
    assert_eq!(ok.get(&1), Some(&true));
    assert_eq!(ok.get(&2), Some(&false));

    let dup = normalize_retain_bool_map(
        &[("1".to_string(), true), ("di1".to_string(), false)],
        &prefixes,
        "digital_inputs",
    );
    assert_eq!(
        dup,
        Err("duplicate retain digital_inputs id 1 after key normalization".to_string())
    );

    let bad = normalize_retain_bool_map(&[("q".to_string(), true)], &prefixes, "digital_inputs");
    assert_eq!(
        bad,
        Err("invalid digital_inputs key `q`: invalid retain channel key `q` (expected prefixes [\"di\", \"x\"] + integer id)".to_string())
    );
}

#[test]
fn feedback_hints_by_failure_kind() {
    assert_eq!(feedback_template_hint_for_failure_kind("timeout"), "fault_sensor_stuck");
    assert_eq!(feedback_template_hint_for_failure_kind("scenario_error"), "nominal_cycle");
    assert_eq!(feedback_template_hint_for_failure_kind("other"), "risk_gate_probe");
}
