use rust_plc::force_audit::{
    build_online_force_audit, ForceAuditValue, OnlineForceCommand, OnlineForceValue,
};
use rust_plc::online_vars::{
    build_online_variable_audit, online_variable_bindings_from_entries,
    parse_online_variable_binding_channel, resolve_online_variable_channel, BindingChannel,
    OnlineVariableAuditValue, OnlineVariableCommand, OnlineVariableValue,
};
use rust_plc::sim_channels::{OnlineForceChannelKind, OnlineVariableKind};

fn force(at_ms: u64, kind: OnlineForceChannelKind, id: u16, value: Option<OnlineForceValue>) -> OnlineForceCommand {
    OnlineForceCommand {
        at_ms,
        actor: "operator".to_string(),
        source: "hmi".to_string(),
        channel_kind: kind,
        channel_id: id,
        value,
    }
}

#[test]
fn force_audit_reports_previous_and_new_values() {
    let cmds = vec![
        force(0, OnlineForceChannelKind::Di, 3, Some(OnlineForceValue::Digital(true))),
        force(20, OnlineForceChannelKind::Di, 3, Some(OnlineForceValue::Digital(false))),
        force(30, OnlineForceChannelKind::Ai, 1, Some(OnlineForceValue::Analog(1.5f32.to_bits()))),
        force(40, OnlineForceChannelKind::Di, 3, None),
    ];
    let audit = build_online_force_audit(&cmds, 10);
    assert_eq!(audit.len(), 4);
    assert_eq!(audit[0].channel, "di3");
    assert_eq!(audit[0].channel_kind, "digital_input");
    assert_eq!(audit[0].operation, "set");
    assert_eq!(audit[0].from, None);
    assert_eq!(audit[0].to, Some(ForceAuditValue::Digital(true)));
    assert_eq!(audit[1].tick, 2);
    assert_eq!(audit[1].from, Some(ForceAuditValue::Digital(true)));
    assert_eq!(audit[1].to, Some(ForceAuditValue::Digital(false)));
    assert_eq!(audit[2].channel, "ai1");
    assert_eq!(audit[2].to, Some(ForceAuditValue::Analog(1.5f32.to_bits())));
    assert_eq!(audit[3].operation, "clear");
    assert_eq!(audit[3].from, Some(ForceAuditValue::Digital(false)));
    assert_eq!(audit[3].to, None);
    assert_eq!(audit[3].actor, "operator");
    assert_eq!(audit[3].source, "hmi");
}

#[test]
fn force_audit_skips_values_of_the_wrong_type() {
    let cmds = vec![
        force(0, OnlineForceChannelKind::Do, 0, Some(OnlineForceValue::Analog(0))),
        force(5, OnlineForceChannelKind::Ao, 2, Some(OnlineForceValue::Digital(true))),
        force(7, OnlineForceChannelKind::Do, 0, Some(OnlineForceValue::Digital(true))),
    ];
    let audit = build_online_force_audit(&cmds, 0);
    assert_eq!(audit.len(), 1);
    assert_eq!(audit[0].channel, "do0");
    assert_eq!(audit[0].tick, 0);
    assert_eq!(audit[0].from, None);
}

#[test]
fn bindings_parse_integer_and_channel_values() {
    assert_eq!(
        parse_online_variable_binding_channel(&BindingChannel::Integer(7), OnlineVariableKind::Bool, "start").ok(),
        Some(7)
    );
    assert_eq!(
        parse_online_variable_binding_channel(
            &BindingChannel::Text("X12".to_string()),
            OnlineVariableKind::Bool,
            "start"
        )
        .ok(),
        Some(12)
    );
    assert_eq!(
        parse_online_variable_binding_channel(&BindingChannel::Integer(70000), OnlineVariableKind::Real, "temp")
            .err(),
        Some("invalid real binding for `temp`: integer id out of range for u16".to_string())
    );
    assert_eq!(
        parse_online_variable_binding_channel(&BindingChannel::Other, OnlineVariableKind::Real, "temp").err(),
        Some("invalid real binding for `temp`: expected integer id or channel string".to_string())
    );
}

#[test]
fn bindings_reject_bad_schema_empty_names_and_duplicates() {
    let none: Vec<(String, BindingChannel)> = vec![];
    assert_eq!(
        online_variable_bindings_from_entries(2, &none, &none).err(),
        Some("online-variable bindings schema_version=2 is unsupported (expected 1)".to_string())
    );
    let empty_name = vec![("  ".to_string(), BindingChannel::Integer(1))];
    assert_eq!(
        online_variable_bindings_from_entries(1, &empty_name, &none).err(),
        Some("online-variable bool binding name cannot be empty".to_string())
    );
    let dup = vec![
        ("Start".to_string(), BindingChannel::Integer(1)),
        ("start ".to_string(), BindingChannel::Integer(2)),
    ];
    assert_eq!(
        online_variable_bindings_from_entries(1, &none, &dup).err(),
        Some("duplicate REAL binding for `start ` after normalization".to_string())
    );
}

fn var_cmd(at_ms: u64, kind: OnlineVariableKind, name: &str, value: Option<OnlineVariableValue>) -> OnlineVariableCommand {
    OnlineVariableCommand {
        at_ms,
        actor: "tester".to_string(),
        source: "script".to_string(),
        variable_kind: kind,
        variable_name: name.to_string(),
        variable_key: name.trim().to_ascii_lowercase(),
        value,
    }
}

#[test]
fn variable_channels_come_from_bindings_then_from_the_name() {
    let bools = vec![("Start_Button".to_string(), BindingChannel::Text("di4".to_string()))];
    let none: Vec<(String, BindingChannel)> = vec![];
    let bindings = online_variable_bindings_from_entries(1, &bools, &none).ok().expect("bindings");
    let bound = var_cmd(0, OnlineVariableKind::Bool, "start_button", None);
    assert_eq!(resolve_online_variable_channel(&bound, Some(&bindings)).ok(), Some(4));
    let auto = var_cmd(0, OnlineVariableKind::Real, "AI9", None);
    assert_eq!(resolve_online_variable_channel(&auto, Some(&bindings)).ok(), Some(9));
    let missing = var_cmd(0, OnlineVariableKind::Real, "temp", None);
    assert_eq!(
        resolve_online_variable_channel(&missing, None).err(),
        Some("missing REAL binding for variable `temp`; add --online-var-bindings <bindings.toml> or use auto-mappable names (BOOL:DI<n>, REAL:AI<n>)".to_string())
    );
}

#[test]
fn variable_audit_tracks_values_per_variable() {
    let cmds = vec![
        var_cmd(0, OnlineVariableKind::Bool, "di2", Some(OnlineVariableValue::Bool(true))),
        var_cmd(10, OnlineVariableKind::Real, "ai1", Some(OnlineVariableValue::Real(2.0f32.to_bits()))),
        var_cmd(20, OnlineVariableKind::Bool, "di2", Some(OnlineVariableValue::Real(0))),
        var_cmd(30, OnlineVariableKind::Bool, "di2", None),
    ];
    let audit = build_online_variable_audit(&cmds, 10, None).ok().expect("audit");
    assert_eq!(audit.len(), 3);
    assert_eq!(audit[0].variable, "bool:di2");
    assert_eq!(audit[0].bound_channel, Some("di2".to_string()));
    assert_eq!(audit[0].to, Some(OnlineVariableAuditValue::Bool(true)));
    assert_eq!(audit[1].variable_kind, "real");
    assert_eq!(audit[1].bound_channel, Some("ai1".to_string()));
    assert_eq!(audit[2].tick, 3);
    assert_eq!(audit[2].operation, "clear");
    assert_eq!(audit[2].from, Some(OnlineVariableAuditValue::Bool(true)));
    let bad = vec![var_cmd(0, OnlineVariableKind::Bool, "lamp", None)];
    assert!(build_online_variable_audit(&bad, 10, None).is_err());
}
