use rust_plc::retain::{
    accept_retain_state, normalize_retain_f32_map, restore_retained_values,
    retain_config_from_entries, RetainConfig, RetainStatePayload,
};
use std::collections::BTreeMap;

fn config() -> RetainConfig {
    retain_config_from_entries(
        1,
        &[("DI1".to_string(), true), ("x2".to_string(), false)],
        &[("ai0".to_string(), 1.5f32.to_bits())],
        &[("y3".to_string(), true)],
        &[],
    )
    .ok()
    .expect("config should read")
}

#[test]
fn retain_config_normalizes_keys() {
    let c = config();
    assert_eq!(c.digital_inputs.get(&1), Some(&true));
    assert_eq!(c.digital_inputs.get(&2), Some(&false));
    assert_eq!(c.analog_inputs.get(&0), Some(&1.5f32.to_bits()));
    assert_eq!(c.digital_outputs.get(&3), Some(&true));
    assert!(c.analog_outputs.is_empty());
    assert!(!c.is_empty());
}

#[test]
fn retain_config_errors() {
    assert_eq!(
        retain_config_from_entries(2, &[], &[], &[], &[]).err(),
        Some("retain config schema_version=2 is unsupported (expected 1)".to_string())
    );
    assert_eq!(
        normalize_retain_f32_map(&[("ai1".to_string(), f32::NAN.to_bits())], &["ai"], "analog_inputs").err(),
        Some("retain analog_inputs.ai1 must be finite".to_string())
    );
    assert_eq!(
        normalize_retain_f32_map(&[("ai1".to_string(), f32::INFINITY.to_bits())], &["ai"], "analog_inputs").err(),
        Some("retain analog_inputs.ai1 must be finite".to_string())
    );
    assert_eq!(
        normalize_retain_f32_map(
            &[("1".to_string(), 0), ("AI1".to_string(), 0)],
            &["ai"],
            "analog_inputs"
        )
        .err(),
        Some("duplicate retain analog_inputs id 1 after key normalization".to_string())
    );
}

fn saved(di: &[(u16, bool)]) -> RetainStatePayload {
    RetainStatePayload {
        schema_version: 1,
        digital_inputs: di.iter().copied().collect::<BTreeMap<u16, bool>>(),
        analog_inputs: BTreeMap::new(),
        digital_outputs: BTreeMap::new(),
        analog_outputs: BTreeMap::new(),
    }
}

#[test]
fn retained_values_override_defaults_of_configured_channels_only() {
    let c = config();
    let s = saved(&[(1, false), (9, true)]);
    let r = restore_retained_values(&c, &s);
    assert_eq!(r.digital_inputs.get(&1), Some(&false));
    assert_eq!(r.digital_inputs.get(&2), Some(&false));
    assert_eq!(r.digital_inputs.get(&9), None);
    assert_eq!(r.digital_outputs.get(&3), Some(&true));
    assert_eq!(r.schema_version, 1);
}

#[test]
fn retain_state_checks_schema_and_checksum() {
    let c = config();
    let s = saved(&[(1, false)]);
    let (p, note) = accept_retain_state(&c, "out/retain_state.json", 2, "abc", &s, Ok("abc".to_string()));
    assert_eq!(note, Some("retain state out/retain_state.json schema_version=2 is unsupported; using config defaults".to_string()));
    assert_eq!(p.digital_inputs.get(&1), Some(&true));
    let (_, note) = accept_retain_state(&c, "r.json", 1, "abc", &s, Ok("abd".to_string()));
    assert_eq!(note, Some("retain checksum mismatch for r.json; using config defaults".to_string()));
    let (_, note) = accept_retain_state(&c, "r.json", 1, "abc", &s, Err("boom".to_string()));
    assert_eq!(note, Some("failed to verify retain checksum for r.json (boom); using config defaults".to_string()));
    let (p, note) = accept_retain_state(&c, "r.json", 1, "abc", &s, Ok("abc".to_string()));
    assert_eq!(note, None);
    assert_eq!(p.digital_inputs.get(&1), Some(&false));
    let mut bad = saved(&[]);
    bad.schema_version = 7;
    let (_, note) = accept_retain_state(&c, "r.json", 1, "abc", &bad, Ok("abc".to_string()));
    assert_eq!(note, Some("retain payload schema_version=7 is unsupported in r.json; using config defaults".to_string()));
}
