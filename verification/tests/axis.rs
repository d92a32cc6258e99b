use rust_plc::axis_profile::{
    axis_type_name, resolve_axis_param_set, resolve_axis_refs, AxisCatalog, AxisConfigEntry,
    AxisDeviceRefs, AxisDeviceType, AxisFamilyEntry, AxisModelEntry, AxisParamSetEntry,
};

fn s(v: &str) -> String {
    v.to_string()
}

fn catalog() -> AxisCatalog {
    AxisCatalog {
        motor_classes: vec![s("stepper_basic")],
        families: vec![AxisFamilyEntry { name: s("nema_family"), motor_class_id: s("stepper_basic") }],
        models: vec![
            AxisModelEntry {
                name: s("stepper_generic"),
                device_type: s("stepper_motor"),
                family_id: s("nema_family"),
                position_unit: s("pulse"),
            },
            AxisModelEntry {
                name: s("servo_generic"),
                device_type: s("servo_drive"),
                family_id: s("nema_family"),
                position_unit: s("deg"),
            },
        ],
        configs: vec![AxisConfigEntry {
            name: s("stepper_default"),
            model_id: s("stepper_generic"),
            position_unit: s("pulse"),
        }],
        param_sets: vec![AxisParamSetEntry { name: s("stepper_pick"), config_id: s("stepper_default") }],
    }
}

fn device(model_ref: Option<&str>, config_ref: Option<&str>) -> AxisDeviceRefs {
    AxisDeviceRefs {
        name: s("axis_x"),
        device_type: AxisDeviceType::StepperMotor,
        inline_params: vec![],
        model_ref: model_ref.map(s),
        config_ref: config_ref.map(s),
        motion_param_set: None,
    }
}

fn message_of(d: &AxisDeviceRefs, c: &AxisCatalog) -> String {
    match resolve_axis_refs(d, c) {
        Ok(_) => panic!("expected the device to be refused"),
        Err(e) => e.message,
    }
}

#[test]
fn axis_type_names_are_the_file_spelling() {
    assert_eq!(axis_type_name(&AxisDeviceType::StepperMotor), "stepper_motor");
    assert_eq!(axis_type_name(&AxisDeviceType::ServoDrive), "servo_drive");
}

#[test]
fn axis_refs_resolve_through_model_config_family_and_class() {
    let c = catalog();
    let d = device(Some(" stepper_generic "), Some("stepper_default"));
    let chain = resolve_axis_refs(&d, &c).ok().expect("refs should resolve");
    assert_eq!(chain.model_ref, "stepper_generic");
    assert_eq!(chain.config_ref, "stepper_default");
    assert_eq!(chain.model, 0);
    assert_eq!(chain.config, 0);
    assert_eq!(chain.family, 0);
    assert_eq!(chain.motor_class, 0);
}

#[test]
fn axis_refs_missing_model_ref() {
    let c = catalog();
    let d = device(None, Some("stepper_default"));
    let e = resolve_axis_refs(&d, &c).err().expect("missing model_ref");
    assert_eq!(e.message, "[AXP-001] axis device 'axis_x' is missing model_ref.");
    assert_eq!(e.reason, "请在轴设备上声明 model_ref: \"<axis_model_name>\"。");
    let blank = device(Some("   "), Some("stepper_default"));
    assert_eq!(message_of(&blank, &c), "[AXP-001] axis device 'axis_x' is missing model_ref.");
}

#[test]
fn axis_refs_missing_config_ref() {
    let c = catalog();
    let d = device(Some("stepper_generic"), None);
    assert_eq!(message_of(&d, &c), "[AXP-002] axis device 'axis_x' is missing config_ref.");
}

#[test]
fn axis_refs_unknown_model_and_config() {
    let c = catalog();
    let d = device(Some("not_found_model"), Some("stepper_default"));
    let e = resolve_axis_refs(&d, &c).err().expect("unknown model");
    assert_eq!(
        e.message,
        "[AXP-003] axis model 'not_found_model' referenced by 'axis_x' is not found."
    );
    assert_eq!(e.reason, "请在 axis_models/not_found_model.toml 中定义该型号，或修正 model_ref。");
    let d = device(Some("stepper_generic"), Some("not_found_config"));
    assert_eq!(
        message_of(&d, &c),
        "[AXP-004] axis config 'not_found_config' referenced by 'axis_x' is not found."
    );
}

#[test]
fn axis_refs_model_type_mismatch() {
    let c = catalog();
    let d = device(Some("servo_generic"), Some("stepper_default"));
    assert_eq!(
        message_of(&d, &c),
        "[AXP-003] model 'servo_generic' type mismatch for 'axis_x': expected stepper_motor, got servo_drive."
    );
}

#[test]
fn axis_refs_inline_params_are_listed_sorted() {
    let c = catalog();
    let mut d = device(Some("stepper_generic"), Some("stepper_default"));
    d.inline_params = vec![s("max_speed"), s("accel"), s("jerk")];
    assert_eq!(
        message_of(&d, &c),
        "[AXP-006] axis device 'axis_x' no longer accepts inline axis params: accel, jerk, max_speed"
    );
}

#[test]
fn axis_refs_unknown_family_and_motor_class() {
    let mut c = catalog();
    c.models[0].family_id = s("ghost_family");
    let d = device(Some("stepper_generic"), Some("stepper_default"));
    let e = resolve_axis_refs(&d, &c).err().expect("unknown family");
    assert_eq!(
        e.message,
        "[AXP-007] axis model 'stepper_generic' references unknown family_id 'ghost_family' for 'axis_x'."
    );
    assert_eq!(e.reason, "请在 axis_families/ghost_family.toml 中定义该 family，或修正 model.family_id。");
    let mut c = catalog();
    c.motor_classes = vec![s("servo_basic")];
    assert_eq!(
        message_of(&d, &c),
        "[AXP-008] axis family 'nema_family' references unknown motor_class_id 'stepper_basic' for 'axis_x'."
    );
}

#[test]
fn axis_refs_unit_and_binding_mismatch() {
    let mut c = catalog();
    c.configs[0].position_unit = s("mm");
    let d = device(Some("stepper_generic"), Some("stepper_default"));
    assert_eq!(
        message_of(&d, &c),
        "[AXP-005] axis unit mismatch on 'axis_x': model 'stepper_generic' uses pulse, config 'stepper_default' uses mm."
    );
    let mut c = catalog();
    c.configs[0].model_id = s("other_model");
    assert_eq!(
        message_of(&d, &c),
        "[AXP-009] axis config 'stepper_default' is bound to model 'other_model' but 'axis_x' uses model_ref 'stepper_generic'."
    );
}

#[test]
fn axis_param_set_resolution() {
    let c = catalog();
    let mut d = device(Some("stepper_generic"), Some("stepper_default"));
    assert_eq!(resolve_axis_param_set(&d, &c, "stepper_default").ok(), Some(None));
    d.motion_param_set = Some(s("stepper_pick"));
    assert_eq!(resolve_axis_param_set(&d, &c, "stepper_default").ok(), Some(Some(0)));
    let e = resolve_axis_param_set(&d, &c, "other_config").err().expect("bound to another config");
    assert_eq!(
        e.message,
        "[AXP-010] motion_param_set 'stepper_pick' is bound to config 'stepper_default' but 'axis_x' uses config_ref 'other_config'."
    );
    d.motion_param_set = Some(s("fast_pick"));
    let e = resolve_axis_param_set(&d, &c, "stepper_default").err().expect("unknown set");
    assert_eq!(
        e.message,
        "[AXP-010] axis device 'axis_x' references unknown motion_param_set 'fast_pick'."
    );
}
