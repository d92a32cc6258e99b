use rust_plc::io_map::{
    normalize_io_map, normalize_io_section, IoMapDocument, IoMapEntry, IoMapSection, IoMapValue,
    LogicalChannelKind,
};

fn native(key: &str, gpio: i64) -> IoMapEntry {
    IoMapEntry {
        key: key.to_string(),
        value: IoMapValue::Integer(gpio),
        iec: Err("not an IEC address".to_string()),
    }
}

fn iec(key: &str, gpio: i64, kind: LogicalChannelKind, id: u16) -> IoMapEntry {
    IoMapEntry { key: key.to_string(), value: IoMapValue::Integer(gpio), iec: Ok((kind, id)) }
}

#[test]
fn io_section_merges_native_and_iec_keys_in_id_order() {
    let entries = vec![
        iec("%IX0.2", 17, LogicalChannelKind::DigitalInput, 2),
        native("di10", 4),
        native("di2", 17),
        native("di0", 5),
    ];
    let out = normalize_io_section(&entries, "digital_inputs", "di", LogicalChannelKind::DigitalInput)
        .ok()
        .expect("section should normalize");
    assert_eq!(out, vec![(0, 5), (2, 17), (10, 4)]);
}

#[test]
fn io_section_reports_conflicts_bad_values_and_keys() {
    let conflict = vec![native("do1", 3), native("do1", 4)];
    assert_eq!(
        normalize_io_section(&conflict, "digital_outputs", "do", LogicalChannelKind::DigitalOutput).err(),
        Some("Conflict for do1 in [digital_outputs]: 3 vs 4".to_string())
    );
    let bad_value = vec![IoMapEntry {
        key: "ai0".to_string(),
        value: IoMapValue::Other("String(\"x\")".to_string()),
        iec: Err(String::new()),
    }];
    assert_eq!(
        normalize_io_section(&bad_value, "analog_inputs", "ai", LogicalChannelKind::AnalogInput).err(),
        Some(format!(
            "Invalid value for {:?} in [analog_inputs] (expected integer gpio), got String(\"x\")",
            "ai0"
        ))
    );
    let bad_key = vec![native("x1", 2)];
    assert_eq!(
        normalize_io_section(&bad_key, "digital_inputs", "di", LogicalChannelKind::DigitalInput).err(),
        Some(format!(
            "Invalid key {:?} in [digital_inputs] (expected di<n> or a quoted IEC key like \"%IX0.0\")",
            "x1"
        ))
    );
    let wrong_kind = vec![iec(" %QX0.1", 2, LogicalChannelKind::DigitalOutput, 1)];
    assert_eq!(
        normalize_io_section(&wrong_kind, "digital_inputs", "di", LogicalChannelKind::DigitalInput).err(),
        Some(format!(
            "Invalid key {:?} in [digital_inputs] (IEC kind DigitalOutput does not match section kind DigitalInput)",
            " %QX0.1"
        ))
    );
    let overflow = vec![native("di70000", 1)];
    assert!(normalize_io_section(&overflow, "digital_inputs", "di", LogicalChannelKind::DigitalInput).is_err());
}

#[test]
fn io_map_document_checks_sections_first() {
    let doc = IoMapDocument {
        root_is_table: true,
        digital_inputs: IoMapSection::Table(vec![native("di0", 1)]),
        digital_outputs: IoMapSection::Absent,
        analog_inputs: IoMapSection::Absent,
        analog_outputs: IoMapSection::Absent,
    };
    assert_eq!(
        normalize_io_map(&doc).err(),
        Some("Missing or invalid [digital_outputs] (expected a table)".to_string())
    );
    let doc = IoMapDocument {
        root_is_table: true,
        digital_inputs: IoMapSection::Table(vec![native("di0", 1)]),
        digital_outputs: IoMapSection::Table(vec![]),
        analog_inputs: IoMapSection::Absent,
        analog_outputs: IoMapSection::NotTable,
    };
    assert_eq!(
        normalize_io_map(&doc).err(),
        Some("Invalid [analog_outputs] (expected a table)".to_string())
    );
    let doc = IoMapDocument {
        root_is_table: true,
        digital_inputs: IoMapSection::Table(vec![native("di1", 1), native("di0", 9)]),
        digital_outputs: IoMapSection::Table(vec![]),
        analog_inputs: IoMapSection::Table(vec![native("ai3", 2)]),
        analog_outputs: IoMapSection::Absent,
    };
    let out = normalize_io_map(&doc).ok().expect("document should normalize");
    assert_eq!(out.digital_inputs, vec![(0, 9), (1, 1)]);
    assert!(out.digital_outputs.is_empty());
    assert_eq!(out.analog_inputs, Some(vec![(3, 2)]));
    assert_eq!(out.analog_outputs, None);
    let not_table = IoMapDocument {
        root_is_table: false,
        digital_inputs: IoMapSection::Absent,
        digital_outputs: IoMapSection::Absent,
        analog_inputs: IoMapSection::Absent,
        analog_outputs: IoMapSection::Absent,
    };
    assert_eq!(
        normalize_io_map(&not_table).err(),
        Some("io_map.toml must be a TOML table at the root".to_string())
    );
}

#[test]
fn io_section_normalizing_twice_changes_nothing() {
    let entries = vec![native("ao7", 1), native("ao3", 2)];
    let once = normalize_io_section(&entries, "analog_outputs", "ao", LogicalChannelKind::AnalogOutput)
        .ok()
        .expect("first pass");
    let again: Vec<IoMapEntry> = once.iter().map(|(id, g)| native(&format!("ao{id}"), *g)).collect();
    let twice = normalize_io_section(&again, "analog_outputs", "ao", LogicalChannelKind::AnalogOutput)
        .ok()
        .expect("second pass");
    assert_eq!(once, twice);
}
