use rust_plc::board_log::{parse_board_log_text, BoardLogParseError};
use rust_plc::board_trace::{parse_trace_text, TraceParseError, TraceRow};
use rust_plc::tick_timing::{parse_tick_timing_text, BoardTimingParseError};

#[test]
fn parses_mixed_trace_and_timing_rows() {
    let input = r#"
boot ok
18:10:49.8655 [INFO] Script: TRACE tick=0 task=0 from=0 to=1 reason=action ts_ms=0
18:10:49.8656 [INFO] Script: TIMING tick=0 ts_start_us=0 ts_end_us=30 exec_us=30 slack_us=970 overrun=false
TRACE tick=1 task=0 from=1 to=2 reason=goto ts_ms=1
TIMING exec_us=120 tick=1 slack_us=880 ts_start_us=1000 ts_end_us=1120 overrun=true
"#;

    let parsed = parse_board_log_text(input).expect("parse ok");
    assert_eq!(parsed.trace_rows.len(), 2);
    assert_eq!(parsed.timing_rows.len(), 2);

    assert_eq!(parsed.trace_rows[0].tick, 0);
    assert_eq!(parsed.trace_rows[1].reason, "goto");

    assert_eq!(parsed.timing_rows[0].tick, 0);
    assert_eq!(parsed.timing_rows[1].overrun, true);
}

#[test]
fn parses_trace_lines_ignoring_other_output() {
    let input = r#"
boot ok
TICK tick=0 ts_ms=0
TRACE tick=0 task=0 from=0 to=1 reason=action ts_ms=0
TRACE task=0 tick=1 from=1 to=2 reason=goto ts_ms=1
"#;
    let rows = parse_trace_text(input).expect("parse ok");
    assert_eq!(rows.len(), 2);
    assert_eq!(
        rows[0],
        TraceRow {
            tick: 0,
            task: 0,
            from_step: 0,
            to_step: 1,
            reason: "action".to_string(),
            timestamp_ms: 0
        }
    );
    assert_eq!(rows[1].tick, 1);
    assert_eq!(rows[1].reason, "goto");
}

#[test]
fn parses_trace_lines_with_log_prefix() {
    let input = r#"
18:10:49.8655 [INFO] Script: TRACE tick=0 task=0 from=0 to=1 reason=action ts_ms=0
18:10:49.8656 [INFO] Script: TRACE tick=1 task=0 from=1 to=2 reason=goto ts_ms=1
"#;
    let rows = parse_trace_text(input).expect("parse ok");
    assert_eq!(rows.len(), 2);
    assert_eq!(rows[0].tick, 0);
    assert_eq!(rows[1].tick, 1);
}

#[test]
fn trace_later_key_overrides_earlier_and_plus_sign_is_accepted() {
    let rows = parse_trace_text("TRACE tick=5 tick=+7 task=2 from=3 to=4 reason=r ts_ms=9 extra=1\r\n")
        .expect("parse ok");
    assert_eq!(rows.len(), 1);
    assert_eq!(rows[0].tick, 7);
    assert_eq!(rows[0].task, 2);
    assert_eq!(rows[0].timestamp_ms, 9);
}

#[test]
fn trace_token_without_equals_is_not_a_record() {
    let err = parse_trace_text("x\nlog TRACE tick=1 junk").unwrap_err();
    match err {
        TraceParseError::NotTrace { line, text } => {
            assert_eq!(line, 2);
            assert_eq!(text, "TRACE tick=1 junk");
        }
        other => panic!("unexpected {other:?}"),
    }
}

#[test]
fn trace_field_out_of_range_is_invalid() {
    let err = parse_trace_text("TRACE tick=1 task=0 from=70000 to=1 reason=a ts_ms=0").unwrap_err();
    match err {
        TraceParseError::InvalidField { line, field, token } => {
            assert_eq!(line, 1);
            assert_eq!(field, "from");
            assert_eq!(token, "from=70000");
        }
        other => panic!("unexpected {other:?}"),
    }
}

#[test]
fn trace_missing_field_is_reported_in_field_order() {
    let err = parse_trace_text("TRACE tick=1 reason=a").unwrap_err();
    match err {
        TraceParseError::MissingField { line, field } => {
            assert_eq!(line, 1);
            assert_eq!(field, "task");
        }
        other => panic!("unexpected {other:?}"),
    }
}

#[test]
fn timing_bool_must_be_true_or_false() {
    let err = parse_tick_timing_text(
        "TIMING tick=0 ts_start_us=0 ts_end_us=1 exec_us=1 slack_us=0 overrun=yes",
    )
    .unwrap_err();
    match err {
        BoardTimingParseError::InvalidField { field, token, .. } => {
            assert_eq!(field, "overrun");
            assert_eq!(token, "overrun=yes");
        }
        other => panic!("unexpected {other:?}"),
    }
}

#[test]
fn board_log_reports_trace_error_first() {
    let err = parse_board_log_text("TRACE tick=x\nTIMING tick=y").unwrap_err();
    assert!(matches!(err, BoardLogParseError::Trace(_)));
    let err = parse_board_log_text("TIMING tick=y").unwrap_err();
    assert!(matches!(err, BoardLogParseError::Timing(_)));
}

#[test]
fn empty_log_has_no_rows() {
    let out = parse_board_log_text("").expect("parse ok");
    assert!(out.trace_rows.is_empty());
    assert!(out.timing_rows.is_empty());
}

#[test]
fn trace_field_order_within_a_record_does_not_matter() {
    let a = "TRACE tick=3 task=1 from=2 to=4 reason=timeout ts_ms=30\nnoise\nTRACE tick=4 task=0 from=0 to=1 reason=start ts_ms=40\n";
    let b = "TRACE ts_ms=30 reason=timeout to=4 from=2 task=1 tick=3\nnoise\nTRACE task=0 tick=4 reason=start from=0 ts_ms=40 to=1\n";
    let ra = parse_trace_text(a).unwrap();
    let rb = parse_trace_text(b).unwrap();
    assert_eq!(ra, rb);
    assert_eq!(ra.len(), 2);
    assert_eq!(ra[0].to_step, 4);
    assert_eq!(ra[1].reason, "start");
}
