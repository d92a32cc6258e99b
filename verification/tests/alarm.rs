use rust_plc::alarm_runtime::{
    build_alarm_event, build_alarm_id, sanitize_alarm_token, AlarmBuildInput, AlarmRateDecision,
    AlarmRateLimiter, AlarmSeverity,
};
use rust_plc::diagnostics::{
    evidence_source_label, parse_evidence_source, AnchorKind, DiagnosisAnchor, DiagnosisCandidate,
    DiagnosisCategory, DiagnosisReport, EvidenceSource,
};

fn diagnosis_fixture() -> DiagnosisReport {
    DiagnosisReport {
        schema_version: 1,
        anchors: vec![DiagnosisAnchor {
            kind: AnchorKind::Timeout,
            tick: Some(2),
            trace_index: Some(3),
            detail: "timeout observed".to_string(),
        }],
        candidates: vec![DiagnosisCandidate {
            issue_code: "DIAG-IN-001".to_string(),
            category: DiagnosisCategory::ExpectedInputNeverChanged,
            rank: 1,
            confidence_bits: 0.91f64.to_bits(),
            evidence: vec!["no DI edge observed".to_string()],
            suggested_fix: "inject DI earlier".to_string(),
            evidence_source: EvidenceSource::RuntimeLive,
        }],
    }
}

#[test]
fn build_alarm_event_contract_includes_required_fields() {
    let diagnosis = diagnosis_fixture();
    let event = build_alarm_event(AlarmBuildInput {
        diagnosis: &diagnosis,
        severity: AlarmSeverity::Critical,
        first_seen_ms: 120,
        top_n: 3,
        evidence_ref: "out/runtime/trace.jsonl",
        evidence_source: EvidenceSource::RuntimeLive,
        scenario_or_recipe_id: "recipe_a",
    });

    assert!(event.alarm_id.starts_with("ALM-"));
    assert_eq!(event.severity, AlarmSeverity::Critical);
    assert_eq!(event.first_seen_ms, 120);
    assert_eq!(event.top_candidates.len(), 1);
    assert_eq!(event.evidence_ref, "out/runtime/trace.jsonl");
    assert_eq!(event.evidence_source, EvidenceSource::RuntimeLive);
    assert_eq!(event.scenario_or_recipe_id, "recipe_a");
}

#[test]
fn rate_limiter_deduplicates_and_rate_limits_same_alarm_id() {
    let mut limiter = AlarmRateLimiter::new(1_000, 200);

    let first = limiter.should_emit("ALM-1", 1_000);
    assert!(matches!(first, AlarmRateDecision::Emit { .. }));

    let dedup = limiter.should_emit("ALM-1", 1_100);
    assert!(matches!(dedup, AlarmRateDecision::Deduplicated));

    let allowed = limiter.should_emit("ALM-1", 2_050);
    assert!(matches!(allowed, AlarmRateDecision::Emit { .. }));

    let rate_limited = limiter.should_emit("ALM-1", 2_100);
    assert!(matches!(rate_limited, AlarmRateDecision::RateLimited));
}

#[test]
fn alarm_id_joins_sanitized_tokens() {
    let diagnosis = diagnosis_fixture();
    let event = build_alarm_event(AlarmBuildInput {
        diagnosis: &diagnosis,
        severity: AlarmSeverity::Warning,
        first_seen_ms: 5,
        top_n: 0,
        evidence_ref: "trace",
        evidence_source: EvidenceSource::RuntimeLive,
        scenario_or_recipe_id: "recipe_a",
    });
    assert_eq!(event.alarm_id, "ALM-RECIPE_A-RUNTIME_LIVE-DIAG_IN_001");
    assert_eq!(event.top_candidates.len(), 1);
    assert_eq!(
        build_alarm_id("  line 2 ", EvidenceSource::HilBoard, ""),
        "ALM-LINE_2-HIL_BOARD-UNKNOWN"
    );
}

#[test]
fn sanitize_keeps_alphanumerics_upper_cased() {
    assert_eq!(sanitize_alarm_token(" ab-c.9 "), "AB_C_9");
    assert_eq!(sanitize_alarm_token("   "), "UNKNOWN");
    assert_eq!(sanitize_alarm_token("é1"), "_1");
}

#[test]
fn evidence_source_labels_round_trip() {
    for source in [
        EvidenceSource::NoBoard,
        EvidenceSource::HilBoard,
        EvidenceSource::RuntimeLive,
        EvidenceSource::Mixed,
    ] {
        assert_eq!(parse_evidence_source(evidence_source_label(source)), Some(source));
    }
    assert_eq!(evidence_source_label(EvidenceSource::NoBoard), "no_board");
    assert_eq!(parse_evidence_source("board"), None);
}

#[test]
fn rate_limiter_tracks_ids_separately() {
    let mut limiter = AlarmRateLimiter::new(1_000, 200);
    assert!(matches!(limiter.should_emit("A", 10), AlarmRateDecision::Emit { first_seen_ms: 10 }));
    assert!(matches!(limiter.should_emit("B", 20), AlarmRateDecision::Emit { first_seen_ms: 20 }));
    assert!(matches!(limiter.should_emit("A", 500), AlarmRateDecision::Deduplicated));
    assert!(matches!(limiter.should_emit("A", 1_500), AlarmRateDecision::Emit { .. }));
}
