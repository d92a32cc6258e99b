//! Alarm events derived from diagnoses, and the rate limiting that decides
//! which of them are published.
use vstd::prelude::*;
use crate::diagnostics::{
    clone_candidate, evidence_source_label, evidence_source_name, DiagnosisCandidate,
    DiagnosisCandidateView, DiagnosisReport, EvidenceSource,
};
use crate::text::{
    ascii_upper_char, ascii_upper_char_exec, chars_of, clone_string, eq_chars, owned, push_chars,
    push_str, string_of, trim, trim_chars,
};

verus! {

#[derive(Debug, Clone, Copy, PartialEq, Eq, Structural)]
pub enum AlarmSeverity {
    Info,
    Warning,
    Critical,
}

#[derive(Debug, Clone, PartialEq, Eq)]
pub struct AlarmEvent {
    pub alarm_id: String,
    pub severity: AlarmSeverity,
    pub first_seen_ms: u64,
    pub top_candidates: Vec<DiagnosisCandidate>,
    pub evidence_ref: String,
    pub evidence_source: EvidenceSource,
    pub scenario_or_recipe_id: String,
}

pub struct AlarmBuildInput<'a> {
    pub diagnosis: &'a DiagnosisReport,
    pub severity: AlarmSeverity,
    pub first_seen_ms: u64,
    pub top_n: usize,
    pub evidence_ref: &'a str,
    pub evidence_source: EvidenceSource,
    pub scenario_or_recipe_id: &'a str,
}

pub open spec fn candidates_view(v: Seq<DiagnosisCandidate>) -> Seq<DiagnosisCandidateView> {
    v.map_values(|c: DiagnosisCandidate| c@)
}

pub open spec fn is_ascii_alnum(c: char) -> bool {
    ('0' <= c <= '9') || ('a' <= c <= 'z') || ('A' <= c <= 'Z')
}

pub open spec fn sanitize_char(c: char) -> char {
    if is_ascii_alnum(c) {
        ascii_upper_char(c)
    } else {
        '_'
    }
}

/// An id token: the trimmed text with ASCII letters and digits upper-cased
/// and every other character replaced by `'_'`; `UNKNOWN` when that is empty.
pub open spec fn sanitize_token(raw: Seq<char>) -> Seq<char> {
    let out = trim(raw).map_values(|c: char| sanitize_char(c));
    if out.len() == 0 {
        "UNKNOWN"@
    } else {
        out
    }
}

/// `ALM-<scenario>-<evidence source>-<issue code>`, each part sanitized.
pub open spec fn alarm_id_of(scenario: Seq<char>, source: EvidenceSource, code: Seq<char>) -> Seq<
    char,
> {
    "ALM-"@ + sanitize_token(scenario) + "-"@ + sanitize_token(evidence_source_name(source)) + "-"@
        + sanitize_token(code)
}

/// How many candidates an alarm keeps: at least one is asked for.
pub open spec fn kept_count(top_n: usize, available: nat) -> nat {
    let wanted: nat = if top_n < 1 {
        1
    } else {
        top_n as nat
    };
    if wanted < available {
        wanted
    } else {
        available
    }
}

/// The issue code that names an alarm: the first kept candidate's, or
/// `DIAG-UNKNOWN` when there is none.
pub open spec fn primary_issue_code(cands: Seq<DiagnosisCandidateView>) -> Seq<char> {
    if cands.len() > 0 {
        cands[0].issue_code
    } else {
        "DIAG-UNKNOWN"@
    }
}

pub fn sanitize_alarm_token(raw: &str) -> (r: String)
    ensures
        r@ == sanitize_token(raw@),
{
    let v = chars_of(raw);
    let t = trim_chars(v.as_slice());
    let mut out: Vec<char> = Vec::new();
    let mut i: usize = 0;
    while i < t.len()
        invariant
            i <= t@.len(),
            out@ == t@.subrange(0, i as int).map_values(|c: char| sanitize_char(c)),
        decreases t@.len() - i,
    {
        let c = t[i];
        let alnum = ('0' <= c && c <= '9') || ('a' <= c && c <= 'z') || ('A' <= c && c <= 'Z');
        if alnum {
            out.push(ascii_upper_char_exec(c));
        } else {
            out.push('_');
        }
        i += 1;
        assert(out@ =~= t@.subrange(0, i as int).map_values(|c: char| sanitize_char(c)));
    }
    assert(t@.subrange(0, t@.len() as int) =~= t@);
    if out.len() == 0 {
        owned("UNKNOWN")
    } else {
        string_of(out.as_slice())
    }
}

pub fn build_alarm_id(
    scenario_or_recipe_id: &str,
    evidence_source: EvidenceSource,
    primary_issue_code: &str,
) -> (r: String)
    ensures
        r@ == alarm_id_of(scenario_or_recipe_id@, evidence_source, primary_issue_code@),
{
    let a = sanitize_alarm_token(scenario_or_recipe_id);
    let b = sanitize_alarm_token(evidence_source_label(evidence_source));
    let c = sanitize_alarm_token(primary_issue_code);
    let mut out = owned("ALM-");
    push_str(&mut out, a.as_str());
    push_str(&mut out, "-");
    push_str(&mut out, b.as_str());
    push_str(&mut out, "-");
    push_str(&mut out, c.as_str());
    out
}

/// The alarm for a diagnosis: the first `max(top_n, 1)` candidates, named by
/// the scenario, the evidence source and the first kept candidate's issue
/// code; the other fields are copied from the input.
pub fn build_alarm_event(input: AlarmBuildInput<'_>) -> (ev: AlarmEvent)
    ensures
        candidates_view(ev.top_candidates@) == candidates_view(
            input.diagnosis.candidates@,
        ).subrange(0, kept_count(input.top_n, input.diagnosis.candidates@.len()) as int),
        ev.alarm_id@ == alarm_id_of(
            input.scenario_or_recipe_id@,
            input.evidence_source,
            primary_issue_code(candidates_view(ev.top_candidates@)),
        ),
        ev.severity == input.severity,
        ev.first_seen_ms == input.first_seen_ms,
        ev.evidence_ref@ == input.evidence_ref@,
        ev.evidence_source == input.evidence_source,
        ev.scenario_or_recipe_id@ == input.scenario_or_recipe_id@,
{
    let top_n: usize = if input.top_n < 1 {
        1
    } else {
        input.top_n
    };
    let all = &input.diagnosis.candidates;
    let k: usize = if top_n < all.len() {
        top_n
    } else {
        all.len()
    };
    let mut top: Vec<DiagnosisCandidate> = Vec::new();
    let mut i: usize = 0;
    while i < k
        invariant
            k <= all@.len(),
            i <= k,
            candidates_view(top@) == candidates_view(all@).subrange(0, i as int),
        decreases k - i,
    {
        let ghost prev = top@;
        let c = clone_candidate(&all[i]);
        top.push(c);
        assert(candidates_view(top@) =~= candidates_view(prev).push(all@[i as int]@));
        assert(candidates_view(all@).subrange(0, i + 1) =~= candidates_view(all@).subrange(
            0,
            i as int,
        ).push(all@[i as int]@));
        i += 1;
    }
    let alarm_id = if top.len() > 0 {
        build_alarm_id(
            input.scenario_or_recipe_id,
            input.evidence_source,
            top[0].issue_code.as_str(),
        )
    } else {
        build_alarm_id(input.scenario_or_recipe_id, input.evidence_source, "DIAG-UNKNOWN")
    };
    proof {
        if top@.len() > 0 {
            assert(candidates_view(top@)[0] == top@[0]@);
        }
    }
    AlarmEvent {
        alarm_id,
        severity: input.severity,
        first_seen_ms: input.first_seen_ms,
        top_candidates: top,
        evidence_ref: owned(input.evidence_ref),
        evidence_source: input.evidence_source,
        scenario_or_recipe_id: owned(input.scenario_or_recipe_id),
    }
}

/// Every alarm id starts with `ALM-`.
pub proof fn law_alarm_id_prefix(scenario: Seq<char>, source: EvidenceSource, code: Seq<char>)
    ensures
        alarm_id_of(scenario, source, code).subrange(0, 4) == "ALM-"@,
{
    reveal_strlit("ALM-");
    let id = alarm_id_of(scenario, source, code);
    assert(id.subrange(0, 4) =~= "ALM-"@);
}

/// A sanitized token is never empty and holds only `A-Z`, `0-9` and `_`.
pub proof fn law_sanitized_token_alphabet(raw: Seq<char>)
    ensures
        sanitize_token(raw).len() > 0,
        forall|i: int|
            0 <= i < sanitize_token(raw).len() ==> {
                let c = #[trigger] sanitize_token(raw)[i];
                ('A' <= c <= 'Z') || ('0' <= c <= '9') || c == '_'
            },
{
    reveal_strlit("UNKNOWN");
}

#[derive(Debug, Clone)]
pub struct AlarmDispatchConfig {
    pub audit_path: String,
    pub websocket_url: Option<String>,
    pub dedup_window_ms: u64,
    pub min_emit_interval_ms: u64,
    pub queue_capacity: usize,
}

impl AlarmDispatchConfig {
    /// A configuration that only writes the audit file: no websocket, a
    /// 1000 ms dedup window, 200 ms between emits, a queue of 64 events.
    pub fn with_audit_path(audit_path: String) -> (r: Self)
        ensures
            r.audit_path@ == audit_path@,
            r.websocket_url is None,
            r.dedup_window_ms == 1000,
            r.min_emit_interval_ms == 200,
            r.queue_capacity == 64,
    {
        AlarmDispatchConfig {
            audit_path,
            websocket_url: None,
            dedup_window_ms: 1_000,
            min_emit_interval_ms: 200,
            queue_capacity: 64,
        }
    }
}

#[derive(Debug, Clone, Copy, PartialEq, Eq, Structural)]
pub enum AlarmPublishStatus {
    Enqueued,
    Deduplicated,
    RateLimited,
    QueueFullAuditFallback,
    ChannelClosedAuditFallback,
}

#[derive(Debug)]
pub enum AlarmDispatchError {
    CreateAuditDir { path: String, message: String },
    OpenAuditFile { path: String, message: String },
    Serialize(String),
    WriteAudit { path: String, message: String },
    WorkerPanicked,
}

#[derive(Debug, Clone, Copy, PartialEq, Eq, Structural)]
pub enum AlarmRateDecision {
    Emit { first_seen_ms: u64 },
    Deduplicated,
    RateLimited,
}

#[derive(Debug, Clone, Copy, PartialEq, Eq, Structural)]
pub struct AlarmSeenState {
    pub first_seen_ms: u64,
    pub last_emit_ms: u64,
}

/// Per-alarm-id deduplication and rate limiting.
#[derive(Debug)]
pub struct AlarmRateLimiter {
    dedup_window_ms: u64,
    min_emit_interval_ms: u64,
    seen: Vec<(String, AlarmSeenState)>,
}

pub open spec fn entries_view(v: Seq<(String, AlarmSeenState)>) -> Seq<(Seq<char>, AlarmSeenState)> {
    v.map_values(|e: (String, AlarmSeenState)| (e.0@, e.1))
}

/// The state recorded for `id`, searched from index `i` on.
pub open spec fn lookup_from(s: Seq<(Seq<char>, AlarmSeenState)>, id: Seq<char>, i: int) -> Option<
    AlarmSeenState,
>
    decreases s.len() - i,
{
    if i < 0 || i >= s.len() {
        None
    } else if s[i].0 == id {
        Some(s[i].1)
    } else {
        lookup_from(s, id, i + 1)
    }
}

/// The outcome for an alarm whose recorded state is `e` (a new alarm is
/// recorded as first seen and last emitted at `t`), and the state recorded
/// afterwards.
pub open spec fn rate_decide(e: AlarmSeenState, window: u64, interval: u64, t: u64) -> (
    AlarmSeenState,
    AlarmRateDecision,
) {
    if e.first_seen_ms == t && e.last_emit_ms == t {
        (e, AlarmRateDecision::Emit { first_seen_ms: e.first_seen_ms })
    } else if t <= e.first_seen_ms.saturating_add(window) {
        (e, AlarmRateDecision::Deduplicated)
    } else if t < e.last_emit_ms.saturating_add(interval) {
        (e, AlarmRateDecision::RateLimited)
    } else {
        (
            AlarmSeenState { last_emit_ms: t, ..e },
            AlarmRateDecision::Emit { first_seen_ms: e.first_seen_ms },
        )
    }
}

pub open spec fn entry_or_new(found: Option<AlarmSeenState>, t: u64) -> AlarmSeenState {
    match found {
        Some(e) => e,
        None => AlarmSeenState { first_seen_ms: t, last_emit_ms: t },
    }
}

fn find_entry(seen: &Vec<(String, AlarmSeenState)>, key: &[char]) -> (r: Option<usize>)
    ensures
        match r {
            Some(i) => {
                &&& i < seen@.len()
                &&& seen@[i as int].0@ == key@
                &&& lookup_from(entries_view(seen@), key@, 0) == Some(seen@[i as int].1)
                &&& lookup_from(entries_view(seen@), key@, 0) == lookup_from(
                    entries_view(seen@),
                    key@,
                    i as int,
                )
                &&& forall|k: int| 0 <= k < i ==> seen@[k].0@ != key@
            },
            None => lookup_from(entries_view(seen@), key@, 0) is None,
        },
{
    let ghost s0 = entries_view(seen@);
    let mut i: usize = 0;
    while i < seen.len()
        invariant
            i <= seen@.len(),
            s0 == entries_view(seen@),
            lookup_from(s0, key@, 0) == lookup_from(s0, key@, i as int),
            forall|k: int| 0 <= k < i ==> seen@[k].0@ != key@,
        decreases seen@.len() - i,
    {
        let k2 = chars_of(seen[i].0.as_str());
        if eq_chars(k2.as_slice(), key) {
            assert(s0[i as int].0 == key@);
            return Some(i);
        }
        assert(s0[i as int].0 != key@);
        i += 1;
    }
    None
}

impl AlarmRateLimiter {
    pub closed spec fn dedup_window(&self) -> u64 {
        self.dedup_window_ms
    }

    pub closed spec fn min_interval(&self) -> u64 {
        self.min_emit_interval_ms
    }

    /// The state recorded for an alarm id, if it was ever seen.
    pub closed spec fn lookup(&self, id: Seq<char>) -> Option<AlarmSeenState> {
        lookup_from(entries_view(self.seen@), id, 0)
    }

    pub fn new(dedup_window_ms: u64, min_emit_interval_ms: u64) -> (r: Self)
        ensures
            r.dedup_window() == dedup_window_ms,
            r.min_interval() == min_emit_interval_ms,
            forall|id: Seq<char>| r.lookup(id) is None,
    {
        AlarmRateLimiter { dedup_window_ms, min_emit_interval_ms, seen: Vec::new() }
    }

    /// Decide whether an alarm occurring at `occurred_ms` is emitted: the
    /// first occurrence is; later ones within the dedup window of the first
    /// are deduplicated, then ones closer than the minimum interval to the
    /// last emit are rate limited, and the rest are emitted.
    pub fn should_emit(&mut self, alarm_id: &str, occurred_ms: u64) -> (d: AlarmRateDecision)
        ensures
            final(self).dedup_window() == old(self).dedup_window(),
            final(self).min_interval() == old(self).min_interval(),
            ({
                let e = entry_or_new(old(self).lookup(alarm_id@), occurred_ms);
                let (ne, dd) = rate_decide(
                    e,
                    old(self).dedup_window(),
                    old(self).min_interval(),
                    occurred_ms,
                );
                &&& d == dd
                &&& final(self).lookup(alarm_id@) == Some(ne)
            }),
            forall|other: Seq<char>|
                other != alarm_id@ ==> final(self).lookup(other) == old(self).lookup(other),
    {
        let key = chars_of(alarm_id);
        let ghost s0 = entries_view(self.seen@);
        let found = find_entry(&self.seen, key.as_slice());
        if found.is_none() {
            let state = AlarmSeenState { first_seen_ms: occurred_ms, last_emit_ms: occurred_ms };
            self.seen.push((string_of(key.as_slice()), state));
            proof {
                let s1 = entries_view(self.seen@);
                assert(s1 =~= s0.push((alarm_id@, state)));
                lemma_lookup_push(s0, (alarm_id@, state));
            }
            return AlarmRateDecision::Emit { first_seen_ms: occurred_ms };
        }
        let i = found.unwrap();
        let e = self.seen[i].1;
        if e.first_seen_ms == occurred_ms && e.last_emit_ms == occurred_ms {
            return AlarmRateDecision::Emit { first_seen_ms: e.first_seen_ms };
        }
        if occurred_ms <= e.first_seen_ms.saturating_add(self.dedup_window_ms) {
            return AlarmRateDecision::Deduplicated;
        }
        if occurred_ms < e.last_emit_ms.saturating_add(self.min_emit_interval_ms) {
            return AlarmRateDecision::RateLimited;
        }
        let ne = AlarmSeenState { first_seen_ms: e.first_seen_ms, last_emit_ms: occurred_ms };
        let name = clone_string(&self.seen[i].0);
        self.seen.set(i, (name, ne));
        proof {
            let s1 = entries_view(self.seen@);
            assert(s1 =~= s0.update(i as int, (alarm_id@, ne)));
            lemma_lookup_update(s0, i as int, alarm_id@, ne);
        }
        AlarmRateDecision::Emit { first_seen_ms: e.first_seen_ms }
    }
}

proof fn lemma_lookup_push(s: Seq<(Seq<char>, AlarmSeenState)>, e: (Seq<char>, AlarmSeenState))
    requires
        lookup_from(s, e.0, 0) is None,
    ensures
        lookup_from(s.push(e), e.0, 0) == Some(e.1),
        forall|id: Seq<char>| id != e.0 ==> lookup_from(s.push(e), id, 0) == lookup_from(s, id, 0),
{
    assert forall|id: Seq<char>, j: int|
        0 <= j <= s.len() implies #[trigger] lookup_from(s.push(e), id, j) == (if lookup_from(
        s,
        id,
        j,
    ) is Some {
        lookup_from(s, id, j)
    } else if id == e.0 {
        Some(e.1)
    } else {
        None
    }) by {
        lemma_lookup_push_from(s, e, id, j);
    }
    assert(lookup_from(s.push(e), e.0, 0) == Some(e.1));
}

proof fn lemma_lookup_push_from(
    s: Seq<(Seq<char>, AlarmSeenState)>,
    e: (Seq<char>, AlarmSeenState),
    id: Seq<char>,
    j: int,
)
    requires
        0 <= j <= s.len(),
    ensures
        lookup_from(s.push(e), id, j) == (if lookup_from(s, id, j) is Some {
            lookup_from(s, id, j)
        } else if id == e.0 {
            Some(e.1)
        } else {
            None
        }),
    decreases s.len() - j,
{
    if j < s.len() {
        lemma_lookup_push_from(s, e, id, j + 1);
    } else {
        assert(lookup_from(s.push(e), id, j + 1) is None);
    }
}

proof fn lemma_lookup_update(
    s: Seq<(Seq<char>, AlarmSeenState)>,
    i: int,
    id: Seq<char>,
    ne: AlarmSeenState,
)
    requires
        0 <= i < s.len(),
        s[i].0 == id,
        lookup_from(s, id, 0) == lookup_from(s, id, i),
        forall|k: int| 0 <= k < i ==> s[k].0 != id,
    ensures
        lookup_from(s.update(i, (id, ne)), id, 0) == Some(ne),
        forall|other: Seq<char>|
            other != id ==> lookup_from(s.update(i, (id, ne)), other, 0) == lookup_from(
                s,
                other,
                0,
            ),
{
    let s1 = s.update(i, (id, ne));
    assert forall|other: Seq<char>, j: int| 0 <= j <= s.len() && other != id implies #[trigger] lookup_from(
        s1,
        other,
        j,
    ) == lookup_from(s, other, j) by {
        lemma_lookup_update_other(s, i, id, ne, other, j);
    }
    lemma_lookup_update_same(s, i, id, ne, 0);
}

proof fn lemma_lookup_update_other(
    s: Seq<(Seq<char>, AlarmSeenState)>,
    i: int,
    id: Seq<char>,
    ne: AlarmSeenState,
    other: Seq<char>,
    j: int,
)
    requires
        0 <= i < s.len(),
        s[i].0 == id,
        other != id,
        0 <= j <= s.len(),
    ensures
        lookup_from(s.update(i, (id, ne)), other, j) == lookup_from(s, other, j),
    decreases s.len() - j,
{
    if j < s.len() {
        lemma_lookup_update_other(s, i, id, ne, other, j + 1);
    }
}

proof fn lemma_lookup_update_same(
    s: Seq<(Seq<char>, AlarmSeenState)>,
    i: int,
    id: Seq<char>,
    ne: AlarmSeenState,
    j: int,
)
    requires
        0 <= i < s.len(),
        s[i].0 == id,
        0 <= j <= i,
        forall|k: int| 0 <= k < i ==> s[k].0 != id,
    ensures
        lookup_from(s.update(i, (id, ne)), id, j) == Some(ne),
    decreases i - j,
{
    if j < i {
        lemma_lookup_update_same(s, i, id, ne, j + 1);
    }
}

/// The first occurrence of an alarm id is always emitted, with itself as
/// the first-seen time.
pub proof fn law_first_occurrence_emits(window: u64, interval: u64, t: u64)
    ensures
        rate_decide(entry_or_new(None, t), window, interval, t).1 == (AlarmRateDecision::Emit {
            first_seen_ms: t,
        }),
{
}

/// A repeat of an alarm within the dedup window of its first occurrence is
/// never emitted.
pub proof fn law_repeat_in_window_is_not_emitted(e: AlarmSeenState, window: u64, interval: u64, t: u64)
    requires
        e.first_seen_ms < t,
        t as int <= e.first_seen_ms as int + window as int,
    ensures
        rate_decide(e, window, interval, t).1 == AlarmRateDecision::Deduplicated,
{
}

/// Two emits of one alarm id after its first occurrence are at least the
/// minimum interval apart, and every emit reports the first-seen time.
pub proof fn law_emits_are_spaced(e: AlarmSeenState, window: u64, interval: u64, t: u64)
    requires
        !(e.first_seen_ms == t && e.last_emit_ms == t),
        rate_decide(e, window, interval, t).1 is Emit,
    ensures
        t as int >= e.last_emit_ms as int + interval as int || e.last_emit_ms as int + interval as int
            > u64::MAX as int,
        rate_decide(e, window, interval, t).1 == (AlarmRateDecision::Emit {
            first_seen_ms: e.first_seen_ms,
        }),
        rate_decide(e, window, interval, t).0.last_emit_ms == t,
        rate_decide(e, window, interval, t).0.first_seen_ms == e.first_seen_ms,
{
}


/// An occurrence after the dedup window of the first one, and at least the
/// minimum interval after the last emit, is emitted (reporting the first-seen
/// time), and becomes the last emit.
pub proof fn law_due_occurrence_is_emitted(e: AlarmSeenState, window: u64, interval: u64, t: u64)
    requires
        t as int > e.first_seen_ms as int + window as int,
        t as int >= e.last_emit_ms as int + interval as int,
    ensures
        rate_decide(e, window, interval, t).1 == (AlarmRateDecision::Emit {
            first_seen_ms: e.first_seen_ms,
        }),
        rate_decide(e, window, interval, t).0 == (AlarmSeenState { first_seen_ms: e.first_seen_ms, last_emit_ms: t }),
{
}


/// A repeat of an alarm (not the occurrence that recorded it) gets exactly
/// one of three outcomes: deduplicated while within the dedup window of the
/// first occurrence; after that, rate limited while earlier than the minimum
/// interval after the last emit (capped at the largest time); emitted
/// otherwise. Only an emit changes the recorded state, and only its last
/// emit time.
pub proof fn law_repeat_outcomes(e: AlarmSeenState, window: u64, interval: u64, t: u64)
    requires
        !(e.first_seen_ms == t && e.last_emit_ms == t),
    ensures
        ({
            let due: int = if e.last_emit_ms as int + interval as int > u64::MAX as int {
                u64::MAX as int
            } else {
                e.last_emit_ms as int + interval as int
            };
            let (ne, d) = rate_decide(e, window, interval, t);
            &&& (d == AlarmRateDecision::Deduplicated) <==> t as int <= e.first_seen_ms as int + window as int
            &&& (d == AlarmRateDecision::RateLimited) <==> (t as int > e.first_seen_ms as int + window as int
                && (t as int) < due)
            &&& (d is Emit) <==> (t as int > e.first_seen_ms as int + window as int && t as int >= due)
            &&& d is Emit ==> d == AlarmRateDecision::Emit { first_seen_ms: e.first_seen_ms }
                && ne == AlarmSeenState { first_seen_ms: e.first_seen_ms, last_emit_ms: t }
            &&& !(d is Emit) ==> ne == e
        }),
{
}

} // verus!
