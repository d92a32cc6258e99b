//! The diagnosis report that trace analysis produces and alarms carry.
use vstd::prelude::*;
use crate::text::{
    chars_of, clone_string, ends_with, ends_with_exec, eq_chars, owned, push_str, split_once,
    split_once_exec, string_of, sub_chars,
};

verus! {

/// Where the evidence behind a diagnosis comes from.
#[derive(Debug, Clone, Copy, PartialEq, Eq, Structural)]
pub enum EvidenceSource {
    NoBoard,
    HilBoard,
    RuntimeLive,
    Mixed,
}

#[derive(Debug, Clone, Copy, PartialEq, Eq, Structural)]
pub enum DiagnosisCategory {
    ExpectedInputNeverChanged,
    ActuatorCommandMissing,
    InterlockOrRequiresBlocked,
    MappingOrAliasMismatch,
    TimeoutBudgetTooShort,
}

#[derive(Debug, Clone, Copy, PartialEq, Eq, Structural)]
pub enum AnchorKind {
    Timeout,
}

#[derive(Debug, Clone, PartialEq, Eq)]
pub struct DiagnosisAnchor {
    pub kind: AnchorKind,
    pub tick: Option<u64>,
    pub trace_index: Option<usize>,
    pub detail: String,
}

/// One ranked explanation of a failure.  The confidence is carried as the
/// bit pattern of the `f64` (`f64::to_bits`), which the library never reads.
#[derive(Debug, Clone, PartialEq, Eq)]
pub struct DiagnosisCandidate {
    pub issue_code: String,
    pub category: DiagnosisCategory,
    pub rank: u32,
    pub confidence_bits: u64,
    pub evidence: Vec<String>,
    pub suggested_fix: String,
    pub evidence_source: EvidenceSource,
}

pub struct DiagnosisCandidateView {
    pub issue_code: Seq<char>,
    pub category: DiagnosisCategory,
    pub rank: u32,
    pub confidence_bits: u64,
    pub evidence: Seq<Seq<char>>,
    pub suggested_fix: Seq<char>,
    pub evidence_source: EvidenceSource,
}

pub open spec fn strings_view(v: Seq<String>) -> Seq<Seq<char>> {
    v.map_values(|s: String| s@)
}

impl View for DiagnosisCandidate {
    type V = DiagnosisCandidateView;

    open spec fn view(&self) -> DiagnosisCandidateView {
        DiagnosisCandidateView {
            issue_code: self.issue_code@,
            category: self.category,
            rank: self.rank,
            confidence_bits: self.confidence_bits,
            evidence: strings_view(self.evidence@),
            suggested_fix: self.suggested_fix@,
            evidence_source: self.evidence_source,
        }
    }
}

#[derive(Debug, Clone, PartialEq, Eq)]
pub struct DiagnosisReport {
    pub schema_version: u32,
    pub anchors: Vec<DiagnosisAnchor>,
    pub candidates: Vec<DiagnosisCandidate>,
}

/// A copy of a list of strings.
pub fn clone_strings(v: &Vec<String>) -> (r: Vec<String>)
    ensures
        strings_view(r@) == strings_view(v@),
{
    let mut out: Vec<String> = Vec::new();
    let mut i: usize = 0;
    while i < v.len()
        invariant
            i <= v@.len(),
            strings_view(out@) == strings_view(v@.subrange(0, i as int)),
        decreases v@.len() - i,
    {
        let ghost prev = out@;
        let x = clone_string(&v[i]);
        out.push(x);
        assert(strings_view(out@) =~= strings_view(prev).push(v@[i as int]@));
        assert(strings_view(v@.subrange(0, i + 1)) =~= strings_view(v@.subrange(0, i as int)).push(
            v@[i as int]@,
        ));
        i += 1;
    }
    assert(v@.subrange(0, v@.len() as int) =~= v@);
    out
}

/// A copy of a candidate.
pub fn clone_candidate(c: &DiagnosisCandidate) -> (r: DiagnosisCandidate)
    ensures
        r@ == c@,
{
    DiagnosisCandidate {
        issue_code: clone_string(&c.issue_code),
        category: c.category,
        rank: c.rank,
        confidence_bits: c.confidence_bits,
        evidence: clone_strings(&c.evidence),
        suggested_fix: clone_string(&c.suggested_fix),
        evidence_source: c.evidence_source,
    }
}

pub open spec fn evidence_source_name(source: EvidenceSource) -> Seq<char> {
    match source {
        EvidenceSource::NoBoard => "no_board"@,
        EvidenceSource::HilBoard => "hil_board"@,
        EvidenceSource::RuntimeLive => "runtime_live"@,
        EvidenceSource::Mixed => "mixed"@,
    }
}

/// The snake_case name of an evidence source.
pub fn evidence_source_label(source: EvidenceSource) -> (r: &'static str)
    ensures
        r@ == evidence_source_name(source),
{
    match source {
        EvidenceSource::NoBoard => "no_board",
        EvidenceSource::HilBoard => "hil_board",
        EvidenceSource::RuntimeLive => "runtime_live",
        EvidenceSource::Mixed => "mixed",
    }
}

/// The evidence source that a command-line value names, if any.
pub fn parse_evidence_source(raw: &str) -> (r: Option<EvidenceSource>)
    ensures
        match r {
            Some(s) => raw@ == evidence_source_name(s),
            None => forall|s: EvidenceSource| raw@ != evidence_source_name(s),
        },
{
    let v = chars_of(raw);
    let a = chars_of("no_board");
    let b = chars_of("hil_board");
    let c = chars_of("runtime_live");
    let d = chars_of("mixed");
    if eq_chars(v.as_slice(), a.as_slice()) {
        Some(EvidenceSource::NoBoard)
    } else if eq_chars(v.as_slice(), b.as_slice()) {
        Some(EvidenceSource::HilBoard)
    } else if eq_chars(v.as_slice(), c.as_slice()) {
        Some(EvidenceSource::RuntimeLive)
    } else if eq_chars(v.as_slice(), d.as_slice()) {
        Some(EvidenceSource::Mixed)
    } else {
        assert forall|s: EvidenceSource| raw@ != evidence_source_name(s) by {
            match s {
                EvidenceSource::NoBoard => {},
                EvidenceSource::HilBoard => {},
                EvidenceSource::RuntimeLive => {},
                EvidenceSource::Mixed => {},
            }
        }
        None
    }
}

/// Reading back the name of an evidence source gives that source.
pub proof fn law_evidence_source_round_trip(source: EvidenceSource, other: EvidenceSource)
    ensures
        evidence_source_name(source) == evidence_source_name(other) ==> source == other,
{
    reveal_strlit("no_board");
    reveal_strlit("hil_board");
    reveal_strlit("runtime_live");
    reveal_strlit("mixed");
    if source != other {
        match (source, other) {
            (EvidenceSource::NoBoard, _) => {
                assert(evidence_source_name(source).len() != evidence_source_name(other).len()
                    || evidence_source_name(source)[0] != evidence_source_name(other)[0]);
            },
            (EvidenceSource::HilBoard, _) => {
                assert(evidence_source_name(source).len() != evidence_source_name(other).len()
                    || evidence_source_name(source)[0] != evidence_source_name(other)[0]);
            },
            (EvidenceSource::RuntimeLive, _) => {
                assert(evidence_source_name(source).len() != evidence_source_name(other).len()
                    || evidence_source_name(source)[0] != evidence_source_name(other)[0]);
            },
            (EvidenceSource::Mixed, _) => {
                assert(evidence_source_name(source).len() != evidence_source_name(other).len()
                    || evidence_source_name(source)[0] != evidence_source_name(other)[0]);
            },
        }
    }
}

pub open spec fn diagnosis_category_name(category: DiagnosisCategory) -> Seq<char> {
    match category {
        DiagnosisCategory::ExpectedInputNeverChanged => "expected_input_never_changed"@,
        DiagnosisCategory::ActuatorCommandMissing => "actuator_command_missing"@,
        DiagnosisCategory::InterlockOrRequiresBlocked => "interlock_or_requires_blocked"@,
        DiagnosisCategory::MappingOrAliasMismatch => "mapping_or_alias_mismatch"@,
        DiagnosisCategory::TimeoutBudgetTooShort => "timeout_budget_too_short"@,
    }
}

/// The snake_case name of a diagnosis category.
pub fn diagnosis_category_label(category: DiagnosisCategory) -> (r: &'static str)
    ensures
        r@ == diagnosis_category_name(category),
{
    match category {
        DiagnosisCategory::ExpectedInputNeverChanged => "expected_input_never_changed",
        DiagnosisCategory::ActuatorCommandMissing => "actuator_command_missing",
        DiagnosisCategory::InterlockOrRequiresBlocked => "interlock_or_requires_blocked",
        DiagnosisCategory::MappingOrAliasMismatch => "mapping_or_alias_mismatch",
        DiagnosisCategory::TimeoutBudgetTooShort => "timeout_budget_too_short",
    }
}

// ---------------------------------------------------------------------------
// Intent alignment
// ---------------------------------------------------------------------------

/// How firmly an expected milestone is bound to observed transitions.
#[derive(Debug, Clone, Copy, PartialEq, Eq, Structural)]
pub enum BindingStability {
    Stable,
    Partial,
    Repeated,
    Missing,
    Unsupported,
}

pub open spec fn binding_stability_name(s: BindingStability) -> Seq<char> {
    match s {
        BindingStability::Stable => "stable"@,
        BindingStability::Partial => "partial"@,
        BindingStability::Repeated => "repeated"@,
        BindingStability::Missing => "missing"@,
        BindingStability::Unsupported => "unsupported"@,
    }
}

pub fn binding_stability_label(status: BindingStability) -> (r: &'static str)
    ensures
        r@ == binding_stability_name(status),
{
    match status {
        BindingStability::Stable => "stable",
        BindingStability::Partial => "partial",
        BindingStability::Repeated => "repeated",
        BindingStability::Missing => "missing",
        BindingStability::Unsupported => "unsupported",
    }
}

/// A runtime task as intent alignment reads it: its root task and, for each
/// of its steps, the task and step the step's `task.step` name gives.
pub struct IntentDoctorRuntimeTaskLayout {
    pub root_task: String,
    pub step_keys: Vec<(String, String)>,
}

/// A runtime task: its name and its step names.
pub struct RuntimeTaskNames {
    pub name: String,
    pub steps: Vec<String>,
}

pub open spec fn step_key_error(step: Seq<char>) -> Seq<char> {
    "runtime step `"@ + step + "` is missing the expected `task.step` naming form"@
}

/// The first step name, over all tasks in order, that has no `.`.
pub open spec fn first_unsplit(tasks: Seq<RuntimeTaskNames>) -> Option<Seq<char>>
    decreases tasks.len(),
{
    if tasks.len() == 0 {
        None
    } else {
        match first_unsplit(tasks.drop_last()) {
            Some(s) => Some(s),
            None => first_unsplit_step(tasks.last().steps@.map_values(|x: String| x@)),
        }
    }
}

pub open spec fn first_unsplit_step(steps: Seq<Seq<char>>) -> Option<Seq<char>>
    decreases steps.len(),
{
    if steps.len() == 0 {
        None
    } else {
        match first_unsplit_step(steps.drop_last()) {
            Some(s) => Some(s),
            None => if split_once(steps.last(), '.') is None {
                Some(steps.last())
            } else {
                None
            },
        }
    }
}

/// `l` is the layout of task `t`: its name, and each step name cut at its
/// first `.`.
pub open spec fn layout_of(l: IntentDoctorRuntimeTaskLayout, t: RuntimeTaskNames) -> bool {
    &&& l.root_task@ == t.name@
    &&& l.step_keys@.len() == t.steps@.len()
    &&& forall|k: int|
        0 <= k < t.steps@.len() ==> split_once(#[trigger] t.steps@[k]@, '.') == Some(
            (l.step_keys@[k].0@, l.step_keys@[k].1@),
        )
}

fn task_layout(t: &RuntimeTaskNames) -> (r: Result<IntentDoctorRuntimeTaskLayout, String>)
    ensures
        match r {
            Ok(l) => first_unsplit_step(t.steps@.map_values(|x: String| x@)) is None && layout_of(
                l,
                *t,
            ),
            Err(e) => first_unsplit_step(t.steps@.map_values(|x: String| x@)) matches Some(s)
                && e@ == step_key_error(s),
        },
{
    let ghost sv = t.steps@.map_values(|x: String| x@);
    let mut keys: Vec<(String, String)> = Vec::new();
    let mut k: usize = 0;
    while k < t.steps.len()
        invariant
            k <= t.steps@.len(),
            sv == t.steps@.map_values(|x: String| x@),
            first_unsplit_step(sv.subrange(0, k as int)) is None,
            keys@.len() == k,
            forall|q: int|
                0 <= q < k ==> split_once(#[trigger] t.steps@[q]@, '.') == Some(
                    (keys@[q].0@, keys@[q].1@),
                ),
        decreases t.steps@.len() - k,
    {
        assert(sv.subrange(0, k + 1).drop_last() =~= sv.subrange(0, k as int));
        assert(sv.subrange(0, k + 1).last() == t.steps@[k as int]@);
        let c = chars_of(t.steps[k].as_str());
        match split_once_exec(c.as_slice(), '.') {
            Some((a, b)) => {
                keys.push((string_of(a.as_slice()), string_of(b.as_slice())));
            },
            None => {
                let mut e = owned("runtime step `");
                push_str(&mut e, t.steps[k].as_str());
                push_str(&mut e, "` is missing the expected `task.step` naming form");
                proof {
                    lemma_unsplit_prefix(sv, k as int + 1);
                }
                return Err(e);
            },
        }
        k += 1;
    }
    assert(sv.subrange(0, k as int) =~= sv);
    Ok(IntentDoctorRuntimeTaskLayout { root_task: clone_string(&t.name), step_keys: keys })
}

proof fn lemma_unsplit_prefix(s: Seq<Seq<char>>, i: int)
    requires
        0 <= i <= s.len(),
        first_unsplit_step(s.subrange(0, i)) is Some,
    ensures
        first_unsplit_step(s) == first_unsplit_step(s.subrange(0, i)),
    decreases s.len() - i,
{
    if i < s.len() {
        assert(s.subrange(0, i + 1).drop_last() =~= s.subrange(0, i));
        lemma_unsplit_prefix(s, i + 1);
    } else {
        assert(s.subrange(0, i) =~= s);
    }
}

proof fn lemma_unsplit_tasks_prefix(s: Seq<RuntimeTaskNames>, i: int)
    requires
        0 <= i <= s.len(),
        first_unsplit(s.subrange(0, i)) is Some,
    ensures
        first_unsplit(s) == first_unsplit(s.subrange(0, i)),
    decreases s.len() - i,
{
    if i < s.len() {
        assert(s.subrange(0, i + 1).drop_last() =~= s.subrange(0, i));
        lemma_unsplit_tasks_prefix(s, i + 1);
    } else {
        assert(s.subrange(0, i) =~= s);
    }
}

/// The layouts intent alignment checks a trace against: one per runtime
/// task, or the error of the first step name without a `.`.
pub fn runtime_layouts_from_program(tasks: &[RuntimeTaskNames]) -> (r: Result<
    Vec<IntentDoctorRuntimeTaskLayout>,
    String,
>)
    ensures
        match r {
            Ok(v) => first_unsplit(tasks@) is None && v@.len() == tasks@.len() && forall|i: int|
                0 <= i < tasks@.len() ==> layout_of(#[trigger] v@[i], tasks@[i]),
            Err(e) => first_unsplit(tasks@) matches Some(s) && e@ == step_key_error(s),
        },
{
    let mut out: Vec<IntentDoctorRuntimeTaskLayout> = Vec::new();
    let mut i: usize = 0;
    while i < tasks.len()
        invariant
            i <= tasks@.len(),
            first_unsplit(tasks@.subrange(0, i as int)) is None,
            out@.len() == i,
            forall|q: int| 0 <= q < i ==> layout_of(#[trigger] out@[q], tasks@[q]),
        decreases tasks@.len() - i,
    {
        assert(tasks@.subrange(0, i + 1).drop_last() =~= tasks@.subrange(0, i as int));
        assert(tasks@.subrange(0, i + 1).last() == tasks@[i as int]);
        match task_layout(&tasks[i]) {
            Ok(l) => {
                out.push(l);
            },
            Err(e) => {
                proof {
                    lemma_unsplit_tasks_prefix(tasks@, i as int + 1);
                }
                return Err(e);
            },
        }
        i += 1;
    }
    assert(tasks@.subrange(0, i as int) =~= tasks@);
    Ok(out)
}

/// `str::trim_end_matches(p)`: `s` without every trailing copy of `p`.
pub open spec fn trim_end_matches(s: Seq<char>, p: Seq<char>) -> Seq<char>
    decreases s.len(),
{
    if p.len() > 0 && ends_with(s, p) {
        trim_end_matches(s.subrange(0, s.len() - p.len()), p)
    } else {
        s
    }
}

fn trim_end_matches_exec(v: &[char], p: &str) -> (r: Vec<char>)
    ensures
        r@ == trim_end_matches(v@, p@),
{
    let pv = chars_of(p);
    let mut end: usize = v.len();
    assert(v@.subrange(0, end as int) =~= v@);
    while pv.len() > 0 && ends_with_exec(sub_chars(v, 0, end).as_slice(), pv.as_slice())
        invariant
            end <= v@.len(),
            pv@ == p@,
            trim_end_matches(v@, p@) == trim_end_matches(v@.subrange(0, end as int), p@),
        decreases end,
    {
        assert(v@.subrange(0, end as int).subrange(0, end - pv@.len()) =~= v@.subrange(
            0,
            end - pv@.len(),
        ));
        end = end - pv.len();
    }
    sub_chars(v, 0, end)
}

/// The name of the intent contract that sits beside a PLC source file
/// named `file_name`: for `x.bundle.toml` and `x.plc`, the name without
/// that ending (every trailing copy of `.toml` or `.plc` removed) followed
/// by `.intent_alignment.contract.json`; no name for other files.
pub open spec fn spec_intent_contract_file_name(file_name: Seq<char>) -> Option<Seq<char>> {
    if ends_with(file_name, ".bundle.toml"@) {
        Some(trim_end_matches(file_name, ".toml"@) + ".intent_alignment.contract.json"@)
    } else if ends_with(file_name, ".plc"@) {
        Some(trim_end_matches(file_name, ".plc"@) + ".intent_alignment.contract.json"@)
    } else {
        None
    }
}

pub fn intent_contract_file_name(file_name: &str) -> (r: Option<String>)
    ensures
        match r {
            Some(n) => spec_intent_contract_file_name(file_name@) == Some(n@),
            None => spec_intent_contract_file_name(file_name@) is None,
        },
{
    let v = chars_of(file_name);
    let bundle = chars_of(".bundle.toml");
    let plc = chars_of(".plc");
    let stem = if ends_with_exec(v.as_slice(), bundle.as_slice()) {
        trim_end_matches_exec(v.as_slice(), ".toml")
    } else if ends_with_exec(v.as_slice(), plc.as_slice()) {
        trim_end_matches_exec(v.as_slice(), ".plc")
    } else {
        return None;
    };
    let mut out = string_of(stem.as_slice());
    push_str(&mut out, ".intent_alignment.contract.json");
    Some(out)
}

/// The one contract among the files of a project's `docs` directory (by
/// name, in the order they are listed): the position of the only name that
/// ends in `.intent_alignment.contract.json`, if exactly one does.
pub open spec fn is_contract_name(n: Seq<char>) -> bool {
    ends_with(n, ".intent_alignment.contract.json"@)
}

pub fn sole_contract_in_docs(names: &[String]) -> (r: Option<usize>)
    ensures
        match r {
            Some(i) => i < names@.len() && is_contract_name(names@[i as int]@) && forall|j: int|
                0 <= j < names@.len() && j != i ==> !is_contract_name(#[trigger] names@[j]@),
            None => forall|i: int|
                0 <= i < names@.len() && is_contract_name(#[trigger] names@[i]@) ==> exists|j: int|
                    0 <= j < names@.len() && j != i && is_contract_name(names@[j]@),
        },
{
    let suffix = chars_of(".intent_alignment.contract.json");
    let mut found: Option<usize> = None;
    let mut i: usize = 0;
    while i < names.len()
        invariant
            i <= names@.len(),
            suffix@ == ".intent_alignment.contract.json"@,
            match found {
                Some(f) => f < i && is_contract_name(names@[f as int]@) && forall|j: int|
                    0 <= j < i && j != f ==> !is_contract_name(#[trigger] names@[j]@),
                None => forall|j: int| 0 <= j < i ==> !is_contract_name(#[trigger] names@[j]@),
            },
        decreases names@.len() - i,
    {
        let n = chars_of(names[i].as_str());
        if ends_with_exec(n.as_slice(), suffix.as_slice()) {
            match found {
                Some(f) => {
                    assert(is_contract_name(names@[f as int]@));
                    return None;
                },
                None => {
                    found = Some(i);
                },
            }
        }
        i += 1;
    }
    found
}

} // verus!
