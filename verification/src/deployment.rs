//! Decisions and texts of the deployment commands: tool command prefixes,
//! artifact digests, and the bookkeeping of a commissioning run.
use vstd::prelude::*;
use crate::text::{
    ascii_lower, ascii_lower_exec, chars_of, eq_chars, format_i32, int_decimal, join,
    join_strings, owned, parse_unsigned, parse_unsigned_exec, push_char, push_str, split_ws,
    split_ws_of, starts_with, starts_with_exec, string_of, sub_chars, trim, trim_chars,
};
use sha2::Digest;

verus! {

// ---------------------------------------------------------------------------
// Tool command prefixes
// ---------------------------------------------------------------------------

/// A tool setting such as `wsl picotool`: when it holds more than one word,
/// the first word is the program and the others its leading arguments.
pub open spec fn spec_split_command_prefix(raw: Seq<char>) -> Option<(Seq<char>, Seq<Seq<char>>)> {
    let parts = split_ws(raw);
    if parts.len() <= 1 {
        None
    } else {
        Some((parts[0], parts.drop_first()))
    }
}

pub open spec fn strings_seq(v: Seq<String>) -> Seq<Seq<char>> {
    v.map_values(|s: String| s@)
}

pub fn split_command_prefix(raw: &str) -> (r: Option<(String, Vec<String>)>)
    ensures
        match r {
            Some(p) => spec_split_command_prefix(raw@) == Some((p.0@, strings_seq(p.1@))),
            None => spec_split_command_prefix(raw@) is None,
        },
{
    let v = chars_of(raw);
    let parts = split_ws_of(v.as_slice());
    let ghost pv = parts@.map_values(|x: Vec<char>| x@);
    if parts.len() <= 1 {
        return None;
    }
    let program = string_of(parts[0].as_slice());
    let mut args: Vec<String> = Vec::new();
    let mut i: usize = 1;
    while i < parts.len()
        invariant
            1 <= i <= parts@.len(),
            pv == parts@.map_values(|x: Vec<char>| x@),
            args@.len() == i - 1,
            forall|j: int| 0 <= j < i - 1 ==> (#[trigger] args@[j])@ == pv[j + 1],
        decreases parts@.len() - i,
    {
        args.push(string_of(parts[i].as_slice()));
        i += 1;
    }
    assert(strings_seq(args@) =~= pv.drop_first());
    Some((program, args))
}

/// Whether a tool setting runs its program through WSL.
pub open spec fn spec_uses_wsl_command_prefix(raw: Seq<char>) -> bool {
    match spec_split_command_prefix(raw) {
        Some(p) => ascii_lower(p.0) == "wsl"@,
        None => false,
    }
}

pub fn uses_wsl_command_prefix(raw: &str) -> (r: bool)
    ensures
        r == spec_uses_wsl_command_prefix(raw@),
{
    match split_command_prefix(raw) {
        Some((program, _)) => {
            let p = chars_of(program.as_str());
            let lower = ascii_lower_exec(p.as_slice());
            let wsl = chars_of("wsl");
            eq_chars(lower.as_slice(), wsl.as_slice())
        },
        None => false,
    }
}

/// `text`, with a newline added when it does not already end in one.
pub open spec fn spec_ensure_trailing_newline(text: Seq<char>) -> Seq<char> {
    if text.len() > 0 && text.last() == '\n' {
        text
    } else {
        text.push('\n')
    }
}

pub fn ensure_trailing_newline(text: String) -> (r: String)
    ensures
        r@ == spec_ensure_trailing_newline(text@),
{
    let v = chars_of(text.as_str());
    if v.len() > 0 && v[v.len() - 1] == '\n' {
        return text;
    }
    let mut out = text;
    push_char(&mut out, '\n');
    out
}

/// The id of a channel name such as `DI3` under the prefix `DI`.
pub open spec fn spec_parse_prefixed_numeric_id(name: Seq<char>, prefix: Seq<char>) -> Option<u16> {
    if starts_with(name, prefix) {
        match parse_unsigned(name.subrange(prefix.len() as int, name.len() as int), u16::MAX as nat) {
            Some(n) => Some(n as u16),
            None => None,
        }
    } else {
        None
    }
}

pub fn parse_prefixed_numeric_id(name: &str, prefix: &str) -> (r: Option<u16>)
    ensures
        r == spec_parse_prefixed_numeric_id(name@, prefix@),
{
    let n = chars_of(name);
    let p = chars_of(prefix);
    if !starts_with_exec(n.as_slice(), p.as_slice()) {
        return None;
    }
    let rest = sub_chars(n.as_slice(), p.len(), n.len());
    match parse_unsigned_exec(rest.as_slice(), 65535) {
        Some(v) => Some(v as u16),
        None => None,
    }
}

// ---------------------------------------------------------------------------
// Artifact digests
// ---------------------------------------------------------------------------

/// The SHA-256 digest of a byte string.
pub uninterp spec fn spec_sha256(data: Seq<u8>) -> Seq<u8>;

/// `sha2::Sha256::digest`: the result is named, and has the 32 bytes of
/// the algorithm's output size.
#[verifier::external_body]
fn sha256_digest(data: &[u8]) -> (r: Vec<u8>)
    ensures
        r@ == spec_sha256(data@),
        r@.len() == 32,
{
    sha2::Sha256::digest(data).to_vec()
}

pub open spec fn hex_digit(n: nat) -> char {
    if n < 10 {
        ('0' as int + n) as char
    } else {
        ('a' as int + n - 10) as char
    }
}

/// Lower-case hexadecimal: two digits per byte, high nibble first.
pub open spec fn hex_lower(data: Seq<u8>) -> Seq<char>
    decreases data.len(),
{
    if data.len() == 0 {
        seq![]
    } else {
        hex_lower(data.drop_last()) + seq![
            hex_digit(data.last() as nat / 16),
            hex_digit(data.last() as nat % 16),
        ]
    }
}

pub proof fn lemma_hex_lower_len(data: Seq<u8>)
    ensures
        hex_lower(data).len() == 2 * data.len(),
    decreases data.len(),
{
    if data.len() > 0 {
        lemma_hex_lower_len(data.drop_last());
    }
}

/// `hex::encode`: each byte as two lower-case hexadecimal digits, high
/// nibble first.
#[verifier::external_body]
fn hex_encode(data: &[u8]) -> (r: String)
    ensures
        r@ == hex_lower(data@),
{
    hex::encode(data)
}

/// The SHA-256 digest of `bytes`, in lower-case hexadecimal.
pub fn sha256_hex(bytes: &[u8]) -> (r: String)
    ensures
        r@ == hex_lower(spec_sha256(bytes@)),
        r@.len() == 64,
{
    let d = sha256_digest(bytes);
    proof {
        lemma_hex_lower_len(d@);
    }
    hex_encode(d.as_slice())
}

// ---------------------------------------------------------------------------
// Commissioning runs
// ---------------------------------------------------------------------------

/// How a commissioning step's command is shown: the program, then its
/// arguments, separated by spaces.
pub open spec fn spec_command_display(program: Seq<char>, args: Seq<Seq<char>>) -> Seq<char> {
    if args.len() == 0 {
        program
    } else {
        program + " "@ + join(args, " "@)
    }
}

pub fn commissioning_command_display(program: &str, args: &[String]) -> (r: String)
    ensures
        r@ == spec_command_display(program@, strings_seq(args@)),
{
    if args.len() == 0 {
        return owned(program);
    }
    let mut out = owned(program);
    push_str(&mut out, " ");
    let j = join_strings(args, " ");
    push_str(&mut out, j.as_str());
    out
}

/// `format!("{:?}", code)` for an exit code.
pub open spec fn debug_exit_code(code: Option<i32>) -> Seq<char> {
    match code {
        Some(c) => "Some("@ + int_decimal(c as int) + ")"@,
        None => "None"@,
    }
}

/// The error of a failed commissioning child: its exit code, its arguments
/// and, when it wrote any, its trimmed standard error.
pub open spec fn spec_child_failure_message(
    code: Option<i32>,
    args: Seq<Seq<char>>,
    stderr: Seq<char>,
) -> Seq<char> {
    let head = "Command failed (status "@ + debug_exit_code(code) + "): "@ + join(args, " "@);
    let t = trim(stderr);
    if t.len() == 0 {
        head
    } else {
        head + "\n"@ + t
    }
}

pub fn child_failure_message(code: Option<i32>, args: &[String], stderr: &str) -> (r: String)
    ensures
        r@ == spec_child_failure_message(code, strings_seq(args@), stderr@),
{
    let mut out = owned("Command failed (status ");
    match code {
        Some(c) => {
            push_str(&mut out, "Some(");
            let d = format_i32(c);
            push_str(&mut out, d.as_str());
            push_str(&mut out, ")");
        },
        None => {
            push_str(&mut out, "None");
        },
    }
    push_str(&mut out, "): ");
    let j = join_strings(args, " ");
    push_str(&mut out, j.as_str());
    let v = chars_of(stderr);
    let t = trim_chars(v.as_slice());
    if t.len() > 0 {
        push_str(&mut out, "\n");
        let ts = string_of(t.as_slice());
        push_str(&mut out, ts.as_str());
    }
    out
}

/// One step of a commissioning run, as the run report lists it.
pub struct CommissioningStepReport {
    pub id: &'static str,
    pub title: &'static str,
    pub command: String,
    pub status: &'static str,
    pub artifacts: Vec<String>,
    pub detail: Option<String>,
}

pub fn push_commissioning_step(
    steps: &mut Vec<CommissioningStepReport>,
    id: &'static str,
    title: &'static str,
    command: String,
    status: &'static str,
    artifacts: Vec<String>,
    detail: Option<String>,
)
    ensures
        final(steps)@ == old(steps)@.push(
            CommissioningStepReport { id, title, command, status, artifacts, detail },
        ),
{
    steps.push(CommissioningStepReport { id, title, command, status, artifacts, detail });
}

/// Before a step runs: once an earlier step has failed, the step is recorded
/// as skipped and does not run (the result says so).
pub fn commissioning_step_skipped(
    steps: &mut Vec<CommissioningStepReport>,
    failure_reason: &Option<String>,
    id: &'static str,
    title: &'static str,
    command: String,
    artifacts: Vec<String>,
) -> (skipped: bool)
    ensures
        skipped == failure_reason.is_some(),
        skipped ==> final(steps)@.len() == old(steps)@.len() + 1,
        skipped ==> final(steps)@.drop_last() == old(steps)@,
        skipped ==> final(steps)@.last().id == id,
        skipped ==> final(steps)@.last().title == title,
        skipped ==> final(steps)@.last().command == command,
        skipped ==> final(steps)@.last().status@ == "skipped"@,
        skipped ==> final(steps)@.last().artifacts == artifacts,
        skipped ==> final(steps)@.last().detail is Some,
        skipped ==> final(steps)@.last().detail.unwrap()@
            == "Skipped because an earlier commissioning step failed"@,
        !skipped ==> final(steps)@ == old(steps)@,
{
    if failure_reason.is_some() {
        let detail = owned("Skipped because an earlier commissioning step failed");
        push_commissioning_step(steps, id, title, command, "skipped", artifacts, Some(detail));
        return true;
    }
    false
}

/// After a step ran: it passed, or it failed and its error becomes the run's
/// failure reason and the step's detail.
pub fn finish_commissioning_step(
    steps: &mut Vec<CommissioningStepReport>,
    failure_reason: &mut Option<String>,
    id: &'static str,
    title: &'static str,
    command: String,
    artifacts: Vec<String>,
    result: Result<(), String>,
)
    ensures
        final(steps)@.len() == old(steps)@.len() + 1,
        final(steps)@.drop_last() == old(steps)@,
        final(steps)@.last().id == id,
        final(steps)@.last().title == title,
        final(steps)@.last().command == command,
        final(steps)@.last().artifacts == artifacts,
        result is Ok ==> final(steps)@.last().status@ == "pass"@,
        result is Ok ==> final(steps)@.last().detail is None,
        result is Ok ==> *final(failure_reason) == *old(failure_reason),
        result is Err ==> final(steps)@.last().status@ == "fail"@,
        result is Err ==> final(steps)@.last().detail == Some(result->Err_0),
        result is Err ==> *final(failure_reason) == Some(result->Err_0),
{
    let ghost s0 = steps@;
    match result {
        Ok(()) => {
            push_commissioning_step(steps, id, title, command, "pass", artifacts, None);
            proof {
                reveal_strlit("pass");
            }
            assert(steps@.drop_last() =~= s0);
        },
        Err(err) => {
            *failure_reason = Some(err.clone());
            push_commissioning_step(steps, id, title, command, "fail", artifacts, Some(err));
            assert(steps@.drop_last() =~= s0);
        },
    }
}

/// One file of a release bundle, as the manifest lists it.
pub struct ReleaseBundleArtifact {
    pub path: String,
    pub sha256: String,
    pub size_bytes: u64,
}

/// The manifest entry of a bundled file named `file_name` whose contents are
/// `bytes`: its name, its SHA-256 digest in hexadecimal and its size.
pub fn release_bundle_artifact(file_name: &str, bytes: &[u8]) -> (r: ReleaseBundleArtifact)
    requires
        bytes@.len() <= u64::MAX,
    ensures
        r.path@ == file_name@,
        r.sha256@ == hex_lower(spec_sha256(bytes@)),
        r.size_bytes == bytes@.len(),
{
    ReleaseBundleArtifact {
        path: owned(file_name),
        sha256: sha256_hex(bytes),
        size_bytes: bytes.len() as u64,
    }
}

// ---------------------------------------------------------------------------
// Component keypoints
// ---------------------------------------------------------------------------

pub open spec fn spec_keypoint_priority(category: Seq<char>) -> u8 {
    if category == "switch_event"@ || category == "sensor_event"@ {
        1
    } else if category == "fault_planned"@ {
        2
    } else if category == "fault_activated"@ {
        3
    } else if category == "fault_expired"@ {
        4
    } else if category == "diagnosis_fault_context_start"@ || category
        == "diagnosis_fault_context_end"@ {
        5
    } else {
        6
    }
}

/// The order in which keypoints of a component run are listed, by category.
pub fn keypoint_category_priority(category: &str) -> (r: u8)
    ensures
        r == spec_keypoint_priority(category@),
{
    let c = chars_of(category);
    let a = chars_of("switch_event");
    let b = chars_of("sensor_event");
    let fp = chars_of("fault_planned");
    let fa = chars_of("fault_activated");
    let fe = chars_of("fault_expired");
    let ds = chars_of("diagnosis_fault_context_start");
    let de = chars_of("diagnosis_fault_context_end");
    if eq_chars(c.as_slice(), a.as_slice()) || eq_chars(c.as_slice(), b.as_slice()) {
        1
    } else if eq_chars(c.as_slice(), fp.as_slice()) {
        2
    } else if eq_chars(c.as_slice(), fa.as_slice()) {
        3
    } else if eq_chars(c.as_slice(), fe.as_slice()) {
        4
    } else if eq_chars(c.as_slice(), ds.as_slice()) || eq_chars(c.as_slice(), de.as_slice()) {
        5
    } else {
        6
    }
}

} // verus!
