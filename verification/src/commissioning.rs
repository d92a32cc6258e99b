//! The commissioning run: the plan of its ten steps (the commands it runs,
//! the files it writes, what each step must leave behind), the check of a
//! step's outcome, and the run's overall status. Running the children and
//! touching the file system is left to the caller, which hands the outcomes
//! back as plain values.
use vstd::prelude::*;
use crate::deployment::{spec_command_display, strings_seq, commissioning_command_display};
use crate::realtime_gate::is_lit;
use crate::text::{clone_string, owned, push_str};

verus! {

// ---------------------------------------------------------------------------
// The status field of a JSON report
// ---------------------------------------------------------------------------

/// What `serde_json` makes of a report body: `Err` with the parser's message
/// where the body is not JSON, `Ok(None)` where it has no string field
/// `status`, `Ok(Some(s))` otherwise.
pub uninterp spec fn spec_json_status(body: Seq<char>) -> Result<Option<Seq<char>>, Seq<char>>;

pub open spec fn json_status_view(r: Result<Option<String>, String>) -> Result<
    Option<Seq<char>>,
    Seq<char>,
> {
    match r {
        Ok(Some(s)) => Ok(Some(s@)),
        Ok(None) => Ok(None),
        Err(e) => Err(e@),
    }
}

/// `serde_json::from_str::<serde_json::Value>`, then `get("status")` and
/// `as_str`; the parse error is rendered with `Display`. The contract names
/// the result; nothing is claimed of which bodies parse.
#[verifier::external_body]
fn json_status(body: &str) -> (r: Result<Option<String>, String>)
    ensures
        json_status_view(r) == spec_json_status(body@),
{
    match serde_json::from_str::<serde_json::Value>(body) {
        Ok(value) => match value.get("status").and_then(serde_json::Value::as_str) {
            Some(s) => Ok(Some(s.to_string())),
            None => Ok(None),
        },
        Err(err) => Err(format!("{err}")),
    }
}

/// The check of a report whose status must be `pass`, given what the JSON
/// parser made of the file at `path`.
pub open spec fn spec_status_check(
    label: Seq<char>,
    path: Seq<char>,
    status: Result<Option<Seq<char>>, Seq<char>>,
) -> Result<(), Seq<char>> {
    match status {
        Err(e) => Err("Failed to parse JSON file "@ + path + ": "@ + e),
        Ok(None) => Err("JSON file "@ + path + " is missing string field `status`"@),
        Ok(Some(s)) => if s == "pass"@ {
            Ok(())
        } else {
            Err(label + " status must be `pass`, got `"@ + s + "`"@)
        },
    }
}

pub open spec fn unit_result_view(r: Result<(), String>) -> Result<(), Seq<char>> {
    match r {
        Ok(()) => Ok(()),
        Err(e) => Err(e@),
    }
}

fn cat3(a: &str, b: &str, c: &str) -> (r: String)
    ensures
        r@ == a@ + b@ + c@,
{
    let mut out = owned(a);
    push_str(&mut out, b);
    push_str(&mut out, c);
    out
}

/// The check of a report's status, given what the JSON parser made of it
/// (see `spec_json_status`).
pub fn status_check_from(label: &str, path: &str, status: &Result<Option<String>, String>) -> (r:
    Result<(), String>)
    ensures
        unit_result_view(r) == spec_status_check(label@, path@, json_status_view(*status)),
{
    match status {
        Err(e) => {
            let mut m = cat3("Failed to parse JSON file ", path, ": ");
            push_str(&mut m, e.as_str());
            Err(m)
        },
        Ok(None) => Err(cat3("JSON file ", path, " is missing string field `status`")),
        Ok(Some(s)) => {
            if is_lit(s.as_str(), "pass") {
                Ok(())
            } else {
                let mut m = cat3(label, " status must be `pass`, got `", s.as_str());
                push_str(&mut m, "`");
                Err(m)
            }
        },
    }
}

/// Checks the body of a report that must say `"status": "pass"`; `path` is
/// where the body was read from and `label` names the report in the error.
pub fn check_commissioning_status(label: &str, body: &str, path: &str) -> (r: Result<(), String>)
    ensures
        unit_result_view(r) == spec_status_check(label@, path@, spec_json_status(body@)),
{
    let status = json_status(body);
    status_check_from(label, path, &status)
}

// ---------------------------------------------------------------------------
// The plan
// ---------------------------------------------------------------------------

/// The paths of a commissioning run, as they are displayed: the PLC source
/// and the files and directories under the output directory.
pub struct CommissioningPaths {
    pub plc: String,
    pub nominal_yaml: String,
    pub doctor_nominal_json: String,
    pub retain_toml: String,
    pub retain_state_json: String,
    pub nominal_trace_jsonl: String,
    pub gate_nominal_dir: String,
    pub gate_nominal_json: String,
    pub gate_nominal_sil_trace: String,
    pub gate_nominal_board_trace: String,
    pub gate_nominal_diff_report: String,
    pub gate_nominal_timing_report: String,
    pub gate_nominal_diagnosis: String,
    pub fault_yaml: String,
    pub doctor_fault_json: String,
    pub online_force_jsonl: String,
    pub online_var_jsonl: String,
    pub online_var_bindings_toml: String,
    pub fault_trace_jsonl: String,
    pub online_force_audit_jsonl: String,
    pub online_var_audit_jsonl: String,
    pub gate_fault_dir: String,
    pub gate_fault_json: String,
    pub gate_fault_diff_report: String,
    pub gate_fault_diagnosis: String,
}

/// A file that a step must leave behind, and the error when it is missing.
pub struct RequiredArtifact {
    pub path: String,
    pub missing_message: String,
}

/// A report whose `status` must be `pass`.
pub struct StatusCheck {
    pub label: &'static str,
    pub json_path: String,
}

/// A file that a step writes, with its contents.
pub struct FileWrite {
    pub path: String,
    pub body: String,
}

/// What a step does.
pub enum CommissioningAction {
    /// Runs the tool itself with `args`, capturing its standard output where
    /// asked; then checks the status report, if any, and the required files
    /// in order.
    RunChild {
        args: Vec<String>,
        stdout_capture: Option<String>,
        status_check: Option<StatusCheck>,
        required: Vec<RequiredArtifact>,
    },
    /// Writes the files in order; an error is reported after `error_prefix`.
    WriteFiles { files: Vec<FileWrite>, error_prefix: String },
}

pub struct CommissioningStepPlan {
    pub id: &'static str,
    pub title: &'static str,
    pub command: String,
    pub artifacts: Vec<String>,
    pub action: CommissioningAction,
}

pub struct ArtifactCheck {
    pub path: Seq<char>,
    pub missing_message: Seq<char>,
}

pub enum PlannedAction {
    RunChild {
        args: Seq<Seq<char>>,
        stdout_capture: Option<Seq<char>>,
        status_check: Option<(Seq<char>, Seq<char>)>,
        required: Seq<ArtifactCheck>,
    },
    WriteFiles { files: Seq<(Seq<char>, Seq<char>)>, error_prefix: Seq<char> },
}

pub struct PlannedStep {
    pub id: Seq<char>,
    pub title: Seq<char>,
    pub command: Seq<char>,
    pub artifacts: Seq<Seq<char>>,
    pub action: PlannedAction,
}

impl View for RequiredArtifact {
    type V = ArtifactCheck;

    open spec fn view(&self) -> ArtifactCheck {
        ArtifactCheck { path: self.path@, missing_message: self.missing_message@ }
    }
}

impl View for FileWrite {
    type V = (Seq<char>, Seq<char>);

    open spec fn view(&self) -> (Seq<char>, Seq<char>) {
        (self.path@, self.body@)
    }
}

pub open spec fn required_view(v: Seq<RequiredArtifact>) -> Seq<ArtifactCheck> {
    v.map_values(|a: RequiredArtifact| a@)
}

pub open spec fn files_view(v: Seq<FileWrite>) -> Seq<(Seq<char>, Seq<char>)> {
    v.map_values(|f: FileWrite| f@)
}

pub open spec fn opt_string_view(o: Option<String>) -> Option<Seq<char>> {
    match o {
        Some(s) => Some(s@),
        None => None,
    }
}

pub open spec fn status_check_view(o: Option<StatusCheck>) -> Option<(Seq<char>, Seq<char>)> {
    match o {
        Some(c) => Some((c.label@, c.json_path@)),
        None => None,
    }
}

impl View for CommissioningAction {
    type V = PlannedAction;

    open spec fn view(&self) -> PlannedAction {
        match self {
            CommissioningAction::RunChild { args, stdout_capture, status_check, required } =>
                PlannedAction::RunChild {
                args: strings_seq(args@),
                stdout_capture: opt_string_view(*stdout_capture),
                status_check: status_check_view(*status_check),
                required: required_view(required@),
            },
            CommissioningAction::WriteFiles { files, error_prefix } => PlannedAction::WriteFiles {
                files: files_view(files@),
                error_prefix: error_prefix@,
            },
        }
    }
}

impl View for CommissioningStepPlan {
    type V = PlannedStep;

    open spec fn view(&self) -> PlannedStep {
        PlannedStep {
            id: self.id@,
            title: self.title@,
            command: self.command@,
            artifacts: strings_seq(self.artifacts@),
            action: self.action@,
        }
    }
}

pub open spec fn plan_view(v: Seq<CommissioningStepPlan>) -> Seq<PlannedStep> {
    v.map_values(|s: CommissioningStepPlan| s@)
}


/// The retain configuration that step A3 writes.
pub const RETAIN_CONFIG_BODY: &'static str = "schema_version = 1\n[digital_inputs]\ndi0 = false\n[digital_outputs]\ndo0 = false\n[analog_outputs]\nao0 = 0.0\n";

/// The online force script that step B3 writes.
pub const ONLINE_FORCE_SCRIPT: &'static str = "{\"at_ms\":0,\"actor\":\"commissioning\",\"source\":\"panel\",\"channel\":\"DI0\",\"value\":true}\n{\"at_ms\":40,\"actor\":\"commissioning\",\"source\":\"panel\",\"channel\":\"DI0\",\"value\":null}\n";

/// The online variable script that step B3 writes.
pub const ONLINE_VAR_SCRIPT: &'static str = "{\"at_ms\":0,\"actor\":\"commissioning\",\"source\":\"panel\",\"variable\":\"BOOL:diag_latch\",\"value\":true}\n{\"at_ms\":20,\"actor\":\"commissioning\",\"source\":\"panel\",\"variable\":\"REAL:gain_k\",\"value\":1.25}\n{\"at_ms\":40,\"actor\":\"commissioning\",\"source\":\"panel\",\"variable\":\"BOOL:diag_latch\",\"value\":null}\n{\"at_ms\":50,\"actor\":\"commissioning\",\"source\":\"panel\",\"variable\":\"REAL:gain_k\",\"value\":null}\n";

/// The online variable bindings that step B3 writes.
pub const ONLINE_VAR_BINDINGS: &'static str = "schema_version = 1\n[bool]\ndiag_latch = \"DI0\"\n[real]\ngain_k = \"AI0\"\n";

pub open spec fn planned_child(
    program: Seq<char>,
    id: Seq<char>,
    title: Seq<char>,
    args: Seq<Seq<char>>,
    stdout_capture: Option<Seq<char>>,
    status_check: Option<(Seq<char>, Seq<char>)>,
    required: Seq<ArtifactCheck>,
    artifacts: Seq<Seq<char>>,
) -> PlannedStep {
    PlannedStep {
        id,
        title,
        command: spec_command_display(program, args),
        artifacts,
        action: PlannedAction::RunChild { args, stdout_capture, status_check, required },
    }
}

pub open spec fn need(path: Seq<char>, prefix: Seq<char>) -> ArtifactCheck {
    ArtifactCheck { path, missing_message: prefix + path }
}

pub open spec fn planned_a1(program: Seq<char>, p: CommissioningPaths) -> PlannedStep {
    planned_child(
        program,
        "A1"@,
        "Nominal scenario-init"@,
        seq!["scenario-init"@, p.plc@, "--preset"@, "normal"@, "--out"@, p.nominal_yaml@],
        None,
        None,
        seq![need(p.nominal_yaml@, "Expected nominal scenario output "@)],
        seq![p.nominal_yaml@],
    )
}

pub open spec fn planned_a2(program: Seq<char>, p: CommissioningPaths) -> PlannedStep {
    planned_child(
        program,
        "A2"@,
        "Nominal scenario-doctor"@,
        seq!["scenario-doctor"@, p.plc@, "--scenario"@, p.nominal_yaml@, "--output"@, "json"@],
        Some(p.doctor_nominal_json@),
        Some(("doctor_nominal"@, p.doctor_nominal_json@)),
        seq![],
        seq![p.doctor_nominal_json@],
    )
}

pub open spec fn planned_a3(p: CommissioningPaths) -> PlannedStep {
    PlannedStep {
        id: "A3"@,
        title: "Write retain config"@,
        command: "write "@ + p.retain_toml@,
        artifacts: seq![p.retain_toml@],
        action: PlannedAction::WriteFiles {
            files: seq![(p.retain_toml@, RETAIN_CONFIG_BODY@)],
            error_prefix: "Failed to write retain config "@ + p.retain_toml@ + ": "@,
        },
    }
}

pub open spec fn planned_a4(program: Seq<char>, p: CommissioningPaths) -> PlannedStep {
    planned_child(
        program,
        "A4"@,
        "Nominal sim-plc with retain"@,
        seq![
            "sim-plc"@,
            p.plc@,
            "--scenario"@,
            p.nominal_yaml@,
            "--out"@,
            p.nominal_trace_jsonl@,
            "--retain-config"@,
            p.retain_toml@,
            "--retain-state"@,
            p.retain_state_json@,
        ],
        None,
        None,
        seq![
            need(p.nominal_trace_jsonl@, "Expected nominal trace output "@),
            need(p.retain_state_json@, "Expected retain state output "@),
        ],
        seq![p.nominal_trace_jsonl@, p.retain_state_json@],
    )
}

pub open spec fn planned_a5(program: Seq<char>, p: CommissioningPaths) -> PlannedStep {
    planned_child(
        program,
        "A5"@,
        "Nominal no-board-gate"@,
        seq![
            "no-board-gate"@,
            p.plc@,
            "--scenario"@,
            p.nominal_yaml@,
            "--out-dir"@,
            p.gate_nominal_dir@,
            "--output"@,
            "json"@,
        ],
        Some(p.gate_nominal_json@),
        Some(("gate_nominal"@, p.gate_nominal_json@)),
        seq![
            need(p.gate_nominal_sil_trace@, "Missing nominal gate artifact "@),
            need(p.gate_nominal_board_trace@, "Missing nominal gate artifact "@),
            need(p.gate_nominal_diff_report@, "Missing nominal gate artifact "@),
            need(p.gate_nominal_timing_report@, "Missing nominal gate artifact "@),
        ],
        seq![
            p.gate_nominal_json@,
            p.gate_nominal_sil_trace@,
            p.gate_nominal_board_trace@,
            p.gate_nominal_diff_report@,
            p.gate_nominal_timing_report@,
            p.gate_nominal_diagnosis@,
        ],
    )
}

pub open spec fn planned_b1(program: Seq<char>, p: CommissioningPaths) -> PlannedStep {
    planned_child(
        program,
        "B1"@,
        "Fault scenario-init"@,
        seq!["scenario-init"@, p.plc@, "--preset"@, "sensor_stuck"@, "--out"@, p.fault_yaml@],
        None,
        None,
        seq![need(p.fault_yaml@, "Expected fault scenario output "@)],
        seq![p.fault_yaml@],
    )
}

pub open spec fn planned_b2(program: Seq<char>, p: CommissioningPaths) -> PlannedStep {
    planned_child(
        program,
        "B2"@,
        "Fault scenario-doctor"@,
        seq![
            "scenario-doctor"@,
            p.plc@,
            "--scenario"@,
            p.fault_yaml@,
            "--fix-preview"@,
            "--output"@,
            "json"@,
        ],
        Some(p.doctor_fault_json@),
        Some(("doctor_fault"@, p.doctor_fault_json@)),
        seq![],
        seq![p.doctor_fault_json@],
    )
}

pub open spec fn planned_b3(p: CommissioningPaths) -> PlannedStep {
    PlannedStep {
        id: "B3"@,
        title: "Write online control scripts"@,
        command: "write "@ + p.online_force_jsonl@ + ", "@ + p.online_var_jsonl@ + ", "@
            + p.online_var_bindings_toml@,
        artifacts: seq![p.online_force_jsonl@, p.online_var_jsonl@, p.online_var_bindings_toml@],
        action: PlannedAction::WriteFiles {
            files: seq![
                (p.online_force_jsonl@, ONLINE_FORCE_SCRIPT@),
                (p.online_var_jsonl@, ONLINE_VAR_SCRIPT@),
                (p.online_var_bindings_toml@, ONLINE_VAR_BINDINGS@),
            ],
            error_prefix: "Failed to write online control scripts: "@,
        },
    }
}

pub open spec fn planned_b4(program: Seq<char>, p: CommissioningPaths) -> PlannedStep {
    planned_child(
        program,
        "B4"@,
        "Fault sim-plc with online controls"@,
        seq![
            "sim-plc"@,
            p.plc@,
            "--scenario"@,
            p.fault_yaml@,
            "--out"@,
            p.fault_trace_jsonl@,
            "--retain-config"@,
            p.retain_toml@,
            "--retain-state"@,
            p.retain_state_json@,
            "--enable-online-force-dev"@,
            "--online-force-script"@,
            p.online_force_jsonl@,
            "--online-force-audit-out"@,
            p.online_force_audit_jsonl@,
            "--online-var-script"@,
            p.online_var_jsonl@,
            "--online-var-bindings"@,
            p.online_var_bindings_toml@,
            "--online-var-audit-out"@,
            p.online_var_audit_jsonl@,
        ],
        None,
        None,
        seq![
            need(p.fault_trace_jsonl@, "Missing fault simulation artifact "@),
            need(p.online_force_audit_jsonl@, "Missing fault simulation artifact "@),
            need(p.online_var_audit_jsonl@, "Missing fault simulation artifact "@),
        ],
        seq![p.fault_trace_jsonl@, p.online_force_audit_jsonl@, p.online_var_audit_jsonl@],
    )
}

pub open spec fn planned_b5(program: Seq<char>, p: CommissioningPaths) -> PlannedStep {
    planned_child(
        program,
        "B5"@,
        "Fault no-board-gate"@,
        seq![
            "no-board-gate"@,
            p.plc@,
            "--scenario"@,
            p.fault_yaml@,
            "--out-dir"@,
            p.gate_fault_dir@,
            "--output"@,
            "json"@,
        ],
        Some(p.gate_fault_json@),
        Some(("gate_fault"@, p.gate_fault_json@)),
        seq![need(p.gate_fault_diff_report@, "Missing fault gate artifact "@)],
        seq![p.gate_fault_json@, p.gate_fault_diff_report@, p.gate_fault_diagnosis@],
    )
}

/// The ten steps of a commissioning run, in the order they run: the
/// nominal pass (A1 to A5), then the fault pass (B1 to B5).
pub open spec fn spec_commissioning_plan(program: Seq<char>, p: CommissioningPaths) -> Seq<
    PlannedStep,
> {
    seq![
        planned_a1(program, p),
        planned_a2(program, p),
        planned_a3(p),
        planned_a4(program, p),
        planned_a5(program, p),
        planned_b1(program, p),
        planned_b2(program, p),
        planned_b3(p),
        planned_b4(program, p),
        planned_b5(program, p),
    ]
}

fn child_step(
    program: &str,
    id: &'static str,
    title: &'static str,
    args: Vec<String>,
    stdout_capture: Option<String>,
    status_check: Option<StatusCheck>,
    required: Vec<RequiredArtifact>,
    artifacts: Vec<String>,
) -> (r: CommissioningStepPlan)
    ensures
        r@ == planned_child(
            program@,
            id@,
            title@,
            strings_seq(args@),
            opt_string_view(stdout_capture),
            status_check_view(status_check),
            required_view(required@),
            strings_seq(artifacts@),
        ),
{
    let command = commissioning_command_display(program, args.as_slice());
    CommissioningStepPlan {
        id,
        title,
        command,
        artifacts,
        action: CommissioningAction::RunChild { args, stdout_capture, status_check, required },
    }
}

fn text(t: &str) -> (r: String)
    ensures
        r@ == t@,
{
    owned(t)
}

fn path_of(s: &String) -> (r: String)
    ensures
        r@ == s@,
{
    clone_string(s)
}

fn need_exec(path: &String, prefix: &str) -> (r: RequiredArtifact)
    ensures
        r@ == need(path@, prefix@),
{
    let mut m = owned(prefix);
    push_str(&mut m, path.as_str());
    RequiredArtifact { path: clone_string(path), missing_message: m }
}

fn step_a1(program: &str, p: &CommissioningPaths) -> (r: CommissioningStepPlan)
    ensures
        r@ == planned_a1(program@, *p),
{
    let mut args: Vec<String> = Vec::new();
    args.push(text("scenario-init"));
    args.push(path_of(&p.plc));
    args.push(text("--preset"));
    args.push(text("normal"));
    args.push(text("--out"));
    args.push(path_of(&p.nominal_yaml));
    let mut required: Vec<RequiredArtifact> = Vec::new();
    required.push(need_exec(&p.nominal_yaml, "Expected nominal scenario output "));
    let mut artifacts: Vec<String> = Vec::new();
    artifacts.push(path_of(&p.nominal_yaml));
    proof {
        assert(strings_seq(args@) =~= seq!["scenario-init"@, p.plc@, "--preset"@, "normal"@, "--out"@, p.nominal_yaml@]);
        assert(required_view(required@) =~= seq![need(p.nominal_yaml@, "Expected nominal scenario output "@)]);
        assert(strings_seq(artifacts@) =~= seq![p.nominal_yaml@]);
    }
    child_step(program, "A1", "Nominal scenario-init", args, None, None, required, artifacts)
}

fn step_a2(program: &str, p: &CommissioningPaths) -> (r: CommissioningStepPlan)
    ensures
        r@ == planned_a2(program@, *p),
{
    let mut args: Vec<String> = Vec::new();
    args.push(text("scenario-doctor"));
    args.push(path_of(&p.plc));
    args.push(text("--scenario"));
    args.push(path_of(&p.nominal_yaml));
    args.push(text("--output"));
    args.push(text("json"));
    let mut required: Vec<RequiredArtifact> = Vec::new();
    let mut artifacts: Vec<String> = Vec::new();
    artifacts.push(path_of(&p.doctor_nominal_json));
    proof {
        assert(strings_seq(args@) =~= seq!["scenario-doctor"@, p.plc@, "--scenario"@, p.nominal_yaml@, "--output"@, "json"@]);
        assert(required_view(required@) =~= seq![]);
        assert(strings_seq(artifacts@) =~= seq![p.doctor_nominal_json@]);
    }
    child_step(program, "A2", "Nominal scenario-doctor", args, Some(path_of(&p.doctor_nominal_json)), Some(StatusCheck { label: "doctor_nominal", json_path: path_of(&p.doctor_nominal_json) }), required, artifacts)
}

fn step_a4(program: &str, p: &CommissioningPaths) -> (r: CommissioningStepPlan)
    ensures
        r@ == planned_a4(program@, *p),
{
    let mut args: Vec<String> = Vec::new();
    args.push(text("sim-plc"));
    args.push(path_of(&p.plc));
    args.push(text("--scenario"));
    args.push(path_of(&p.nominal_yaml));
    args.push(text("--out"));
    args.push(path_of(&p.nominal_trace_jsonl));
    args.push(text("--retain-config"));
    args.push(path_of(&p.retain_toml));
    args.push(text("--retain-state"));
    args.push(path_of(&p.retain_state_json));
    let mut required: Vec<RequiredArtifact> = Vec::new();
    required.push(need_exec(&p.nominal_trace_jsonl, "Expected nominal trace output "));
    required.push(need_exec(&p.retain_state_json, "Expected retain state output "));
    let mut artifacts: Vec<String> = Vec::new();
    artifacts.push(path_of(&p.nominal_trace_jsonl));
    artifacts.push(path_of(&p.retain_state_json));
    proof {
        assert(strings_seq(args@) =~= seq!["sim-plc"@, p.plc@, "--scenario"@, p.nominal_yaml@, "--out"@, p.nominal_trace_jsonl@, "--retain-config"@, p.retain_toml@, "--retain-state"@, p.retain_state_json@]);
        assert(required_view(required@) =~= seq![need(p.nominal_trace_jsonl@, "Expected nominal trace output "@), need(p.retain_state_json@, "Expected retain state output "@)]);
        assert(strings_seq(artifacts@) =~= seq![p.nominal_trace_jsonl@, p.retain_state_json@]);
    }
    child_step(program, "A4", "Nominal sim-plc with retain", args, None, None, required, artifacts)
}

fn step_a5(program: &str, p: &CommissioningPaths) -> (r: CommissioningStepPlan)
    ensures
        r@ == planned_a5(program@, *p),
{
    let mut args: Vec<String> = Vec::new();
    args.push(text("no-board-gate"));
    args.push(path_of(&p.plc));
    args.push(text("--scenario"));
    args.push(path_of(&p.nominal_yaml));
    args.push(text("--out-dir"));
    args.push(path_of(&p.gate_nominal_dir));
    args.push(text("--output"));
    args.push(text("json"));
    let mut required: Vec<RequiredArtifact> = Vec::new();
    required.push(need_exec(&p.gate_nominal_sil_trace, "Missing nominal gate artifact "));
    required.push(need_exec(&p.gate_nominal_board_trace, "Missing nominal gate artifact "));
    required.push(need_exec(&p.gate_nominal_diff_report, "Missing nominal gate artifact "));
    required.push(need_exec(&p.gate_nominal_timing_report, "Missing nominal gate artifact "));
    let mut artifacts: Vec<String> = Vec::new();
    artifacts.push(path_of(&p.gate_nominal_json));
    artifacts.push(path_of(&p.gate_nominal_sil_trace));
    artifacts.push(path_of(&p.gate_nominal_board_trace));
    artifacts.push(path_of(&p.gate_nominal_diff_report));
    artifacts.push(path_of(&p.gate_nominal_timing_report));
    artifacts.push(path_of(&p.gate_nominal_diagnosis));
    proof {
        assert(strings_seq(args@) =~= seq!["no-board-gate"@, p.plc@, "--scenario"@, p.nominal_yaml@, "--out-dir"@, p.gate_nominal_dir@, "--output"@, "json"@]);
        assert(required_view(required@) =~= seq![need(p.gate_nominal_sil_trace@, "Missing nominal gate artifact "@), need(p.gate_nominal_board_trace@, "Missing nominal gate artifact "@), need(p.gate_nominal_diff_report@, "Missing nominal gate artifact "@), need(p.gate_nominal_timing_report@, "Missing nominal gate artifact "@)]);
        assert(strings_seq(artifacts@) =~= seq![p.gate_nominal_json@, p.gate_nominal_sil_trace@, p.gate_nominal_board_trace@, p.gate_nominal_diff_report@, p.gate_nominal_timing_report@, p.gate_nominal_diagnosis@]);
    }
    child_step(program, "A5", "Nominal no-board-gate", args, Some(path_of(&p.gate_nominal_json)), Some(StatusCheck { label: "gate_nominal", json_path: path_of(&p.gate_nominal_json) }), required, artifacts)
}

fn step_b1(program: &str, p: &CommissioningPaths) -> (r: CommissioningStepPlan)
    ensures
        r@ == planned_b1(program@, *p),
{
    let mut args: Vec<String> = Vec::new();
    args.push(text("scenario-init"));
    args.push(path_of(&p.plc));
    args.push(text("--preset"));
    args.push(text("sensor_stuck"));
    args.push(text("--out"));
    args.push(path_of(&p.fault_yaml));
    let mut required: Vec<RequiredArtifact> = Vec::new();
    required.push(need_exec(&p.fault_yaml, "Expected fault scenario output "));
    let mut artifacts: Vec<String> = Vec::new();
    artifacts.push(path_of(&p.fault_yaml));
    proof {
        assert(strings_seq(args@) =~= seq!["scenario-init"@, p.plc@, "--preset"@, "sensor_stuck"@, "--out"@, p.fault_yaml@]);
        assert(required_view(required@) =~= seq![need(p.fault_yaml@, "Expected fault scenario output "@)]);
        assert(strings_seq(artifacts@) =~= seq![p.fault_yaml@]);
    }
    child_step(program, "B1", "Fault scenario-init", args, None, None, required, artifacts)
}

fn step_b2(program: &str, p: &CommissioningPaths) -> (r: CommissioningStepPlan)
    ensures
        r@ == planned_b2(program@, *p),
{
    let mut args: Vec<String> = Vec::new();
    args.push(text("scenario-doctor"));
    args.push(path_of(&p.plc));
    args.push(text("--scenario"));
    args.push(path_of(&p.fault_yaml));
    args.push(text("--fix-preview"));
    args.push(text("--output"));
    args.push(text("json"));
    let mut required: Vec<RequiredArtifact> = Vec::new();
    let mut artifacts: Vec<String> = Vec::new();
    artifacts.push(path_of(&p.doctor_fault_json));
    proof {
        assert(strings_seq(args@) =~= seq!["scenario-doctor"@, p.plc@, "--scenario"@, p.fault_yaml@, "--fix-preview"@, "--output"@, "json"@]);
        assert(required_view(required@) =~= seq![]);
        assert(strings_seq(artifacts@) =~= seq![p.doctor_fault_json@]);
    }
    child_step(program, "B2", "Fault scenario-doctor", args, Some(path_of(&p.doctor_fault_json)), Some(StatusCheck { label: "doctor_fault", json_path: path_of(&p.doctor_fault_json) }), required, artifacts)
}

fn step_b4(program: &str, p: &CommissioningPaths) -> (r: CommissioningStepPlan)
    ensures
        r@ == planned_b4(program@, *p),
{
    let mut args: Vec<String> = Vec::new();
    args.push(text("sim-plc"));
    args.push(path_of(&p.plc));
    args.push(text("--scenario"));
    args.push(path_of(&p.fault_yaml));
    args.push(text("--out"));
    args.push(path_of(&p.fault_trace_jsonl));
    args.push(text("--retain-config"));
    args.push(path_of(&p.retain_toml));
    args.push(text("--retain-state"));
    args.push(path_of(&p.retain_state_json));
    args.push(text("--enable-online-force-dev"));
    args.push(text("--online-force-script"));
    args.push(path_of(&p.online_force_jsonl));
    args.push(text("--online-force-audit-out"));
    args.push(path_of(&p.online_force_audit_jsonl));
    args.push(text("--online-var-script"));
    args.push(path_of(&p.online_var_jsonl));
    args.push(text("--online-var-bindings"));
    args.push(path_of(&p.online_var_bindings_toml));
    args.push(text("--online-var-audit-out"));
    args.push(path_of(&p.online_var_audit_jsonl));
    let mut required: Vec<RequiredArtifact> = Vec::new();
    required.push(need_exec(&p.fault_trace_jsonl, "Missing fault simulation artifact "));
    required.push(need_exec(&p.online_force_audit_jsonl, "Missing fault simulation artifact "));
    required.push(need_exec(&p.online_var_audit_jsonl, "Missing fault simulation artifact "));
    let mut artifacts: Vec<String> = Vec::new();
    artifacts.push(path_of(&p.fault_trace_jsonl));
    artifacts.push(path_of(&p.online_force_audit_jsonl));
    artifacts.push(path_of(&p.online_var_audit_jsonl));
    proof {
        assert(strings_seq(args@) =~= seq!["sim-plc"@, p.plc@, "--scenario"@, p.fault_yaml@, "--out"@, p.fault_trace_jsonl@, "--retain-config"@, p.retain_toml@, "--retain-state"@, p.retain_state_json@, "--enable-online-force-dev"@, "--online-force-script"@, p.online_force_jsonl@, "--online-force-audit-out"@, p.online_force_audit_jsonl@, "--online-var-script"@, p.online_var_jsonl@, "--online-var-bindings"@, p.online_var_bindings_toml@, "--online-var-audit-out"@, p.online_var_audit_jsonl@]);
        assert(required_view(required@) =~= seq![need(p.fault_trace_jsonl@, "Missing fault simulation artifact "@), need(p.online_force_audit_jsonl@, "Missing fault simulation artifact "@), need(p.online_var_audit_jsonl@, "Missing fault simulation artifact "@)]);
        assert(strings_seq(artifacts@) =~= seq![p.fault_trace_jsonl@, p.online_force_audit_jsonl@, p.online_var_audit_jsonl@]);
    }
    child_step(program, "B4", "Fault sim-plc with online controls", args, None, None, required, artifacts)
}

fn step_b5(program: &str, p: &CommissioningPaths) -> (r: CommissioningStepPlan)
    ensures
        r@ == planned_b5(program@, *p),
{
    let mut args: Vec<String> = Vec::new();
    args.push(text("no-board-gate"));
    args.push(path_of(&p.plc));
    args.push(text("--scenario"));
    args.push(path_of(&p.fault_yaml));
    args.push(text("--out-dir"));
    args.push(path_of(&p.gate_fault_dir));
    args.push(text("--output"));
    args.push(text("json"));
    let mut required: Vec<RequiredArtifact> = Vec::new();
    required.push(need_exec(&p.gate_fault_diff_report, "Missing fault gate artifact "));
    let mut artifacts: Vec<String> = Vec::new();
    artifacts.push(path_of(&p.gate_fault_json));
    artifacts.push(path_of(&p.gate_fault_diff_report));
    artifacts.push(path_of(&p.gate_fault_diagnosis));
    proof {
        assert(strings_seq(args@) =~= seq!["no-board-gate"@, p.plc@, "--scenario"@, p.fault_yaml@, "--out-dir"@, p.gate_fault_dir@, "--output"@, "json"@]);
        assert(required_view(required@) =~= seq![need(p.gate_fault_diff_report@, "Missing fault gate artifact "@)]);
        assert(strings_seq(artifacts@) =~= seq![p.gate_fault_json@, p.gate_fault_diff_report@, p.gate_fault_diagnosis@]);
    }
    child_step(program, "B5", "Fault no-board-gate", args, Some(path_of(&p.gate_fault_json)), Some(StatusCheck { label: "gate_fault", json_path: path_of(&p.gate_fault_json) }), required, artifacts)
}

fn step_a3(p: &CommissioningPaths) -> (r: CommissioningStepPlan)
    ensures
        r@ == planned_a3(*p),
{
    let mut command = text("write ");
    push_str(&mut command, p.retain_toml.as_str());
    let mut artifacts: Vec<String> = Vec::new();
    artifacts.push(path_of(&p.retain_toml));
    let mut files: Vec<FileWrite> = Vec::new();
    files.push(FileWrite { path: path_of(&p.retain_toml), body: text(RETAIN_CONFIG_BODY) });
    let error_prefix = cat3("Failed to write retain config ", p.retain_toml.as_str(), ": ");
    proof {
        assert(strings_seq(artifacts@) =~= seq![p.retain_toml@]);
        assert(files_view(files@) =~= seq![(p.retain_toml@, RETAIN_CONFIG_BODY@)]);
    }
    CommissioningStepPlan {
        id: "A3",
        title: "Write retain config",
        command,
        artifacts,
        action: CommissioningAction::WriteFiles { files, error_prefix },
    }
}

fn step_b3(p: &CommissioningPaths) -> (r: CommissioningStepPlan)
    ensures
        r@ == planned_b3(*p),
{
    let mut command = cat3("write ", p.online_force_jsonl.as_str(), ", ");
    push_str(&mut command, p.online_var_jsonl.as_str());
    push_str(&mut command, ", ");
    push_str(&mut command, p.online_var_bindings_toml.as_str());
    let mut artifacts: Vec<String> = Vec::new();
    artifacts.push(path_of(&p.online_force_jsonl));
    artifacts.push(path_of(&p.online_var_jsonl));
    artifacts.push(path_of(&p.online_var_bindings_toml));
    let mut files: Vec<FileWrite> = Vec::new();
    files.push(FileWrite { path: path_of(&p.online_force_jsonl), body: text(ONLINE_FORCE_SCRIPT) });
    files.push(FileWrite { path: path_of(&p.online_var_jsonl), body: text(ONLINE_VAR_SCRIPT) });
    files.push(
        FileWrite { path: path_of(&p.online_var_bindings_toml), body: text(ONLINE_VAR_BINDINGS) },
    );
    let error_prefix = text("Failed to write online control scripts: ");
    proof {
        assert(strings_seq(artifacts@) =~= seq![
            p.online_force_jsonl@,
            p.online_var_jsonl@,
            p.online_var_bindings_toml@,
        ]);
        assert(files_view(files@) =~= seq![
            (p.online_force_jsonl@, ONLINE_FORCE_SCRIPT@),
            (p.online_var_jsonl@, ONLINE_VAR_SCRIPT@),
            (p.online_var_bindings_toml@, ONLINE_VAR_BINDINGS@),
        ]);
    }
    CommissioningStepPlan {
        id: "B3",
        title: "Write online control scripts",
        command,
        artifacts,
        action: CommissioningAction::WriteFiles { files, error_prefix },
    }
}

/// The ten steps of a commissioning run of the tool `program`; the caller
/// only joins the paths under the output directory.
pub fn commissioning_plan(program: &str, paths: &CommissioningPaths) -> (r: Vec<
    CommissioningStepPlan,
>)
    ensures
        plan_view(r@) == spec_commissioning_plan(program@, *paths),
{
    let mut v: Vec<CommissioningStepPlan> = Vec::new();
    v.push(step_a1(program, paths));
    v.push(step_a2(program, paths));
    v.push(step_a3(paths));
    v.push(step_a4(program, paths));
    v.push(step_a5(program, paths));
    v.push(step_b1(program, paths));
    v.push(step_b2(program, paths));
    v.push(step_b3(paths));
    v.push(step_b4(program, paths));
    v.push(step_b5(program, paths));
    assert(plan_view(v@) =~= spec_commissioning_plan(program@, *paths));
    v
}

// ---------------------------------------------------------------------------
// A step's outcome, and the run's
// ---------------------------------------------------------------------------

/// The first required file, from the `i`-th on, that is not present.
pub open spec fn first_missing_from(required: Seq<ArtifactCheck>, present: Seq<bool>, i: int) -> Result<
    (),
    Seq<char>,
>
    decreases required.len() - i,
{
    if i < 0 || i >= required.len() {
        Ok(())
    } else if !present[i] {
        Err(required[i].missing_message)
    } else {
        first_missing_from(required, present, i + 1)
    }
}

/// The outcome of a step. `outcome` is what the outside work gave: the
/// child's run (a failed or unstartable child, or a failed capture, is an
/// error) or the writing of the files (the error as the file system gave
/// it). `status_body` is the report read back after the child, consulted
/// only where the step checks a status (the read error as the caller words
/// it). `present[i]` says whether the `i`-th required file exists.
pub open spec fn spec_step_result(
    action: PlannedAction,
    outcome: Result<(), Seq<char>>,
    status_body: Result<Seq<char>, Seq<char>>,
    present: Seq<bool>,
) -> Result<(), Seq<char>> {
    match action {
        PlannedAction::WriteFiles { files, error_prefix } => match outcome {
            Ok(()) => Ok(()),
            Err(e) => Err(error_prefix + e),
        },
        PlannedAction::RunChild { args, stdout_capture, status_check, required } => match outcome {
            Err(e) => Err(e),
            Ok(()) => {
                let status = match status_check {
                    None => Ok(()),
                    Some((label, path)) => match status_body {
                        Err(e) => Err(e),
                        Ok(body) => spec_status_check(label, path, spec_json_status(body)),
                    },
                };
                match status {
                    Err(e) => Err(e),
                    Ok(()) => first_missing_from(required, present, 0),
                }
            },
        },
    }
}

pub open spec fn action_required_len(action: PlannedAction) -> nat {
    match action {
        PlannedAction::RunChild { required, .. } => required.len(),
        PlannedAction::WriteFiles { .. } => 0,
    }
}

fn first_missing(required: &Vec<RequiredArtifact>, present: &[bool]) -> (r: Result<(), String>)
    requires
        present@.len() == required@.len(),
    ensures
        unit_result_view(r) == first_missing_from(required_view(required@), present@, 0),
{
    let ghost req = required_view(required@);
    let mut i: usize = 0;
    while i < required.len()
        invariant
            i <= required@.len() == present@.len(),
            req == required_view(required@),
            first_missing_from(req, present@, 0) == first_missing_from(req, present@, i as int),
        decreases required@.len() - i,
    {
        if !present[i] {
            return Err(clone_string(&required[i].missing_message));
        }
        i = i + 1;
    }
    Ok(())
}

/// Whether a step passed, from what its outside work gave back (see
/// `spec_step_result`).
pub fn commissioning_step_result(
    action: &CommissioningAction,
    outcome: Result<(), String>,
    status_body: &Result<String, String>,
    present: &[bool],
) -> (r: Result<(), String>)
    requires
        present@.len() == action_required_len(action@),
    ensures
        unit_result_view(r) == spec_step_result(
            action@,
            unit_result_view(outcome),
            match status_body {
                Ok(b) => Ok(b@),
                Err(e) => Err(e@),
            },
            present@,
        ),
{
    match action {
        CommissioningAction::WriteFiles { files, error_prefix } => match outcome {
            Ok(()) => Ok(()),
            Err(e) => {
                let mut m = clone_string(error_prefix);
                push_str(&mut m, e.as_str());
                Err(m)
            },
        },
        CommissioningAction::RunChild { args, stdout_capture, status_check, required } => {
            match outcome {
                Err(e) => Err(e),
                Ok(()) => {
                    match status_check {
                        None => {},
                        Some(c) => {
                            match status_body {
                                Err(e) => {
                                    return Err(clone_string(e));
                                },
                                Ok(body) => {
                                    let st = check_commissioning_status(
                                        c.label,
                                        body.as_str(),
                                        c.json_path.as_str(),
                                    );
                                    if st.is_err() {
                                        return st;
                                    }
                                },
                            }
                        },
                    }
                    first_missing(required, present)
                },
            }
        },
    }
}

/// The status of the whole run: `pass` unless a step failed.
pub fn commissioning_run_status(failure_reason: &Option<String>) -> (s: &'static str)
    ensures
        s@ == (if failure_reason is None {
            "pass"@
        } else {
            "fail"@
        }),
{
    if failure_reason.is_none() {
        "pass"
    } else {
        "fail"
    }
}

/// The error a failed run ends with, naming its index file.
pub fn commissioning_failure_message(reason: &str, index_path: &str) -> (r: String)
    ensures
        r@ == "commissioning-run failed: "@ + reason@ + " (index: "@ + index_path@ + ")"@,
{
    let mut m = cat3("commissioning-run failed: ", reason, " (index: ");
    push_str(&mut m, index_path);
    push_str(&mut m, ")");
    m
}

} // verus!
