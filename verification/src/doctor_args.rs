//! The command line of `trace-doctor`: the scenario and the artifacts a
//! diagnosis is made from, where the evidence comes from, how many
//! candidates to report and how.
use vstd::prelude::*;
use crate::diagnostics::{evidence_source_name, parse_evidence_source, EvidenceSource};
use crate::realtime_gate::{
    arg_at, args_view, is_lit, number_or, opt_view, output_or, take_number, take_output,
    take_value, value_or, CliOutputMode,
};
use crate::text::{owned, push_str};

verus! {

/// What the command line of `trace-doctor` asks for.
#[derive(Debug, Clone, PartialEq, Eq)]
pub struct TraceDoctorArgs {
    pub plc_path: String,
    pub scenario_path: String,
    pub trace_path: Option<String>,
    pub diff_path: Option<String>,
    pub timing_report_path: Option<String>,
    pub io_snapshot_path: Option<String>,
    pub evidence_source: EvidenceSource,
    pub top_n: usize,
    pub output: CliOutputMode,
}

/// The options of `trace-doctor` read so far (and, once complete, what the
/// command line asks for).
pub struct DoctorScan {
    pub scenario: Option<Seq<char>>,
    pub trace: Option<Seq<char>>,
    pub diff: Option<Seq<char>>,
    pub timing: Option<Seq<char>>,
    pub io_snapshot: Option<Seq<char>>,
    pub evidence: EvidenceSource,
    pub top_n: usize,
    pub output: CliOutputMode,
}

/// The evidence source a value names.
pub open spec fn evidence_of(raw: Seq<char>) -> Option<EvidenceSource> {
    if raw == "no_board"@ {
        Some(EvidenceSource::NoBoard)
    } else if raw == "hil_board"@ {
        Some(EvidenceSource::HilBoard)
    } else if raw == "runtime_live"@ {
        Some(EvidenceSource::RuntimeLive)
    } else if raw == "mixed"@ {
        Some(EvidenceSource::Mixed)
    } else {
        None
    }
}

/// The value of `--evidence-source`.
pub open spec fn evidence_or(args: Seq<Seq<char>>, j: int) -> Result<EvidenceSource, Seq<char>> {
    match arg_at(args, j) {
        None => Err("Missing value for --evidence-source <no_board|hil_board|runtime_live|mixed>"@),
        Some(raw) => match evidence_of(raw) {
            Some(s) => Ok(s),
            None => Err(
                "Invalid --evidence-source value `"@ + raw
                    + "` (expected `no_board`, `hil_board`, `runtime_live`, or `mixed`)"@,
            ),
        },
    }
}

/// The value of `--top`: a `usize` of at least 1.
pub open spec fn doctor_top_or(args: Seq<Seq<char>>, j: int) -> Result<usize, Seq<char>> {
    match number_or(
        args,
        j,
        "Missing value for --top <n>"@,
        "Invalid --top value (expected usize): "@,
        usize::MAX as nat,
    ) {
        Err(e) => Err(e),
        Ok(n) => if n == 0 {
            Err("Invalid --top value (expected >= 1)"@)
        } else {
            Ok(n as usize)
        },
    }
}

/// Once every option is read: the scenario must be given, and at least one
/// of the trace and the diff report.
pub open spec fn finish_doctor_scan(st: DoctorScan, usage: Seq<char>) -> Result<DoctorScan, Seq<char>> {
    if st.scenario is None {
        Err(usage)
    } else if st.trace is None && st.diff is None {
        Err(
            "trace-doctor requires at least one input artifact: --trace <trace.jsonl> or --diff <diff_report.json>"@,
        )
    } else {
        Ok(st)
    }
}

/// The options from position `i` on.
pub open spec fn scan_doctor_args(args: Seq<Seq<char>>, i: int, st: DoctorScan, usage: Seq<char>) -> Result<
    DoctorScan,
    Seq<char>,
>
    decreases args.len() - i,
{
    if i < 0 || i >= args.len() {
        finish_doctor_scan(st, usage)
    } else {
        let a = args[i];
        if a == "--scenario"@ {
            match value_or(args, i + 1, "Missing value for --scenario <scenario.yaml>"@) {
                Err(e) => Err(e),
                Ok(v) => scan_doctor_args(args, i + 2, DoctorScan { scenario: Some(v), ..st }, usage),
            }
        } else if a == "--trace"@ {
            match value_or(args, i + 1, "Missing value for --trace <trace.jsonl>"@) {
                Err(e) => Err(e),
                Ok(v) => scan_doctor_args(args, i + 2, DoctorScan { trace: Some(v), ..st }, usage),
            }
        } else if a == "--diff"@ {
            match value_or(args, i + 1, "Missing value for --diff <diff_report.json>"@) {
                Err(e) => Err(e),
                Ok(v) => scan_doctor_args(args, i + 2, DoctorScan { diff: Some(v), ..st }, usage),
            }
        } else if a == "--timing-report"@ {
            match value_or(args, i + 1, "Missing value for --timing-report <timing_report.json>"@) {
                Err(e) => Err(e),
                Ok(v) => scan_doctor_args(args, i + 2, DoctorScan { timing: Some(v), ..st }, usage),
            }
        } else if a == "--io-snapshot"@ {
            match value_or(args, i + 1, "Missing value for --io-snapshot <io_snapshot.json>"@) {
                Err(e) => Err(e),
                Ok(v) => scan_doctor_args(
                    args,
                    i + 2,
                    DoctorScan { io_snapshot: Some(v), ..st },
                    usage,
                ),
            }
        } else if a == "--evidence-source"@ {
            match evidence_or(args, i + 1) {
                Err(e) => Err(e),
                Ok(s) => scan_doctor_args(args, i + 2, DoctorScan { evidence: s, ..st }, usage),
            }
        } else if a == "--top"@ {
            match doctor_top_or(args, i + 1) {
                Err(e) => Err(e),
                Ok(n) => scan_doctor_args(args, i + 2, DoctorScan { top_n: n, ..st }, usage),
            }
        } else if a == "--output"@ {
            match output_or(args, i + 1) {
                Err(e) => Err(e),
                Ok(m) => scan_doctor_args(args, i + 2, DoctorScan { output: m, ..st }, usage),
            }
        } else if a == "-h"@ || a == "--help"@ {
            Err(usage)
        } else {
            Err("Unknown argument for trace-doctor: "@ + a)
        }
    }
}

/// The command line of `trace-doctor` (after the command's name): the PLC
/// source, then its options, with mixed evidence, three candidates and
/// text output unless they say otherwise.
pub open spec fn spec_trace_doctor_args(args: Seq<Seq<char>>, usage: Seq<char>) -> Result<
    (Seq<char>, DoctorScan),
    Seq<char>,
> {
    if args.len() == 0 {
        Err(usage)
    } else {
        match scan_doctor_args(
            args,
            1,
            DoctorScan {
                scenario: None,
                trace: None,
                diff: None,
                timing: None,
                io_snapshot: None,
                evidence: EvidenceSource::Mixed,
                top_n: 3,
                output: CliOutputMode::Human,
            },
            usage,
        ) {
            Err(e) => Err(e),
            Ok(st) => Ok((args[0], st)),
        }
    }
}

pub open spec fn doctor_args_view(a: TraceDoctorArgs) -> (Seq<char>, DoctorScan) {
    (
        a.plc_path@,
        DoctorScan {
            scenario: Some(a.scenario_path@),
            trace: opt_view(a.trace_path),
            diff: opt_view(a.diff_path),
            timing: opt_view(a.timing_report_path),
            io_snapshot: opt_view(a.io_snapshot_path),
            evidence: a.evidence_source,
            top_n: a.top_n,
            output: a.output,
        },
    )
}

fn evidence_value(args: &[String], j: usize) -> (r: Result<EvidenceSource, String>)
    ensures
        match r {
            Ok(s) => evidence_or(args_view(args@), j as int) == Ok::<EvidenceSource, Seq<char>>(s),
            Err(e) => evidence_or(args_view(args@), j as int) == Err::<EvidenceSource, Seq<char>>(e@),
        },
{
    if j >= args.len() {
        return Err(owned("Missing value for --evidence-source <no_board|hil_board|runtime_live|mixed>"));
    }
    let raw = args[j].as_str();
    proof {
        reveal_strlit("no_board");
        reveal_strlit("hil_board");
        reveal_strlit("runtime_live");
        reveal_strlit("mixed");
    }
    match parse_evidence_source(raw) {
        Some(s) => Ok(s),
        None => {
            assert(raw@ != evidence_source_name(EvidenceSource::NoBoard));
            assert(raw@ != evidence_source_name(EvidenceSource::HilBoard));
            assert(raw@ != evidence_source_name(EvidenceSource::RuntimeLive));
            assert(raw@ != evidence_source_name(EvidenceSource::Mixed));
            let mut out = owned("Invalid --evidence-source value `");
            push_str(&mut out, raw);
            push_str(&mut out, "` (expected `no_board`, `hil_board`, `runtime_live`, or `mixed`)");
            Err(out)
        },
    }
}

fn top_value(args: &[String], j: usize) -> (r: Result<usize, String>)
    ensures
        match r {
            Ok(n) => doctor_top_or(args_view(args@), j as int) == Ok::<usize, Seq<char>>(n),
            Err(e) => doctor_top_or(args_view(args@), j as int) == Err::<usize, Seq<char>>(e@),
        },
{
    let n = take_number(
        args,
        j,
        "Missing value for --top <n>",
        "Invalid --top value (expected usize): ",
        usize::MAX as u64,
    )?;
    if n == 0 {
        return Err(owned("Invalid --top value (expected >= 1)"));
    }
    Ok(n as usize)
}

pub fn parse_trace_doctor_args(args: &[String], usage: &str) -> (r: Result<TraceDoctorArgs, String>)
    ensures
        match r {
            Ok(a) => spec_trace_doctor_args(args_view(args@), usage@) == Ok::<
                (Seq<char>, DoctorScan),
                Seq<char>,
            >(doctor_args_view(a)),
            Err(e) => spec_trace_doctor_args(args_view(args@), usage@) == Err::<
                (Seq<char>, DoctorScan),
                Seq<char>,
            >(e@),
        },
{
    let ghost av = args_view(args@);
    if args.len() == 0 {
        return Err(owned(usage));
    }
    let plc_path = crate::text::clone_string(&args[0]);
    let mut scenario: Option<String> = None;
    let mut trace: Option<String> = None;
    let mut diff: Option<String> = None;
    let mut timing: Option<String> = None;
    let mut io_snapshot: Option<String> = None;
    let mut evidence = EvidenceSource::Mixed;
    let mut top_n: usize = 3;
    let mut output = CliOutputMode::Human;
    let ghost initial = DoctorScan {
        scenario: None,
        trace: None,
        diff: None,
        timing: None,
        io_snapshot: None,
        evidence: EvidenceSource::Mixed,
        top_n: 3,
        output: CliOutputMode::Human,
    };
    let mut i: usize = 1;
    while i < args.len()
        invariant
            1 <= i <= args@.len() + 1,
            av == args_view(args@),
            av.len() > 0,
            plc_path@ == av[0],
            scan_doctor_args(av, 1, initial, usage@) == scan_doctor_args(
                av,
                i as int,
                DoctorScan {
                    scenario: opt_view(scenario),
                    trace: opt_view(trace),
                    diff: opt_view(diff),
                    timing: opt_view(timing),
                    io_snapshot: opt_view(io_snapshot),
                    evidence,
                    top_n,
                    output,
                },
                usage@,
            ),
            initial == (DoctorScan {
                scenario: None,
                trace: None,
                diff: None,
                timing: None,
                io_snapshot: None,
                evidence: EvidenceSource::Mixed,
                top_n: 3,
                output: CliOutputMode::Human,
            }),
        decreases args@.len() + 1 - i,
    {
        let a = args[i].as_str();
        assert(a@ == av[i as int]);
        if is_lit(a, "--scenario") {
            scenario = Some(take_value(args, i + 1, "Missing value for --scenario <scenario.yaml>")?);
        } else if is_lit(a, "--trace") {
            trace = Some(take_value(args, i + 1, "Missing value for --trace <trace.jsonl>")?);
        } else if is_lit(a, "--diff") {
            diff = Some(take_value(args, i + 1, "Missing value for --diff <diff_report.json>")?);
        } else if is_lit(a, "--timing-report") {
            timing = Some(
                take_value(args, i + 1, "Missing value for --timing-report <timing_report.json>")?,
            );
        } else if is_lit(a, "--io-snapshot") {
            io_snapshot = Some(
                take_value(args, i + 1, "Missing value for --io-snapshot <io_snapshot.json>")?,
            );
        } else if is_lit(a, "--evidence-source") {
            evidence = evidence_value(args, i + 1)?;
        } else if is_lit(a, "--top") {
            top_n = top_value(args, i + 1)?;
        } else if is_lit(a, "--output") {
            output = take_output(args, i + 1)?;
        } else if is_lit(a, "-h") || is_lit(a, "--help") {
            return Err(owned(usage));
        } else {
            let mut out = owned("Unknown argument for trace-doctor: ");
            push_str(&mut out, a);
            return Err(out);
        }
        i += 2;
    }
    let scenario_path = match scenario {
        Some(s) => s,
        None => {
            return Err(owned(usage));
        },
    };
    if trace.is_none() && diff.is_none() {
        return Err(
            owned(
                "trace-doctor requires at least one input artifact: --trace <trace.jsonl> or --diff <diff_report.json>",
            ),
        );
    }
    Ok(
        TraceDoctorArgs {
            plc_path,
            scenario_path,
            trace_path: trace,
            diff_path: diff,
            timing_report_path: timing,
            io_snapshot_path: io_snapshot,
            evidence_source: evidence,
            top_n,
            output,
        },
    )
}

// scenario-doctor -----------------------------------------------------------

/// The options of `scenario-doctor` from position `i` on: `--scenario`
/// takes a path, `--fix-preview` is a switch, `--output` takes the mode.
pub open spec fn scan_scenario_doctor_args(
    args: Seq<Seq<char>>,
    i: int,
    scenario: Option<Seq<char>>,
    fix_preview: bool,
    output: CliOutputMode,
    usage: Seq<char>,
) -> Result<(Seq<char>, bool, CliOutputMode), Seq<char>>
    decreases args.len() - i,
{
    if i < 0 || i >= args.len() {
        match scenario {
            None => Err("Missing required argument: --scenario <scenario.yaml>"@),
            Some(p) => Ok((p, fix_preview, output)),
        }
    } else {
        let a = args[i];
        if a == "--scenario"@ {
            match value_or(args, i + 1, "Missing value for --scenario <scenario.yaml>"@) {
                Err(e) => Err(e),
                Ok(v) => scan_scenario_doctor_args(args, i + 2, Some(v), fix_preview, output, usage),
            }
        } else if a == "--fix-preview"@ {
            scan_scenario_doctor_args(args, i + 1, scenario, true, output, usage)
        } else if a == "--output"@ {
            match output_or(args, i + 1) {
                Err(e) => Err(e),
                Ok(m) => scan_scenario_doctor_args(args, i + 2, scenario, fix_preview, m, usage),
            }
        } else if a == "-h"@ || a == "--help"@ {
            Err(usage)
        } else {
            Err("Unknown argument for scenario-doctor: "@ + a)
        }
    }
}

/// The command line of `scenario-doctor`: the PLC source, the scenario
/// (required), whether to preview fixes, and the output mode.
pub open spec fn spec_scenario_doctor_args(args: Seq<Seq<char>>, usage: Seq<char>) -> Result<
    (Seq<char>, Seq<char>, bool, CliOutputMode),
    Seq<char>,
> {
    if args.len() == 0 {
        Err(usage)
    } else {
        match scan_scenario_doctor_args(args, 1, None, false, CliOutputMode::Human, usage) {
            Err(e) => Err(e),
            Ok((p, f, m)) => Ok((args[0], p, f, m)),
        }
    }
}

pub fn parse_scenario_doctor_args(args: &[String], usage: &str) -> (r: Result<
    (String, String, bool, CliOutputMode),
    String,
>)
    ensures
        match r {
            Ok((p, sc, f, m)) => spec_scenario_doctor_args(args_view(args@), usage@) == Ok::<
                (Seq<char>, Seq<char>, bool, CliOutputMode),
                Seq<char>,
            >((p@, sc@, f, m)),
            Err(e) => spec_scenario_doctor_args(args_view(args@), usage@) == Err::<
                (Seq<char>, Seq<char>, bool, CliOutputMode),
                Seq<char>,
            >(e@),
        },
{
    let ghost av = args_view(args@);
    if args.len() == 0 {
        return Err(owned(usage));
    }
    let plc_path = crate::text::clone_string(&args[0]);
    let mut scenario: Option<String> = None;
    let mut fix_preview = false;
    let mut output = CliOutputMode::Human;
    let mut i: usize = 1;
    while i < args.len()
        invariant
            1 <= i <= args@.len() + 1,
            av == args_view(args@),
            av.len() > 0,
            scan_scenario_doctor_args(av, 1, None, false, CliOutputMode::Human, usage@)
                == scan_scenario_doctor_args(av, i as int, opt_view(scenario), fix_preview, output, usage@),
        decreases args@.len() + 1 - i,
    {
        let a = args[i].as_str();
        assert(a@ == av[i as int]);
        if is_lit(a, "--scenario") {
            scenario = Some(take_value(args, i + 1, "Missing value for --scenario <scenario.yaml>")?);
            i += 2;
        } else if is_lit(a, "--fix-preview") {
            fix_preview = true;
            i += 1;
        } else if is_lit(a, "--output") {
            output = take_output(args, i + 1)?;
            i += 2;
        } else if is_lit(a, "-h") || is_lit(a, "--help") {
            return Err(owned(usage));
        } else {
            let mut out = owned("Unknown argument for scenario-doctor: ");
            push_str(&mut out, a);
            return Err(out);
        }
    }
    match scenario {
        Some(sc) => Ok((plc_path, sc, fix_preview, output)),
        None => Err(owned("Missing required argument: --scenario <scenario.yaml>")),
    }
}

// trace-diff ------------------------------------------------------------------

/// What the command line of `trace-diff` asks for.
#[derive(Debug, Clone, PartialEq, Eq)]
pub struct TraceDiffArgs {
    pub sil_path: String,
    pub board_path: String,
    pub out_path: String,
    pub context_window: usize,
    pub fail_on_mismatch: bool,
}

/// The options of `trace-diff` read so far.
pub struct DiffScan {
    pub sil: Option<Seq<char>>,
    pub board: Option<Seq<char>>,
    pub out: Option<Seq<char>>,
    pub context: usize,
    pub fail_on_mismatch: bool,
}

/// The options of `trace-diff` from position `i` on; the two traces and the
/// report must be given.
pub open spec fn scan_trace_diff_args(args: Seq<Seq<char>>, i: int, st: DiffScan, usage: Seq<char>) -> Result<
    DiffScan,
    Seq<char>,
>
    decreases args.len() - i,
{
    if i < 0 || i >= args.len() {
        if st.sil is None || st.board is None || st.out is None {
            Err(usage)
        } else {
            Ok(st)
        }
    } else {
        let a = args[i];
        if a == "--sil"@ {
            match value_or(args, i + 1, "Missing value for --sil <trace.jsonl>"@) {
                Err(e) => Err(e),
                Ok(v) => scan_trace_diff_args(args, i + 2, DiffScan { sil: Some(v), ..st }, usage),
            }
        } else if a == "--board"@ {
            match value_or(args, i + 1, "Missing value for --board <trace.jsonl>"@) {
                Err(e) => Err(e),
                Ok(v) => scan_trace_diff_args(args, i + 2, DiffScan { board: Some(v), ..st }, usage),
            }
        } else if a == "--out"@ {
            match value_or(args, i + 1, "Missing value for --out <report.json>"@) {
                Err(e) => Err(e),
                Ok(v) => scan_trace_diff_args(args, i + 2, DiffScan { out: Some(v), ..st }, usage),
            }
        } else if a == "--context"@ {
            match number_or(
                args,
                i + 1,
                "Missing value for --context <n>"@,
                "Invalid --context value (expected usize): "@,
                usize::MAX as nat,
            ) {
                Err(e) => Err(e),
                Ok(n) => scan_trace_diff_args(args, i + 2, DiffScan { context: n as usize, ..st }, usage),
            }
        } else if a == "--fail-on-mismatch"@ {
            scan_trace_diff_args(args, i + 1, DiffScan { fail_on_mismatch: true, ..st }, usage)
        } else if a == "-h"@ || a == "--help"@ {
            Err(usage)
        } else {
            Err("Unknown argument for trace-diff: "@ + a)
        }
    }
}

/// The command line of `trace-diff` (after the command's name), with a
/// context of three events unless it says otherwise.
pub open spec fn spec_trace_diff_args(args: Seq<Seq<char>>, usage: Seq<char>) -> Result<
    DiffScan,
    Seq<char>,
> {
    scan_trace_diff_args(
        args,
        0,
        DiffScan { sil: None, board: None, out: None, context: 3, fail_on_mismatch: false },
        usage,
    )
}

pub open spec fn diff_args_view(a: TraceDiffArgs) -> DiffScan {
    DiffScan {
        sil: Some(a.sil_path@),
        board: Some(a.board_path@),
        out: Some(a.out_path@),
        context: a.context_window,
        fail_on_mismatch: a.fail_on_mismatch,
    }
}

pub fn parse_trace_diff_args(args: &[String], usage: &str) -> (r: Result<TraceDiffArgs, String>)
    ensures
        match r {
            Ok(a) => spec_trace_diff_args(args_view(args@), usage@) == Ok::<DiffScan, Seq<char>>(
                diff_args_view(a),
            ),
            Err(e) => spec_trace_diff_args(args_view(args@), usage@) == Err::<DiffScan, Seq<char>>(
                e@,
            ),
        },
{
    let ghost av = args_view(args@);
    let mut sil: Option<String> = None;
    let mut board: Option<String> = None;
    let mut out: Option<String> = None;
    let mut context: usize = 3;
    let mut fail_on_mismatch = false;
    let mut i: usize = 0;
    while i < args.len()
        invariant
            i <= args@.len() + 1,
            av == args_view(args@),
            spec_trace_diff_args(av, usage@) == scan_trace_diff_args(
                av,
                i as int,
                DiffScan {
                    sil: opt_view(sil),
                    board: opt_view(board),
                    out: opt_view(out),
                    context,
                    fail_on_mismatch,
                },
                usage@,
            ),
        decreases args@.len() + 1 - i,
    {
        let a = args[i].as_str();
        assert(a@ == av[i as int]);
        if is_lit(a, "--sil") {
            sil = Some(take_value(args, i + 1, "Missing value for --sil <trace.jsonl>")?);
            i += 2;
        } else if is_lit(a, "--board") {
            board = Some(take_value(args, i + 1, "Missing value for --board <trace.jsonl>")?);
            i += 2;
        } else if is_lit(a, "--out") {
            out = Some(take_value(args, i + 1, "Missing value for --out <report.json>")?);
            i += 2;
        } else if is_lit(a, "--context") {
            let n = take_number(
                args,
                i + 1,
                "Missing value for --context <n>",
                "Invalid --context value (expected usize): ",
                usize::MAX as u64,
            )?;
            context = n as usize;
            i += 2;
        } else if is_lit(a, "--fail-on-mismatch") {
            fail_on_mismatch = true;
            i += 1;
        } else if is_lit(a, "-h") || is_lit(a, "--help") {
            return Err(owned(usage));
        } else {
            let mut m = owned("Unknown argument for trace-diff: ");
            push_str(&mut m, a);
            return Err(m);
        }
    }
    match (sil, board, out) {
        (Some(sil_path), Some(board_path), Some(out_path)) => Ok(
            TraceDiffArgs { sil_path, board_path, out_path, context_window: context, fail_on_mismatch },
        ),
        _ => Err(owned(usage)),
    }
}

// intent-doctor -----------------------------------------------------------------

/// What the command line of `intent-doctor` asks for.
#[derive(Debug, Clone, PartialEq, Eq)]
pub struct IntentDoctorArgs {
    pub plc_path: String,
    pub trace_path: String,
    pub intent_contract_path: Option<String>,
    pub top_n: usize,
    pub output: CliOutputMode,
}

/// The options of `intent-doctor` read so far.
pub struct IntentScan {
    pub trace: Option<Seq<char>>,
    pub contract: Option<Seq<char>>,
    pub top_n: usize,
    pub output: CliOutputMode,
}

/// The options of `intent-doctor` from position `i` on; the trace must be
/// given.
pub open spec fn scan_intent_args(args: Seq<Seq<char>>, i: int, st: IntentScan, usage: Seq<char>) -> Result<
    IntentScan,
    Seq<char>,
>
    decreases args.len() - i,
{
    if i < 0 || i >= args.len() {
        if st.trace is None {
            Err(usage)
        } else {
            Ok(st)
        }
    } else {
        let a = args[i];
        if a == "--trace"@ {
            match value_or(args, i + 1, "Missing value for --trace <trace.jsonl>"@) {
                Err(e) => Err(e),
                Ok(v) => scan_intent_args(args, i + 2, IntentScan { trace: Some(v), ..st }, usage),
            }
        } else if a == "--intent-contract"@ {
            match value_or(args, i + 1, "Missing value for --intent-contract <contract.json>"@) {
                Err(e) => Err(e),
                Ok(v) => scan_intent_args(args, i + 2, IntentScan { contract: Some(v), ..st }, usage),
            }
        } else if a == "--top"@ {
            match doctor_top_or(args, i + 1) {
                Err(e) => Err(e),
                Ok(n) => scan_intent_args(args, i + 2, IntentScan { top_n: n, ..st }, usage),
            }
        } else if a == "--output"@ {
            match output_or(args, i + 1) {
                Err(e) => Err(e),
                Ok(m) => scan_intent_args(args, i + 2, IntentScan { output: m, ..st }, usage),
            }
        } else if a == "-h"@ || a == "--help"@ {
            Err(usage)
        } else {
            Err("Unknown argument for intent-doctor: "@ + a)
        }
    }
}

/// The command line of `intent-doctor`: the PLC source, then its options,
/// with five candidates and text output unless they say otherwise.
pub open spec fn spec_intent_doctor_args(args: Seq<Seq<char>>, usage: Seq<char>) -> Result<
    (Seq<char>, IntentScan),
    Seq<char>,
> {
    if args.len() == 0 {
        Err(usage)
    } else {
        match scan_intent_args(
            args,
            1,
            IntentScan { trace: None, contract: None, top_n: 5, output: CliOutputMode::Human },
            usage,
        ) {
            Err(e) => Err(e),
            Ok(st) => Ok((args[0], st)),
        }
    }
}

pub open spec fn intent_args_view(a: IntentDoctorArgs) -> (Seq<char>, IntentScan) {
    (
        a.plc_path@,
        IntentScan {
            trace: Some(a.trace_path@),
            contract: opt_view(a.intent_contract_path),
            top_n: a.top_n,
            output: a.output,
        },
    )
}

pub fn parse_intent_doctor_args(args: &[String], usage: &str) -> (r: Result<IntentDoctorArgs, String>)
    ensures
        match r {
            Ok(a) => spec_intent_doctor_args(args_view(args@), usage@) == Ok::<
                (Seq<char>, IntentScan),
                Seq<char>,
            >(intent_args_view(a)),
            Err(e) => spec_intent_doctor_args(args_view(args@), usage@) == Err::<
                (Seq<char>, IntentScan),
                Seq<char>,
            >(e@),
        },
{
    let ghost av = args_view(args@);
    if args.len() == 0 {
        return Err(owned(usage));
    }
    let plc_path = crate::text::clone_string(&args[0]);
    let mut trace: Option<String> = None;
    let mut contract: Option<String> = None;
    let mut top_n: usize = 5;
    let mut output = CliOutputMode::Human;
    let mut i: usize = 1;
    while i < args.len()
        invariant
            1 <= i <= args@.len() + 1,
            av == args_view(args@),
            av.len() > 0,
            plc_path@ == av[0],
            scan_intent_args(
                av,
                1,
                IntentScan { trace: None, contract: None, top_n: 5, output: CliOutputMode::Human },
                usage@,
            ) == scan_intent_args(
                av,
                i as int,
                IntentScan { trace: opt_view(trace), contract: opt_view(contract), top_n, output },
                usage@,
            ),
        decreases args@.len() + 1 - i,
    {
        let a = args[i].as_str();
        assert(a@ == av[i as int]);
        if is_lit(a, "--trace") {
            trace = Some(take_value(args, i + 1, "Missing value for --trace <trace.jsonl>")?);
        } else if is_lit(a, "--intent-contract") {
            contract = Some(
                take_value(args, i + 1, "Missing value for --intent-contract <contract.json>")?,
            );
        } else if is_lit(a, "--top") {
            top_n = top_value(args, i + 1)?;
        } else if is_lit(a, "--output") {
            output = take_output(args, i + 1)?;
        } else if is_lit(a, "-h") || is_lit(a, "--help") {
            return Err(owned(usage));
        } else {
            let mut m = owned("Unknown argument for intent-doctor: ");
            push_str(&mut m, a);
            return Err(m);
        }
        i += 2;
    }
    match trace {
        Some(trace_path) => Ok(
            IntentDoctorArgs { plc_path, trace_path, intent_contract_path: contract, top_n, output },
        ),
        None => Err(owned(usage)),
    }
}

} // verus!
