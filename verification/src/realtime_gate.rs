//! Verdicts on a simulated run compared with a board run: the realtime
//! thresholds a timing report is held to, what is reported when a run falls
//! short, and the command lines of the commands that compare runs.
use vstd::prelude::*;
use crate::text::{
    chars_of, clone_string, decimal, eq_chars, format_u64, join, join_strings, owned,
    parse_unsigned, parse_unsigned_exec, push_str,
};

verus! {

// ---------------------------------------------------------------------------
// Output mode
// ---------------------------------------------------------------------------

/// How a command reports: text for people or JSON.
#[derive(Debug, Clone, Copy, PartialEq, Eq, Structural)]
pub enum CliOutputMode {
    Human,
    Json,
}

pub open spec fn output_mode_of(raw: Seq<char>) -> Option<CliOutputMode> {
    if raw == "human"@ {
        Some(CliOutputMode::Human)
    } else if raw == "json"@ {
        Some(CliOutputMode::Json)
    } else {
        None
    }
}

pub fn parse_cli_output_mode(raw: &str) -> (r: Option<CliOutputMode>)
    ensures
        r == output_mode_of(raw@),
{
    let v = chars_of(raw);
    let human = chars_of("human");
    let json = chars_of("json");
    if eq_chars(v.as_slice(), human.as_slice()) {
        Some(CliOutputMode::Human)
    } else if eq_chars(v.as_slice(), json.as_slice()) {
        Some(CliOutputMode::Json)
    } else {
        None
    }
}

pub open spec fn output_mode_text(m: CliOutputMode) -> Seq<char> {
    match m {
        CliOutputMode::Human => "human"@,
        CliOutputMode::Json => "json"@,
    }
}

pub fn cli_output_mode_str(m: CliOutputMode) -> (s: &'static str)
    ensures
        s@ == output_mode_text(m),
{
    match m {
        CliOutputMode::Human => "human",
        CliOutputMode::Json => "json",
    }
}

// ---------------------------------------------------------------------------
// Realtime thresholds
// ---------------------------------------------------------------------------

/// The limits a run's timing is held to; an absent limit is not checked.
#[derive(Debug, Clone, Copy, PartialEq, Eq, Structural)]
pub struct RealtimeThresholdConfig {
    pub max_p99_exec_us: Option<u64>,
    pub max_overrun_count: Option<u64>,
}

/// Whether the p99 execution time exceeds its limit.
pub open spec fn p99_exceeds(p99_exec_us: u64, t: RealtimeThresholdConfig) -> bool {
    t.max_p99_exec_us matches Some(limit) && p99_exec_us > limit
}

/// Whether the overrun count exceeds its limit.
pub open spec fn overruns_exceed(overrun_count: u64, t: RealtimeThresholdConfig) -> bool {
    t.max_overrun_count matches Some(limit) && overrun_count > limit
}

pub open spec fn gate_p99_message(p99_exec_us: u64, limit: u64) -> Seq<char> {
    "p99 exec_us="@ + decimal(p99_exec_us as nat) + " exceeds --max-p99-exec-us="@ + decimal(
        limit as nat,
    )
}

pub open spec fn gate_overrun_message(overrun_count: u64, limit: u64) -> Seq<char> {
    "overrun_count="@ + decimal(overrun_count as nat) + " exceeds --max-overrun-count="@ + decimal(
        limit as nat,
    )
}

/// The realtime failures of the no-board gate: the p99 execution time over
/// its limit, then the overrun count over its limit.
pub open spec fn spec_no_board_realtime_failures(
    p99_exec_us: u64,
    overrun_count: u64,
    t: RealtimeThresholdConfig,
) -> Seq<Seq<char>> {
    (if p99_exceeds(p99_exec_us, t) {
        seq![gate_p99_message(p99_exec_us, t.max_p99_exec_us->0)]
    } else {
        seq![]
    }) + (if overruns_exceed(overrun_count, t) {
        seq![gate_overrun_message(overrun_count, t.max_overrun_count->0)]
    } else {
        seq![]
    })
}

pub open spec fn strings_view(v: Seq<String>) -> Seq<Seq<char>> {
    v.map_values(|s: String| s@)
}

fn three(a: &str, n: u64, b: &str, m: u64) -> (r: String)
    ensures
        r@ == a@ + decimal(n as nat) + b@ + decimal(m as nat),
{
    let mut out = owned(a);
    push_str(&mut out, format_u64(n).as_str());
    push_str(&mut out, b);
    push_str(&mut out, format_u64(m).as_str());
    out
}

pub fn no_board_realtime_failures(
    p99_exec_us: u64,
    overrun_count: u64,
    thresholds: &RealtimeThresholdConfig,
) -> (r: Vec<String>)
    ensures
        strings_view(r@) == spec_no_board_realtime_failures(p99_exec_us, overrun_count, *thresholds),
{
    let mut out: Vec<String> = Vec::new();
    if let Some(limit) = thresholds.max_p99_exec_us {
        if p99_exec_us > limit {
            out.push(three("p99 exec_us=", p99_exec_us, " exceeds --max-p99-exec-us=", limit));
        }
    }
    let ghost first = strings_view(out@);
    if let Some(limit) = thresholds.max_overrun_count {
        if overrun_count > limit {
            out.push(three("overrun_count=", overrun_count, " exceeds --max-overrun-count=", limit));
        }
    }
    assert(strings_view(out@) =~= spec_no_board_realtime_failures(
        p99_exec_us,
        overrun_count,
        *thresholds,
    ));
    out
}

/// `pass` when the traces match and no realtime limit is exceeded, `fail`
/// otherwise.
pub fn no_board_gate_status(trace_match: bool, realtime_failures: &[String]) -> (s: &'static str)
    ensures
        s@ == (if trace_match && realtime_failures@.len() == 0 {
            "pass"@
        } else {
            "fail"@
        }),
{
    if trace_match && realtime_failures.len() == 0 {
        "pass"
    } else {
        "fail"
    }
}

/// The reasons the no-board gate gives when it fails: the trace mismatch,
/// pointing at the diff report, then the realtime failures joined by `; `.
pub open spec fn spec_no_board_gate_reasons(
    trace_match: bool,
    diff_report_path: Seq<char>,
    failures: Seq<Seq<char>>,
) -> Seq<Seq<char>> {
    (if !trace_match {
        seq!["trace mismatch (see "@ + diff_report_path + ")"@]
    } else {
        seq![]
    }) + (if failures.len() > 0 {
        seq!["realtime threshold exceeded ("@ + join(failures, "; "@) + ")"@]
    } else {
        seq![]
    })
}

/// The no-board gate passes when the traces match and no realtime limit is
/// exceeded; otherwise it fails with `no-board-gate failed: ` and its
/// reasons joined by `, `.
pub fn no_board_gate_verdict(
    trace_match: bool,
    diff_report_path: &str,
    realtime_failures: &[String],
) -> (r: Result<(), String>)
    ensures
        r is Ok <==> trace_match && realtime_failures@.len() == 0,
        r matches Err(e) ==> e@ == "no-board-gate failed: "@ + join(
            spec_no_board_gate_reasons(
                trace_match,
                diff_report_path@,
                strings_view(realtime_failures@),
            ),
            ", "@,
        ),
{
    if trace_match && realtime_failures.len() == 0 {
        return Ok(());
    }
    let mut reasons: Vec<String> = Vec::new();
    if !trace_match {
        let mut m = owned("trace mismatch (see ");
        push_str(&mut m, diff_report_path);
        push_str(&mut m, ")");
        reasons.push(m);
    }
    if realtime_failures.len() > 0 {
        let mut m = owned("realtime threshold exceeded (");
        push_str(&mut m, join_strings(realtime_failures, "; ").as_str());
        push_str(&mut m, ")");
        reasons.push(m);
    }
    assert(strings_view(reasons@) =~= spec_no_board_gate_reasons(
        trace_match,
        diff_report_path@,
        strings_view(realtime_failures@),
    ));
    let mut out = owned("no-board-gate failed: ");
    push_str(&mut out, join_strings(reasons.as_slice(), ", ").as_str());
    Err(out)
}

// ---------------------------------------------------------------------------
// Before a release
// ---------------------------------------------------------------------------

/// The verdict on a run before a release: whether its traces match, whether
/// it met its realtime limits, and why not.
#[derive(Debug, Clone, PartialEq, Eq)]
pub struct GateSummary {
    pub schema_version: u32,
    pub trace_match: bool,
    pub realtime_pass: bool,
    pub passed: bool,
    pub p99_exec_us: u64,
    pub overrun_count: u64,
    pub thresholds: RealtimeThresholdConfig,
    pub reasons: Vec<String>,
}

pub open spec fn release_p99_message(p99_exec_us: u64, limit: u64) -> Seq<char> {
    "p99 exec_us="@ + decimal(p99_exec_us as nat) + " exceeds threshold "@ + decimal(limit as nat)
}

pub open spec fn release_overrun_message(overrun_count: u64, limit: u64) -> Seq<char> {
    "overrun_count="@ + decimal(overrun_count as nat) + " exceeds threshold "@ + decimal(
        limit as nat,
    )
}

/// The reasons given before a release: the trace mismatch with its
/// details, the p99 execution time over its limit, the overrun count over
/// its limit.
pub open spec fn spec_release_gate_reasons(
    trace_match: bool,
    mismatch_detail: Seq<char>,
    p99_exec_us: u64,
    overrun_count: u64,
    t: RealtimeThresholdConfig,
) -> Seq<Seq<char>> {
    (if !trace_match {
        seq!["trace mismatch ("@ + mismatch_detail + ")"@]
    } else {
        seq![]
    }) + (if p99_exceeds(p99_exec_us, t) {
        seq![release_p99_message(p99_exec_us, t.max_p99_exec_us->0)]
    } else {
        seq![]
    }) + (if overruns_exceed(overrun_count, t) {
        seq![release_overrun_message(overrun_count, t.max_overrun_count->0)]
    } else {
        seq![]
    })
}

/// The verdict on a run before a release; `mismatch_detail` tells where the
/// simulated and the board trace part. A run passes exactly when the traces
/// match and neither limit is exceeded.
pub fn release_gate_summary(
    trace_match: bool,
    mismatch_detail: &str,
    p99_exec_us: u64,
    overrun_count: u64,
    thresholds: RealtimeThresholdConfig,
) -> (r: GateSummary)
    ensures
        r.schema_version == 1,
        r.trace_match == trace_match,
        r.realtime_pass == !(p99_exceeds(p99_exec_us, thresholds) || overruns_exceed(
            overrun_count,
            thresholds,
        )),
        r.passed == (trace_match && r.realtime_pass),
        r.p99_exec_us == p99_exec_us,
        r.overrun_count == overrun_count,
        r.thresholds == thresholds,
        strings_view(r.reasons@) == spec_release_gate_reasons(
            trace_match,
            mismatch_detail@,
            p99_exec_us,
            overrun_count,
            thresholds,
        ),
{
    let mut reasons: Vec<String> = Vec::new();
    let mut realtime_pass = true;
    if !trace_match {
        let mut m = owned("trace mismatch (");
        push_str(&mut m, mismatch_detail);
        push_str(&mut m, ")");
        reasons.push(m);
    }
    if let Some(limit) = thresholds.max_p99_exec_us {
        if p99_exec_us > limit {
            realtime_pass = false;
            reasons.push(three("p99 exec_us=", p99_exec_us, " exceeds threshold ", limit));
        }
    }
    if let Some(limit) = thresholds.max_overrun_count {
        if overrun_count > limit {
            realtime_pass = false;
            reasons.push(three("overrun_count=", overrun_count, " exceeds threshold ", limit));
        }
    }
    assert(strings_view(reasons@) =~= spec_release_gate_reasons(
        trace_match,
        mismatch_detail@,
        p99_exec_us,
        overrun_count,
        thresholds,
    ));
    let passed = reasons.len() == 0;
    GateSummary {
        schema_version: 1,
        trace_match,
        realtime_pass,
        passed,
        p99_exec_us,
        overrun_count,
        thresholds,
        reasons,
    }
}

// ---------------------------------------------------------------------------
// Command lines
// ---------------------------------------------------------------------------

pub open spec fn arg_at(args: Seq<Seq<char>>, j: int) -> Option<Seq<char>> {
    if 0 <= j < args.len() {
        Some(args[j])
    } else {
        None
    }
}

/// The value that follows an option, or `missing` when there is none.
pub open spec fn value_or(args: Seq<Seq<char>>, j: int, missing: Seq<char>) -> Result<
    Seq<char>,
    Seq<char>,
> {
    match arg_at(args, j) {
        Some(v) => Ok(v),
        None => Err(missing),
    }
}

/// The number that follows an option (`str::parse` of an unsigned type
/// whose largest value is `max`): `missing` when there is none, `invalid`
/// followed by the text when it is no such number.
pub open spec fn number_or(
    args: Seq<Seq<char>>,
    j: int,
    missing: Seq<char>,
    invalid: Seq<char>,
    max: nat,
) -> Result<nat, Seq<char>> {
    match arg_at(args, j) {
        None => Err(missing),
        Some(raw) => match parse_unsigned(raw, max) {
            Some(n) => Ok(n),
            None => Err(invalid + raw),
        },
    }
}

/// The output mode that follows `--output`.
pub open spec fn output_or(args: Seq<Seq<char>>, j: int) -> Result<CliOutputMode, Seq<char>> {
    match arg_at(args, j) {
        None => Err("Missing value for --output <human|json>"@),
        Some(raw) => match output_mode_of(raw) {
            Some(m) => Ok(m),
            None => Err(
                "Invalid --output value `"@ + raw + "` (expected `human` or `json`)"@,
            ),
        },
    }
}

pub open spec fn args_view(args: Seq<String>) -> Seq<Seq<char>> {
    args.map_values(|s: String| s@)
}

pub(crate) fn is_lit(a: &str, lit: &str) -> (r: bool)
    ensures
        r == (a@ == lit@),
{
    let x = chars_of(a);
    let y = chars_of(lit);
    eq_chars(x.as_slice(), y.as_slice())
}

pub(crate) fn take_value(args: &[String], j: usize, missing: &str) -> (r: Result<String, String>)
    ensures
        match r {
            Ok(v) => value_or(args_view(args@), j as int, missing@) == Ok::<Seq<char>, Seq<char>>(v@),
            Err(e) => value_or(args_view(args@), j as int, missing@) == Err::<Seq<char>, Seq<char>>(
                e@,
            ),
        },
{
    if j < args.len() {
        Ok(clone_string(&args[j]))
    } else {
        Err(owned(missing))
    }
}

pub(crate) fn take_number(args: &[String], j: usize, missing: &str, invalid: &str, max: u64) -> (r: Result<
    u64,
    String,
>)
    ensures
        match r {
            Ok(n) => number_or(args_view(args@), j as int, missing@, invalid@, max as nat) == Ok::<
                nat,
                Seq<char>,
            >(n as nat),
            Err(e) => number_or(args_view(args@), j as int, missing@, invalid@, max as nat)
                == Err::<nat, Seq<char>>(e@),
        },
{
    if j >= args.len() {
        return Err(owned(missing));
    }
    let v = chars_of(args[j].as_str());
    match parse_unsigned_exec(v.as_slice(), max) {
        Some(n) => Ok(n),
        None => {
            let mut out = owned(invalid);
            push_str(&mut out, args[j].as_str());
            Err(out)
        },
    }
}

pub(crate) fn take_output(args: &[String], j: usize) -> (r: Result<CliOutputMode, String>)
    ensures
        match r {
            Ok(m) => output_or(args_view(args@), j as int) == Ok::<CliOutputMode, Seq<char>>(m),
            Err(e) => output_or(args_view(args@), j as int) == Err::<CliOutputMode, Seq<char>>(e@),
        },
{
    if j >= args.len() {
        return Err(owned("Missing value for --output <human|json>"));
    }
    match parse_cli_output_mode(args[j].as_str()) {
        Some(m) => Ok(m),
        None => {
            let mut out = owned("Invalid --output value `");
            push_str(&mut out, args[j].as_str());
            push_str(&mut out, "` (expected `human` or `json`)");
            Err(out)
        },
    }
}

pub open spec fn opt_view(v: Option<String>) -> Option<Seq<char>> {
    match v {
        Some(s) => Some(s@),
        None => None,
    }
}

pub(crate) fn clone_opt(v: &Option<String>) -> (r: Option<String>)
    ensures
        opt_view(r) == opt_view(*v),
{
    match v {
        Some(s) => Some(clone_string(s)),
        None => None,
    }
}

// The no-board gate --------------------------------------------------------

/// What the command line of the no-board gate asks for.
#[derive(Debug, Clone, PartialEq, Eq)]
pub struct NoBoardGateArgs {
    pub plc_path: String,
    pub sil_scenario_path: String,
    pub board_scenario_path: String,
    pub out_dir: String,
    pub context_window: usize,
    pub thresholds: RealtimeThresholdConfig,
    pub output: CliOutputMode,
}

pub struct NoBoardGateArgsView {
    pub plc_path: Seq<char>,
    pub sil_scenario_path: Seq<char>,
    pub board_scenario_path: Seq<char>,
    pub out_dir: Seq<char>,
    pub context_window: usize,
    pub thresholds: RealtimeThresholdConfig,
    pub output: CliOutputMode,
}

impl View for NoBoardGateArgs {
    type V = NoBoardGateArgsView;

    open spec fn view(&self) -> NoBoardGateArgsView {
        NoBoardGateArgsView {
            plc_path: self.plc_path@,
            sil_scenario_path: self.sil_scenario_path@,
            board_scenario_path: self.board_scenario_path@,
            out_dir: self.out_dir@,
            context_window: self.context_window,
            thresholds: self.thresholds,
            output: self.output,
        }
    }
}

/// The options of the no-board gate read so far.
pub struct GateScan {
    pub scenario: Option<Seq<char>>,
    pub sil: Option<Seq<char>>,
    pub board: Option<Seq<char>>,
    pub out_dir: Option<Seq<char>>,
    pub context: usize,
    pub max_p99: Option<u64>,
    pub max_overrun: Option<u64>,
    pub output: CliOutputMode,
}

/// Once every option is read: the output directory must be given, and the
/// scenario of each side is its own option or else `--scenario`; the usage
/// text is the answer otherwise.
pub open spec fn finish_gate_scan(plc: Seq<char>, st: GateScan, usage: Seq<char>) -> Result<
    NoBoardGateArgsView,
    Seq<char>,
> {
    let sil = if st.sil is Some {
        st.sil
    } else {
        st.scenario
    };
    let board = if st.board is Some {
        st.board
    } else {
        st.scenario
    };
    if st.out_dir is None || sil is None || board is None {
        Err(usage)
    } else {
        Ok(
            NoBoardGateArgsView {
                plc_path: plc,
                sil_scenario_path: sil->0,
                board_scenario_path: board->0,
                out_dir: st.out_dir->0,
                context_window: st.context,
                thresholds: RealtimeThresholdConfig {
                    max_p99_exec_us: st.max_p99,
                    max_overrun_count: st.max_overrun,
                },
                output: st.output,
            },
        )
    }
}

/// The options from position `i` on: each takes the next argument as its
/// value; `-h` or `--help` answers with the usage text; anything else is
/// refused.
pub open spec fn scan_gate_args(
    args: Seq<Seq<char>>,
    i: int,
    plc: Seq<char>,
    st: GateScan,
    usage: Seq<char>,
) -> Result<NoBoardGateArgsView, Seq<char>>
    decreases args.len() - i,
{
    if i < 0 || i >= args.len() {
        finish_gate_scan(plc, st, usage)
    } else {
        let a = args[i];
        if a == "--scenario"@ {
            match value_or(args, i + 1, "Missing value for --scenario <scenario.yaml>"@) {
                Err(e) => Err(e),
                Ok(v) => scan_gate_args(args, i + 2, plc, GateScan { scenario: Some(v), ..st }, usage),
            }
        } else if a == "--sil-scenario"@ {
            match value_or(args, i + 1, "Missing value for --sil-scenario <scenario.yaml>"@) {
                Err(e) => Err(e),
                Ok(v) => scan_gate_args(args, i + 2, plc, GateScan { sil: Some(v), ..st }, usage),
            }
        } else if a == "--board-scenario"@ {
            match value_or(args, i + 1, "Missing value for --board-scenario <scenario.yaml>"@) {
                Err(e) => Err(e),
                Ok(v) => scan_gate_args(args, i + 2, plc, GateScan { board: Some(v), ..st }, usage),
            }
        } else if a == "--out-dir"@ {
            match value_or(args, i + 1, "Missing value for --out-dir <dir>"@) {
                Err(e) => Err(e),
                Ok(v) => scan_gate_args(args, i + 2, plc, GateScan { out_dir: Some(v), ..st }, usage),
            }
        } else if a == "--context"@ {
            match number_or(
                args,
                i + 1,
                "Missing value for --context <n>"@,
                "Invalid --context value (expected usize): "@,
                usize::MAX as nat,
            ) {
                Err(e) => Err(e),
                Ok(n) => scan_gate_args(
                    args,
                    i + 2,
                    plc,
                    GateScan { context: n as usize, ..st },
                    usage,
                ),
            }
        } else if a == "--max-p99-exec-us"@ {
            match number_or(
                args,
                i + 1,
                "Missing value for --max-p99-exec-us <us>"@,
                "Invalid --max-p99-exec-us value (expected u64): "@,
                u64::MAX as nat,
            ) {
                Err(e) => Err(e),
                Ok(n) => scan_gate_args(
                    args,
                    i + 2,
                    plc,
                    GateScan { max_p99: Some(n as u64), ..st },
                    usage,
                ),
            }
        } else if a == "--max-overrun-count"@ {
            match number_or(
                args,
                i + 1,
                "Missing value for --max-overrun-count <n>"@,
                "Invalid --max-overrun-count value (expected u64): "@,
                u64::MAX as nat,
            ) {
                Err(e) => Err(e),
                Ok(n) => scan_gate_args(
                    args,
                    i + 2,
                    plc,
                    GateScan { max_overrun: Some(n as u64), ..st },
                    usage,
                ),
            }
        } else if a == "--output"@ {
            match output_or(args, i + 1) {
                Err(e) => Err(e),
                Ok(m) => scan_gate_args(args, i + 2, plc, GateScan { output: m, ..st }, usage),
            }
        } else if a == "-h"@ || a == "--help"@ {
            Err(usage)
        } else {
            Err("Unknown argument for no-board-gate: "@ + a)
        }
    }
}

/// The command line of the no-board gate (after the command's name): the
/// PLC source, then its options; the usage text when the source is missing.
pub open spec fn spec_no_board_gate_args(args: Seq<Seq<char>>, usage: Seq<char>) -> Result<
    NoBoardGateArgsView,
    Seq<char>,
> {
    if args.len() == 0 {
        Err(usage)
    } else {
        scan_gate_args(
            args,
            1,
            args[0],
            GateScan {
                scenario: None,
                sil: None,
                board: None,
                out_dir: None,
                context: 3,
                max_p99: None,
                max_overrun: None,
                output: CliOutputMode::Human,
            },
            usage,
        )
    }
}

pub fn parse_no_board_gate_args(args: &[String], usage: &str) -> (r: Result<NoBoardGateArgs, String>)
    ensures
        match r {
            Ok(a) => spec_no_board_gate_args(args_view(args@), usage@) == Ok::<
                NoBoardGateArgsView,
                Seq<char>,
            >(a@),
            Err(e) => spec_no_board_gate_args(args_view(args@), usage@) == Err::<
                NoBoardGateArgsView,
                Seq<char>,
            >(e@),
        },
{
    let ghost av = args_view(args@);
    if args.len() == 0 {
        return Err(owned(usage));
    }
    let plc_path = clone_string(&args[0]);
    let mut scenario: Option<String> = None;
    let mut sil: Option<String> = None;
    let mut board: Option<String> = None;
    let mut out_dir: Option<String> = None;
    let mut context: usize = 3;
    let mut max_p99: Option<u64> = None;
    let mut max_overrun: Option<u64> = None;
    let mut output = CliOutputMode::Human;
    let mut i: usize = 1;
    while i < args.len()
        invariant
            1 <= i <= args@.len() + 1,
            av == args_view(args@),
            av.len() > 0,
            plc_path@ == av[0],
            spec_no_board_gate_args(av, usage@) == scan_gate_args(
                av,
                i as int,
                plc_path@,
                GateScan {
                    scenario: opt_view(scenario),
                    sil: opt_view(sil),
                    board: opt_view(board),
                    out_dir: opt_view(out_dir),
                    context,
                    max_p99,
                    max_overrun,
                    output,
                },
                usage@,
            ),
        decreases args@.len() + 1 - i,
    {
        let a = args[i].as_str();
        assert(a@ == av[i as int]);
        if is_lit(a, "--scenario") {
            let v = take_value(args, i + 1, "Missing value for --scenario <scenario.yaml>")?;
            scenario = Some(v);
        } else if is_lit(a, "--sil-scenario") {
            let v = take_value(args, i + 1, "Missing value for --sil-scenario <scenario.yaml>")?;
            sil = Some(v);
        } else if is_lit(a, "--board-scenario") {
            let v = take_value(args, i + 1, "Missing value for --board-scenario <scenario.yaml>")?;
            board = Some(v);
        } else if is_lit(a, "--out-dir") {
            let v = take_value(args, i + 1, "Missing value for --out-dir <dir>")?;
            out_dir = Some(v);
        } else if is_lit(a, "--context") {
            let n = take_number(
                args,
                i + 1,
                "Missing value for --context <n>",
                "Invalid --context value (expected usize): ",
                usize::MAX as u64,
            )?;
            context = n as usize;
        } else if is_lit(a, "--max-p99-exec-us") {
            let n = take_number(
                args,
                i + 1,
                "Missing value for --max-p99-exec-us <us>",
                "Invalid --max-p99-exec-us value (expected u64): ",
                u64::MAX,
            )?;
            max_p99 = Some(n);
        } else if is_lit(a, "--max-overrun-count") {
            let n = take_number(
                args,
                i + 1,
                "Missing value for --max-overrun-count <n>",
                "Invalid --max-overrun-count value (expected u64): ",
                u64::MAX,
            )?;
            max_overrun = Some(n);
        } else if is_lit(a, "--output") {
            output = take_output(args, i + 1)?;
        } else if is_lit(a, "-h") || is_lit(a, "--help") {
            return Err(owned(usage));
        } else {
            let mut out = owned("Unknown argument for no-board-gate: ");
            push_str(&mut out, a);
            return Err(out);
        }
        i += 2;
    }
    let sil_path = if sil.is_some() {
        sil
    } else {
        clone_opt(&scenario)
    };
    let board_path = if board.is_some() {
        board
    } else {
        clone_opt(&scenario)
    };
    match (out_dir, sil_path, board_path) {
        (Some(out_dir), Some(sil_scenario_path), Some(board_scenario_path)) => Ok(
            NoBoardGateArgs {
                plc_path,
                sil_scenario_path,
                board_scenario_path,
                out_dir,
                context_window: context,
                thresholds: RealtimeThresholdConfig {
                    max_p99_exec_us: max_p99,
                    max_overrun_count: max_overrun,
                },
                output,
            },
        ),
        _ => Err(owned(usage)),
    }
}

// The release bundle --------------------------------------------------------

/// What the command line of a release bundle asks for.
#[derive(Debug, Clone, PartialEq, Eq)]
pub struct ReleaseBundleArgs {
    pub plc_path: String,
    pub scenario_path: String,
    pub out_dir: String,
    pub io_map_path: Option<String>,
    pub thresholds: RealtimeThresholdConfig,
}

pub struct ReleaseBundleArgsView {
    pub plc_path: Seq<char>,
    pub scenario_path: Seq<char>,
    pub out_dir: Seq<char>,
    pub io_map_path: Option<Seq<char>>,
    pub thresholds: RealtimeThresholdConfig,
}

impl View for ReleaseBundleArgs {
    type V = ReleaseBundleArgsView;

    open spec fn view(&self) -> ReleaseBundleArgsView {
        ReleaseBundleArgsView {
            plc_path: self.plc_path@,
            scenario_path: self.scenario_path@,
            out_dir: self.out_dir@,
            io_map_path: opt_view(self.io_map_path),
            thresholds: self.thresholds,
        }
    }
}

/// The options of a release bundle read so far.
pub struct ReleaseScan {
    pub scenario: Option<Seq<char>>,
    pub out_dir: Option<Seq<char>>,
    pub io_map: Option<Seq<char>>,
    pub max_p99: Option<u64>,
    pub max_overrun: Option<u64>,
}

/// The options from position `i` on; the scenario and the output directory
/// must be given.
pub open spec fn scan_release_args(
    args: Seq<Seq<char>>,
    i: int,
    plc: Seq<char>,
    st: ReleaseScan,
    usage: Seq<char>,
) -> Result<ReleaseBundleArgsView, Seq<char>>
    decreases args.len() - i,
{
    if i < 0 || i >= args.len() {
        if st.scenario is None || st.out_dir is None {
            Err(usage)
        } else {
            Ok(
                ReleaseBundleArgsView {
                    plc_path: plc,
                    scenario_path: st.scenario->0,
                    out_dir: st.out_dir->0,
                    io_map_path: st.io_map,
                    thresholds: RealtimeThresholdConfig {
                        max_p99_exec_us: st.max_p99,
                        max_overrun_count: st.max_overrun,
                    },
                },
            )
        }
    } else {
        let a = args[i];
        if a == "--scenario"@ {
            match value_or(args, i + 1, "Missing value for --scenario <scenario.yaml>"@) {
                Err(e) => Err(e),
                Ok(v) => scan_release_args(
                    args,
                    i + 2,
                    plc,
                    ReleaseScan { scenario: Some(v), ..st },
                    usage,
                ),
            }
        } else if a == "--out-dir"@ {
            match value_or(args, i + 1, "Missing value for --out-dir <dir>"@) {
                Err(e) => Err(e),
                Ok(v) => scan_release_args(
                    args,
                    i + 2,
                    plc,
                    ReleaseScan { out_dir: Some(v), ..st },
                    usage,
                ),
            }
        } else if a == "--io-map"@ {
            match value_or(args, i + 1, "Missing value for --io-map <file>"@) {
                Err(e) => Err(e),
                Ok(v) => scan_release_args(
                    args,
                    i + 2,
                    plc,
                    ReleaseScan { io_map: Some(v), ..st },
                    usage,
                ),
            }
        } else if a == "--max-p99-exec-us"@ {
            match number_or(
                args,
                i + 1,
                "Missing value for --max-p99-exec-us <us>"@,
                "Invalid --max-p99-exec-us value (expected u64): "@,
                u64::MAX as nat,
            ) {
                Err(e) => Err(e),
                Ok(n) => scan_release_args(
                    args,
                    i + 2,
                    plc,
                    ReleaseScan { max_p99: Some(n as u64), ..st },
                    usage,
                ),
            }
        } else if a == "--max-overrun-count"@ {
            match number_or(
                args,
                i + 1,
                "Missing value for --max-overrun-count <n>"@,
                "Invalid --max-overrun-count value (expected u64): "@,
                u64::MAX as nat,
            ) {
                Err(e) => Err(e),
                Ok(n) => scan_release_args(
                    args,
                    i + 2,
                    plc,
                    ReleaseScan { max_overrun: Some(n as u64), ..st },
                    usage,
                ),
            }
        } else if a == "-h"@ || a == "--help"@ {
            Err(usage)
        } else {
            Err("Unknown argument for release-bundle: "@ + a)
        }
    }
}

/// The command line of a release bundle (after the command's name).
pub open spec fn spec_release_bundle_args(args: Seq<Seq<char>>, usage: Seq<char>) -> Result<
    ReleaseBundleArgsView,
    Seq<char>,
> {
    if args.len() == 0 {
        Err(usage)
    } else {
        scan_release_args(
            args,
            1,
            args[0],
            ReleaseScan {
                scenario: None,
                out_dir: None,
                io_map: None,
                max_p99: None,
                max_overrun: None,
            },
            usage,
        )
    }
}

pub fn parse_release_bundle_args(args: &[String], usage: &str) -> (r: Result<
    ReleaseBundleArgs,
    String,
>)
    ensures
        match r {
            Ok(a) => spec_release_bundle_args(args_view(args@), usage@) == Ok::<
                ReleaseBundleArgsView,
                Seq<char>,
            >(a@),
            Err(e) => spec_release_bundle_args(args_view(args@), usage@) == Err::<
                ReleaseBundleArgsView,
                Seq<char>,
            >(e@),
        },
{
    let ghost av = args_view(args@);
    if args.len() == 0 {
        return Err(owned(usage));
    }
    let plc_path = clone_string(&args[0]);
    let mut scenario: Option<String> = None;
    let mut out_dir: Option<String> = None;
    let mut io_map: Option<String> = None;
    let mut max_p99: Option<u64> = None;
    let mut max_overrun: Option<u64> = None;
    let mut i: usize = 1;
    while i < args.len()
        invariant
            1 <= i <= args@.len() + 1,
            av == args_view(args@),
            av.len() > 0,
            plc_path@ == av[0],
            spec_release_bundle_args(av, usage@) == scan_release_args(
                av,
                i as int,
                plc_path@,
                ReleaseScan {
                    scenario: opt_view(scenario),
                    out_dir: opt_view(out_dir),
                    io_map: opt_view(io_map),
                    max_p99,
                    max_overrun,
                },
                usage@,
            ),
        decreases args@.len() + 1 - i,
    {
        let a = args[i].as_str();
        assert(a@ == av[i as int]);
        if is_lit(a, "--scenario") {
            let v = take_value(args, i + 1, "Missing value for --scenario <scenario.yaml>")?;
            scenario = Some(v);
        } else if is_lit(a, "--out-dir") {
            let v = take_value(args, i + 1, "Missing value for --out-dir <dir>")?;
            out_dir = Some(v);
        } else if is_lit(a, "--io-map") {
            let v = take_value(args, i + 1, "Missing value for --io-map <file>")?;
            io_map = Some(v);
        } else if is_lit(a, "--max-p99-exec-us") {
            let n = take_number(
                args,
                i + 1,
                "Missing value for --max-p99-exec-us <us>",
                "Invalid --max-p99-exec-us value (expected u64): ",
                u64::MAX,
            )?;
            max_p99 = Some(n);
        } else if is_lit(a, "--max-overrun-count") {
            let n = take_number(
                args,
                i + 1,
                "Missing value for --max-overrun-count <n>",
                "Invalid --max-overrun-count value (expected u64): ",
                u64::MAX,
            )?;
            max_overrun = Some(n);
        } else if is_lit(a, "-h") || is_lit(a, "--help") {
            return Err(owned(usage));
        } else {
            let mut out = owned("Unknown argument for release-bundle: ");
            push_str(&mut out, a);
            return Err(out);
        }
        i += 2;
    }
    match (scenario, out_dir) {
        (Some(scenario_path), Some(out_dir)) => Ok(
            ReleaseBundleArgs {
                plc_path,
                scenario_path,
                out_dir,
                io_map_path: io_map,
                thresholds: RealtimeThresholdConfig {
                    max_p99_exec_us: max_p99,
                    max_overrun_count: max_overrun,
                },
            },
        ),
        _ => Err(owned(usage)),
    }
}

// The commissioning run -----------------------------------------------------

/// What the command line of a commissioning run asks for.
#[derive(Debug, Clone, PartialEq, Eq)]
pub struct CommissioningRunArgs {
    pub plc_path: String,
    pub out_dir: String,
    pub output: CliOutputMode,
}

/// The options from position `i` on; the output directory must be given.
pub open spec fn scan_commissioning_args(
    args: Seq<Seq<char>>,
    i: int,
    out_dir: Option<Seq<char>>,
    output: CliOutputMode,
    usage: Seq<char>,
) -> Result<(Seq<char>, CliOutputMode), Seq<char>>
    decreases args.len() - i,
{
    if i < 0 || i >= args.len() {
        match out_dir {
            None => Err(usage),
            Some(d) => Ok((d, output)),
        }
    } else {
        let a = args[i];
        if a == "--out-dir"@ {
            match value_or(args, i + 1, "Missing value for --out-dir <dir>"@) {
                Err(e) => Err(e),
                Ok(v) => scan_commissioning_args(args, i + 2, Some(v), output, usage),
            }
        } else if a == "--output"@ {
            match output_or(args, i + 1) {
                Err(e) => Err(e),
                Ok(m) => scan_commissioning_args(args, i + 2, out_dir, m, usage),
            }
        } else if a == "-h"@ || a == "--help"@ {
            Err(usage)
        } else {
            Err("Unknown argument for commissioning-run: "@ + a)
        }
    }
}

/// The command line of a commissioning run (after the command's name): the
/// PLC source, the output directory and the output mode.
pub open spec fn spec_commissioning_run_args(args: Seq<Seq<char>>, usage: Seq<char>) -> Result<
    (Seq<char>, Seq<char>, CliOutputMode),
    Seq<char>,
> {
    if args.len() == 0 {
        Err(usage)
    } else {
        match scan_commissioning_args(args, 1, None, CliOutputMode::Human, usage) {
            Err(e) => Err(e),
            Ok((d, m)) => Ok((args[0], d, m)),
        }
    }
}

pub fn parse_commissioning_run_args(args: &[String], usage: &str) -> (r: Result<
    CommissioningRunArgs,
    String,
>)
    ensures
        match r {
            Ok(a) => spec_commissioning_run_args(args_view(args@), usage@) == Ok::<
                (Seq<char>, Seq<char>, CliOutputMode),
                Seq<char>,
            >((a.plc_path@, a.out_dir@, a.output)),
            Err(e) => spec_commissioning_run_args(args_view(args@), usage@) == Err::<
                (Seq<char>, Seq<char>, CliOutputMode),
                Seq<char>,
            >(e@),
        },
{
    let ghost av = args_view(args@);
    if args.len() == 0 {
        return Err(owned(usage));
    }
    let plc_path = clone_string(&args[0]);
    let mut out_dir: Option<String> = None;
    let mut output = CliOutputMode::Human;
    let mut i: usize = 1;
    while i < args.len()
        invariant
            1 <= i <= args@.len() + 1,
            av == args_view(args@),
            av.len() > 0,
            plc_path@ == av[0],
            scan_commissioning_args(av, 1, None, CliOutputMode::Human, usage@)
                == scan_commissioning_args(av, i as int, opt_view(out_dir), output, usage@),
        decreases args@.len() + 1 - i,
    {
        let a = args[i].as_str();
        assert(a@ == av[i as int]);
        if is_lit(a, "--out-dir") {
            let v = take_value(args, i + 1, "Missing value for --out-dir <dir>")?;
            out_dir = Some(v);
        } else if is_lit(a, "--output") {
            output = take_output(args, i + 1)?;
        } else if is_lit(a, "-h") || is_lit(a, "--help") {
            return Err(owned(usage));
        } else {
            let mut out = owned("Unknown argument for commissioning-run: ");
            push_str(&mut out, a);
            return Err(out);
        }
        i += 2;
    }
    match out_dir {
        Some(out_dir) => Ok(CommissioningRunArgs { plc_path, out_dir, output }),
        None => Err(owned(usage)),
    }
}


/// The no-board gate compares runs of one tick: the SIL and board scenarios
/// must have the same `tick_ms`.
pub fn check_gate_tick_ms(sil_tick_ms: u64, board_tick_ms: u64) -> (r: Result<(), String>)
    ensures
        r is Ok <==> sil_tick_ms == board_tick_ms,
        r is Err ==> r->Err_0@ == "SIL tick_ms ("@ + decimal(sil_tick_ms as nat)
            + ") must match board tick_ms ("@ + decimal(board_tick_ms as nat)
            + ") for no-board-gate"@,
{
    if sil_tick_ms == board_tick_ms {
        return Ok(());
    }
    let mut m = owned("SIL tick_ms (");
    push_str(&mut m, format_u64(sil_tick_ms).as_str());
    push_str(&mut m, ") must match board tick_ms (");
    push_str(&mut m, format_u64(board_tick_ms).as_str());
    push_str(&mut m, ") for no-board-gate");
    Err(m)
}


/// The realtime failures name each limit that is set and exceeded, each
/// independently of the other limit, and there are none exactly when no set
/// limit is exceeded.
pub proof fn law_realtime_failures_name_exceeded_limits(
    p99_exec_us: u64,
    overrun_count: u64,
    t: RealtimeThresholdConfig,
)
    ensures
        (t.max_overrun_count matches Some(limit) && overrun_count > limit) ==> spec_no_board_realtime_failures(
            p99_exec_us,
            overrun_count,
            t,
        ).contains(gate_overrun_message(overrun_count, t.max_overrun_count->0)),
        (t.max_p99_exec_us matches Some(limit) && p99_exec_us > limit) ==> spec_no_board_realtime_failures(
            p99_exec_us,
            overrun_count,
            t,
        ).contains(gate_p99_message(p99_exec_us, t.max_p99_exec_us->0)),
        forall|k: int|
            0 <= k < spec_no_board_realtime_failures(p99_exec_us, overrun_count, t).len() ==> {
                ||| (t.max_p99_exec_us matches Some(limit) && p99_exec_us > limit
                    && #[trigger] spec_no_board_realtime_failures(p99_exec_us, overrun_count, t)[k]
                    == gate_p99_message(p99_exec_us, limit))
                ||| (t.max_overrun_count matches Some(limit) && overrun_count > limit
                    && spec_no_board_realtime_failures(p99_exec_us, overrun_count, t)[k]
                    == gate_overrun_message(overrun_count, limit))
            },
        (spec_no_board_realtime_failures(p99_exec_us, overrun_count, t).len() == 0) <==> (
        !(t.max_p99_exec_us matches Some(limit) && p99_exec_us > limit) && !(t.max_overrun_count matches Some(
            limit,
        ) && overrun_count > limit)),
{
    let f = spec_no_board_realtime_failures(p99_exec_us, overrun_count, t);
    if t.max_overrun_count matches Some(limit) && overrun_count > limit {
        assert(f[f.len() - 1] == gate_overrun_message(overrun_count, t.max_overrun_count->0));
    }
    if t.max_p99_exec_us matches Some(limit) && p99_exec_us > limit {
        assert(f[0] == gate_p99_message(p99_exec_us, t.max_p99_exec_us->0));
    }
}

} // verus!
