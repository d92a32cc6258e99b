//! The command line of `compile`: where the verification report and the IR
//! go, whether warnings block, and the runtime budget thresholds that the
//! options override.
use vstd::prelude::*;
use crate::compile_checks::RuntimeBudgetThresholds;
use crate::realtime_gate::{args_view, arg_at, is_lit, number_or, opt_view, take_number, value_or};
use crate::text::{clone_string, owned, push_str};

verus! {

/// Why the command line of `compile` was not accepted.
#[derive(Debug, Clone, PartialEq, Eq)]
pub enum CompileArgsError {
    /// A missing or malformed value, with its message.
    Message(String),
    /// `-h` or `--help`: the command's help is asked for.
    Help,
    /// An option `compile` does not know.
    Unknown(String),
}

pub enum CompileArgsErrorView {
    Message(Seq<char>),
    Help,
    Unknown(Seq<char>),
}

impl View for CompileArgsError {
    type V = CompileArgsErrorView;

    open spec fn view(&self) -> CompileArgsErrorView {
        match self {
            CompileArgsError::Message(m) => CompileArgsErrorView::Message(m@),
            CompileArgsError::Help => CompileArgsErrorView::Help,
            CompileArgsError::Unknown(a) => CompileArgsErrorView::Unknown(a@),
        }
    }
}

/// What the command line of `compile` asks for.
#[derive(Debug, Clone, PartialEq, Eq)]
pub struct CompileOptions {
    pub report_path: Option<String>,
    pub no_print_ir: bool,
    pub ir_out_path: Option<String>,
    pub deny_warnings: bool,
    pub thresholds: RuntimeBudgetThresholds,
}

pub struct CompileOptionsView {
    pub report_path: Option<Seq<char>>,
    pub no_print_ir: bool,
    pub ir_out_path: Option<Seq<char>>,
    pub deny_warnings: bool,
    pub thresholds: RuntimeBudgetThresholds,
}

impl View for CompileOptions {
    type V = CompileOptionsView;

    open spec fn view(&self) -> CompileOptionsView {
        CompileOptionsView {
            report_path: opt_view(self.report_path),
            no_print_ir: self.no_print_ir,
            ir_out_path: opt_view(self.ir_out_path),
            deny_warnings: self.deny_warnings,
            thresholds: self.thresholds,
        }
    }
}

/// The value of a budget option: a number of at most `max`.
pub open spec fn budget_number(args: Seq<Seq<char>>, j: int, flag: Seq<char>, max: nat) -> Result<
    nat,
    CompileArgsErrorView,
> {
    match number_or(
        args,
        j,
        "Missing value for "@ + flag + " <n>"@,
        "Invalid integer for "@ + flag + ": "@,
        max,
    ) {
        Ok(n) => Ok(n),
        Err(m) => Err(CompileArgsErrorView::Message(m)),
    }
}

/// The value of `--budget-warn-on-same-tick-cycle`: `true` or `false`.
pub open spec fn budget_bool(args: Seq<Seq<char>>, j: int) -> Result<bool, CompileArgsErrorView> {
    match arg_at(args, j) {
        None => Err(
            CompileArgsErrorView::Message(
                "Missing value for --budget-warn-on-same-tick-cycle <true|false>"@,
            ),
        ),
        Some(v) => if v == "true"@ {
            Ok(true)
        } else if v == "false"@ {
            Ok(false)
        } else {
            Err(
                CompileArgsErrorView::Message(
                    "Invalid boolean for --budget-warn-on-same-tick-cycle: "@ + v,
                ),
            )
        },
    }
}

pub open spec fn with_thresholds(o: CompileOptionsView, t: RuntimeBudgetThresholds) -> CompileOptionsView {
    CompileOptionsView { thresholds: t, ..o }
}

/// The options from position `i` on: `--report` and `--ir-out` take a path,
/// `--no-print-ir` and `--deny-warnings` are switches, each budget option
/// takes the next argument as its value; the help option and an unknown
/// option end the scan.
pub open spec fn scan_compile_args(args: Seq<Seq<char>>, i: int, o: CompileOptionsView) -> Result<
    CompileOptionsView,
    CompileArgsErrorView,
>
    decreases args.len() - i,
{
    if i < 0 || i >= args.len() {
        Ok(o)
    } else {
        let a = args[i];
        let t = o.thresholds;
        if a == "--report"@ {
            match value_or(args, i + 1, "Missing value for --report <file>"@) {
                Err(m) => Err(CompileArgsErrorView::Message(m)),
                Ok(v) => scan_compile_args(args, i + 2, CompileOptionsView { report_path: Some(v), ..o }),
            }
        } else if a == "--no-print-ir"@ {
            scan_compile_args(args, i + 1, CompileOptionsView { no_print_ir: true, ..o })
        } else if a == "--ir-out"@ {
            match value_or(args, i + 1, "Missing value for --ir-out <file>"@) {
                Err(m) => Err(CompileArgsErrorView::Message(m)),
                Ok(v) => scan_compile_args(args, i + 2, CompileOptionsView { ir_out_path: Some(v), ..o }),
            }
        } else if a == "--deny-warnings"@ {
            scan_compile_args(args, i + 1, CompileOptionsView { deny_warnings: true, ..o })
        } else if a == "--budget-max-actions-per-transition"@ {
            match budget_number(args, i + 1, a, usize::MAX as nat) {
                Err(e) => Err(e),
                Ok(n) => scan_compile_args(
                    args,
                    i + 2,
                    with_thresholds(o, RuntimeBudgetThresholds { max_actions_per_transition: n as usize, ..t }),
                ),
            }
        } else if a == "--budget-max-actions-per-tick"@ {
            match budget_number(args, i + 1, a, usize::MAX as nat) {
                Err(e) => Err(e),
                Ok(n) => scan_compile_args(
                    args,
                    i + 2,
                    with_thresholds(
                        o,
                        RuntimeBudgetThresholds { max_actions_per_tick_upper_bound: n as usize, ..t },
                    ),
                ),
            }
        } else if a == "--budget-max-parallel-branches"@ {
            match budget_number(args, i + 1, a, usize::MAX as nat) {
                Err(e) => Err(e),
                Ok(n) => scan_compile_args(
                    args,
                    i + 2,
                    with_thresholds(o, RuntimeBudgetThresholds { max_parallel_branches: n as usize, ..t }),
                ),
            }
        } else if a == "--budget-max-race-branches"@ {
            match budget_number(args, i + 1, a, usize::MAX as nat) {
                Err(e) => Err(e),
                Ok(n) => scan_compile_args(
                    args,
                    i + 2,
                    with_thresholds(o, RuntimeBudgetThresholds { max_race_branches: n as usize, ..t }),
                ),
            }
        } else if a == "--budget-warn-on-same-tick-cycle"@ {
            match budget_bool(args, i + 1) {
                Err(e) => Err(e),
                Ok(b) => scan_compile_args(
                    args,
                    i + 2,
                    with_thresholds(o, RuntimeBudgetThresholds { warn_on_same_tick_cycle: b, ..t }),
                ),
            }
        } else if a == "--budget-action-cost-us"@ {
            match budget_number(args, i + 1, a, u64::MAX as nat) {
                Err(e) => Err(e),
                Ok(n) => scan_compile_args(
                    args,
                    i + 2,
                    with_thresholds(o, RuntimeBudgetThresholds { action_cost_us: n as u64, ..t }),
                ),
            }
        } else if a == "--budget-transition-cost-us"@ {
            match budget_number(args, i + 1, a, u64::MAX as nat) {
                Err(e) => Err(e),
                Ok(n) => scan_compile_args(
                    args,
                    i + 2,
                    with_thresholds(o, RuntimeBudgetThresholds { transition_cost_us: n as u64, ..t }),
                ),
            }
        } else if a == "--budget-parallel-expand-cost-us"@ {
            match budget_number(args, i + 1, a, u64::MAX as nat) {
                Err(e) => Err(e),
                Ok(n) => scan_compile_args(
                    args,
                    i + 2,
                    with_thresholds(o, RuntimeBudgetThresholds { parallel_expand_cost_us: n as u64, ..t }),
                ),
            }
        } else if a == "--budget-max-time-estimate-us"@ {
            match budget_number(args, i + 1, a, u64::MAX as nat) {
                Err(e) => Err(e),
                Ok(n) => scan_compile_args(
                    args,
                    i + 2,
                    with_thresholds(
                        o,
                        RuntimeBudgetThresholds { max_budget_time_estimate_us: n as u64, ..t },
                    ),
                ),
            }
        } else if a == "-h"@ || a == "--help"@ {
            Err(CompileArgsErrorView::Help)
        } else {
            Err(CompileArgsErrorView::Unknown(a))
        }
    }
}

/// The options of `compile` (after the source path), starting from the
/// thresholds the environment sets.
pub open spec fn spec_compile_args(args: Seq<Seq<char>>, thresholds: RuntimeBudgetThresholds) -> Result<
    CompileOptionsView,
    CompileArgsErrorView,
> {
    scan_compile_args(
        args,
        0,
        CompileOptionsView {
            report_path: None,
            no_print_ir: false,
            ir_out_path: None,
            deny_warnings: false,
            thresholds,
        },
    )
}

fn budget_number_exec(args: &[String], j: usize, flag: &str, max: u64) -> (r: Result<
    u64,
    CompileArgsError,
>)
    ensures
        match r {
            Ok(n) => budget_number(args_view(args@), j as int, flag@, max as nat) == Ok::<
                nat,
                CompileArgsErrorView,
            >(n as nat),
            Err(e) => budget_number(args_view(args@), j as int, flag@, max as nat) == Err::<
                nat,
                CompileArgsErrorView,
            >(e@),
        },
{
    let mut missing = owned("Missing value for ");
    push_str(&mut missing, flag);
    push_str(&mut missing, " <n>");
    let mut invalid = owned("Invalid integer for ");
    push_str(&mut invalid, flag);
    push_str(&mut invalid, ": ");
    match take_number(args, j, missing.as_str(), invalid.as_str(), max) {
        Ok(n) => Ok(n),
        Err(m) => Err(CompileArgsError::Message(m)),
    }
}

fn budget_bool_exec(args: &[String], j: usize) -> (r: Result<bool, CompileArgsError>)
    ensures
        match r {
            Ok(b) => budget_bool(args_view(args@), j as int) == Ok::<bool, CompileArgsErrorView>(b),
            Err(e) => budget_bool(args_view(args@), j as int) == Err::<bool, CompileArgsErrorView>(e@),
        },
{
    if j >= args.len() {
        return Err(
            CompileArgsError::Message(
                owned("Missing value for --budget-warn-on-same-tick-cycle <true|false>"),
            ),
        );
    }
    let v = args[j].as_str();
    if is_lit(v, "true") {
        Ok(true)
    } else if is_lit(v, "false") {
        Ok(false)
    } else {
        let mut m = owned("Invalid boolean for --budget-warn-on-same-tick-cycle: ");
        push_str(&mut m, v);
        Err(CompileArgsError::Message(m))
    }
}

/// Reads the budget option at position `i` into `o` (the part of
/// `compile_arg_step` after the paths and switches).
#[verifier::rlimit(60)]
fn budget_arg_step(args: &[String], i: usize, o: &mut CompileOptions) -> (r: Result<
    usize,
    CompileArgsError,
>)
    requires
        i < args@.len(),
        args_view(args@)[i as int] != "--report"@,
        args_view(args@)[i as int] != "--no-print-ir"@,
        args_view(args@)[i as int] != "--ir-out"@,
        args_view(args@)[i as int] != "--deny-warnings"@,
    ensures
        match r {
            Ok(j) => i < j <= i + 2 && scan_compile_args(args_view(args@), i as int, old(o)@)
                == scan_compile_args(args_view(args@), j as int, final(o)@),
            Err(e) => scan_compile_args(args_view(args@), i as int, old(o)@) == Err::<
                CompileOptionsView,
                CompileArgsErrorView,
            >(e@),
        },
{
    let ghost av = args_view(args@);
    let a = args[i].as_str();
    assert(a@ == av[i as int]);
    if is_lit(a, "--budget-max-actions-per-transition") {
        let n = budget_number_exec(args, i + 1, a, usize::MAX as u64)?;
        o.thresholds.max_actions_per_transition = n as usize;
    } else if is_lit(a, "--budget-max-actions-per-tick") {
        let n = budget_number_exec(args, i + 1, a, usize::MAX as u64)?;
        o.thresholds.max_actions_per_tick_upper_bound = n as usize;
    } else if is_lit(a, "--budget-max-parallel-branches") {
        let n = budget_number_exec(args, i + 1, a, usize::MAX as u64)?;
        o.thresholds.max_parallel_branches = n as usize;
    } else if is_lit(a, "--budget-max-race-branches") {
        let n = budget_number_exec(args, i + 1, a, usize::MAX as u64)?;
        o.thresholds.max_race_branches = n as usize;
    } else if is_lit(a, "--budget-warn-on-same-tick-cycle") {
        let b = budget_bool_exec(args, i + 1)?;
        o.thresholds.warn_on_same_tick_cycle = b;
    } else if is_lit(a, "--budget-action-cost-us") {
        let n = budget_number_exec(args, i + 1, a, u64::MAX)?;
        o.thresholds.action_cost_us = n;
    } else if is_lit(a, "--budget-transition-cost-us") {
        let n = budget_number_exec(args, i + 1, a, u64::MAX)?;
        o.thresholds.transition_cost_us = n;
    } else if is_lit(a, "--budget-parallel-expand-cost-us") {
        let n = budget_number_exec(args, i + 1, a, u64::MAX)?;
        o.thresholds.parallel_expand_cost_us = n;
    } else if is_lit(a, "--budget-max-time-estimate-us") {
        let n = budget_number_exec(args, i + 1, a, u64::MAX)?;
        o.thresholds.max_budget_time_estimate_us = n;
    } else if is_lit(a, "-h") || is_lit(a, "--help") {
        return Err(CompileArgsError::Help);
    } else {
        return Err(CompileArgsError::Unknown(clone_string(&args[i])));
    }
    Ok(i + 2)
}

fn compile_arg_step(args: &[String], i: usize, o: &mut CompileOptions) -> (r: Result<
    usize,
    CompileArgsError,
>)
    requires
        i < args@.len(),
    ensures
        match r {
            Ok(j) => i < j <= i + 2 && scan_compile_args(args_view(args@), i as int, old(o)@)
                == scan_compile_args(args_view(args@), j as int, final(o)@),
            Err(e) => scan_compile_args(args_view(args@), i as int, old(o)@) == Err::<
                CompileOptionsView,
                CompileArgsErrorView,
            >(e@),
        },
{
    let ghost av = args_view(args@);
    let a = args[i].as_str();
    assert(a@ == av[i as int]);
    if is_lit(a, "--report") {
        match crate::realtime_gate::take_value(args, i + 1, "Missing value for --report <file>") {
            Ok(v) => {
                o.report_path = Some(v);
            },
            Err(m) => {
                return Err(CompileArgsError::Message(m));
            },
        }
        Ok(i + 2)
    } else if is_lit(a, "--no-print-ir") {
        o.no_print_ir = true;
        Ok(i + 1)
    } else if is_lit(a, "--ir-out") {
        match crate::realtime_gate::take_value(args, i + 1, "Missing value for --ir-out <file>") {
            Ok(v) => {
                o.ir_out_path = Some(v);
            },
            Err(m) => {
                return Err(CompileArgsError::Message(m));
            },
        }
        Ok(i + 2)
    } else if is_lit(a, "--deny-warnings") {
        o.deny_warnings = true;
        Ok(i + 1)
    } else {
        budget_arg_step(args, i, o)
    }
}

/// The options of `compile` (after the source path), starting from the
/// thresholds the environment sets.
pub fn parse_compile_args(args: &[String], thresholds: RuntimeBudgetThresholds) -> (r: Result<
    CompileOptions,
    CompileArgsError,
>)
    ensures
        match r {
            Ok(o) => spec_compile_args(args_view(args@), thresholds) == Ok::<
                CompileOptionsView,
                CompileArgsErrorView,
            >(o@),
            Err(e) => spec_compile_args(args_view(args@), thresholds) == Err::<
                CompileOptionsView,
                CompileArgsErrorView,
            >(e@),
        },
{
    let mut o = CompileOptions {
        report_path: None,
        no_print_ir: false,
        ir_out_path: None,
        deny_warnings: false,
        thresholds,
    };
    let mut i: usize = 0;
    while i < args.len()
        invariant
            i <= args@.len() + 1,
            spec_compile_args(args_view(args@), thresholds) == scan_compile_args(
                args_view(args@),
                i as int,
                o@,
            ),
        decreases args@.len() + 1 - i,
    {
        i = compile_arg_step(args, i, &mut o)?;
    }
    Ok(o)
}

} // verus!
