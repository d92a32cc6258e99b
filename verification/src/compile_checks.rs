//! The checks `compile` makes on a program's runtime budget, the thresholds
//! they use (which environment variables can override), and the warnings
//! that block a compile.
use vstd::prelude::*;
use crate::runtime_budget::{spec_estimate, RuntimeBudget};
use crate::text::{
    chars_of, decimal, eq_chars, format_u64, format_usize, owned, parse_unsigned,
    parse_unsigned_exec, push_str,
};

verus! {

#[derive(Debug, Clone, Copy, PartialEq, Eq, Structural)]
pub enum WarningLevel {
    Error,
    Warn,
    Info,
}

pub struct WarningEntry {
    pub code: Option<String>,
    pub level: WarningLevel,
    pub message: String,
}

pub open spec fn level_label(l: WarningLevel) -> Seq<char> {
    match l {
        WarningLevel::Error => "ERROR"@,
        WarningLevel::Warn => "WARN"@,
        WarningLevel::Info => "INFO"@,
    }
}

pub fn warning_level_label(level: &WarningLevel) -> (r: &'static str)
    ensures
        r@ == level_label(*level),
{
    match level {
        WarningLevel::Error => "ERROR",
        WarningLevel::Warn => "WARN",
        WarningLevel::Info => "INFO",
    }
}

// ---------------------------------------------------------------------------
// Thresholds
// ---------------------------------------------------------------------------

/// The limits `compile` holds a runtime budget to, and the costs its time
/// estimate is made with.
#[derive(Debug, Clone, Copy, PartialEq, Eq, Structural)]
pub struct RuntimeBudgetThresholds {
    pub max_actions_per_transition: usize,
    pub max_actions_per_tick_upper_bound: usize,
    pub max_parallel_branches: usize,
    pub max_race_branches: usize,
    pub warn_on_same_tick_cycle: bool,
    pub action_cost_us: u64,
    pub transition_cost_us: u64,
    pub parallel_expand_cost_us: u64,
    pub max_budget_time_estimate_us: u64,
}

pub open spec fn default_compile_thresholds() -> RuntimeBudgetThresholds {
    RuntimeBudgetThresholds {
        max_actions_per_transition: 16,
        max_actions_per_tick_upper_bound: 512,
        max_parallel_branches: 8,
        max_race_branches: 8,
        warn_on_same_tick_cycle: true,
        action_cost_us: 8,
        transition_cost_us: 5,
        parallel_expand_cost_us: 12,
        max_budget_time_estimate_us: 2000,
    }
}

impl Default for RuntimeBudgetThresholds {
    fn default() -> (r: Self)
        ensures
            r == default_compile_thresholds(),
    {
        RuntimeBudgetThresholds {
            max_actions_per_transition: 16,
            max_actions_per_tick_upper_bound: 512,
            max_parallel_branches: 8,
            max_race_branches: 8,
            warn_on_same_tick_cycle: true,
            action_cost_us: 8,
            transition_cost_us: 5,
            parallel_expand_cost_us: 12,
            max_budget_time_estimate_us: 2_000,
        }
    }
}

/// The values of the environment variables that override the thresholds
/// (`None` where a variable is not set), in the order
/// `RUST_PLC_BUDGET_MAX_ACTIONS_PER_TRANSITION`, `..._MAX_ACTIONS_PER_TICK`,
/// `..._MAX_PARALLEL_BRANCHES`, `..._MAX_RACE_BRANCHES`,
/// `..._WARN_ON_SAME_TICK_CYCLE`, `..._ACTION_COST_US`,
/// `..._TRANSITION_COST_US`, `..._PARALLEL_EXPAND_COST_US`,
/// `..._MAX_TIME_ESTIMATE_US`.
pub struct RuntimeBudgetEnv {
    pub max_actions_per_transition: Option<String>,
    pub max_actions_per_tick: Option<String>,
    pub max_parallel_branches: Option<String>,
    pub max_race_branches: Option<String>,
    pub warn_on_same_tick_cycle: Option<String>,
    pub action_cost_us: Option<String>,
    pub transition_cost_us: Option<String>,
    pub parallel_expand_cost_us: Option<String>,
    pub max_time_estimate_us: Option<String>,
}

/// A setting read as a `usize` (`str::parse`), the default where it is
/// unset or does not parse.
pub open spec fn setting_usize(v: Option<String>, dflt: usize) -> usize {
    match v {
        Some(s) => match parse_unsigned(s@, usize::MAX as nat) {
            Some(n) => n as usize,
            None => dflt,
        },
        None => dflt,
    }
}

pub open spec fn setting_u64(v: Option<String>, dflt: u64) -> u64 {
    match v {
        Some(s) => match parse_unsigned(s@, u64::MAX as nat) {
            Some(n) => n as u64,
            None => dflt,
        },
        None => dflt,
    }
}

/// A setting read as a `bool`: exactly `true` or `false`.
pub open spec fn setting_bool(v: Option<String>, dflt: bool) -> bool {
    match v {
        Some(s) => if s@ == "true"@ {
            true
        } else if s@ == "false"@ {
            false
        } else {
            dflt
        },
        None => dflt,
    }
}

fn read_usize(v: &Option<String>, dflt: usize) -> (r: usize)
    ensures
        r == setting_usize(*v, dflt),
{
    match v {
        Some(s) => {
            let c = chars_of(s.as_str());
            match parse_unsigned_exec(c.as_slice(), usize::MAX as u64) {
                Some(n) => n as usize,
                None => dflt,
            }
        },
        None => dflt,
    }
}

fn read_u64(v: &Option<String>, dflt: u64) -> (r: u64)
    ensures
        r == setting_u64(*v, dflt),
{
    match v {
        Some(s) => {
            let c = chars_of(s.as_str());
            match parse_unsigned_exec(c.as_slice(), u64::MAX) {
                Some(n) => n,
                None => dflt,
            }
        },
        None => dflt,
    }
}

fn read_bool(v: &Option<String>, dflt: bool) -> (r: bool)
    ensures
        r == setting_bool(*v, dflt),
{
    match v {
        Some(s) => {
            let c = chars_of(s.as_str());
            let t = chars_of("true");
            let f = chars_of("false");
            if eq_chars(c.as_slice(), t.as_slice()) {
                true
            } else if eq_chars(c.as_slice(), f.as_slice()) {
                false
            } else {
                dflt
            }
        },
        None => dflt,
    }
}

impl RuntimeBudgetThresholds {
    /// The default thresholds, each replaced by its environment variable
    /// where that is set and parses.
    pub fn from_settings(env: &RuntimeBudgetEnv) -> (r: Self)
        ensures
            ({
                let d = default_compile_thresholds();
                &&& r.max_actions_per_transition == setting_usize(
                    env.max_actions_per_transition,
                    d.max_actions_per_transition,
                )
                &&& r.max_actions_per_tick_upper_bound == setting_usize(
                    env.max_actions_per_tick,
                    d.max_actions_per_tick_upper_bound,
                )
                &&& r.max_parallel_branches == setting_usize(
                    env.max_parallel_branches,
                    d.max_parallel_branches,
                )
                &&& r.max_race_branches == setting_usize(env.max_race_branches, d.max_race_branches)
                &&& r.warn_on_same_tick_cycle == setting_bool(
                    env.warn_on_same_tick_cycle,
                    d.warn_on_same_tick_cycle,
                )
                &&& r.action_cost_us == setting_u64(env.action_cost_us, d.action_cost_us)
                &&& r.transition_cost_us == setting_u64(env.transition_cost_us, d.transition_cost_us)
                &&& r.parallel_expand_cost_us == setting_u64(
                    env.parallel_expand_cost_us,
                    d.parallel_expand_cost_us,
                )
                &&& r.max_budget_time_estimate_us == setting_u64(
                    env.max_time_estimate_us,
                    d.max_budget_time_estimate_us,
                )
            }),
    {
        let d = RuntimeBudgetThresholds::default();
        RuntimeBudgetThresholds {
            max_actions_per_transition: read_usize(
                &env.max_actions_per_transition,
                d.max_actions_per_transition,
            ),
            max_actions_per_tick_upper_bound: read_usize(
                &env.max_actions_per_tick,
                d.max_actions_per_tick_upper_bound,
            ),
            max_parallel_branches: read_usize(&env.max_parallel_branches, d.max_parallel_branches),
            max_race_branches: read_usize(&env.max_race_branches, d.max_race_branches),
            warn_on_same_tick_cycle: read_bool(
                &env.warn_on_same_tick_cycle,
                d.warn_on_same_tick_cycle,
            ),
            action_cost_us: read_u64(&env.action_cost_us, d.action_cost_us),
            transition_cost_us: read_u64(&env.transition_cost_us, d.transition_cost_us),
            parallel_expand_cost_us: read_u64(
                &env.parallel_expand_cost_us,
                d.parallel_expand_cost_us,
            ),
            max_budget_time_estimate_us: read_u64(
                &env.max_time_estimate_us,
                d.max_budget_time_estimate_us,
            ),
        }
    }
}

// ---------------------------------------------------------------------------
// Budget warnings
// ---------------------------------------------------------------------------

pub open spec fn exceeds_message(field: Seq<char>, value: nat, limit: nat) -> Seq<char> {
    "runtime budget: "@ + field + "="@ + decimal(value) + " exceeds threshold "@ + decimal(limit)
}

pub open spec fn when(c: bool, m: Seq<char>) -> Seq<Seq<char>> {
    if c {
        seq![m]
    } else {
        seq![]
    }
}

/// The budget warnings, in order: each count over its threshold, a
/// same-tick cycle (where that is warned about), and a time estimate over
/// its allowance.
pub open spec fn budget_warning_messages(b: RuntimeBudget, t: RuntimeBudgetThresholds) -> Seq<Seq<char>> {
    when(
        b.max_actions_per_transition > t.max_actions_per_transition,
        exceeds_message(
            "max_actions_per_transition"@,
            b.max_actions_per_transition as nat,
            t.max_actions_per_transition as nat,
        ),
    ) + when(
        b.max_actions_per_tick_upper_bound > t.max_actions_per_tick_upper_bound,
        exceeds_message(
            "max_actions_per_tick_upper_bound"@,
            b.max_actions_per_tick_upper_bound as nat,
            t.max_actions_per_tick_upper_bound as nat,
        ),
    ) + when(
        b.max_parallel_branches > t.max_parallel_branches,
        exceeds_message(
            "max_parallel_branches"@,
            b.max_parallel_branches as nat,
            t.max_parallel_branches as nat,
        ),
    ) + when(
        b.max_race_branches > t.max_race_branches,
        exceeds_message(
            "max_race_branches"@,
            b.max_race_branches as nat,
            t.max_race_branches as nat,
        ),
    ) + when(
        t.warn_on_same_tick_cycle && b.has_same_tick_cycle,
        same_tick_cycle_warning(b),
    ) + when(b.budget_time_estimate.exceeds_budget, time_estimate_warning(b))
}

/// The warning about a cycle of same-tick transitions.
pub open spec fn same_tick_cycle_warning(b: RuntimeBudget) -> Seq<char> {
    "runtime budget: same-tick transition subgraph contains a cycle; runtime-core caps chaining to "@
        + decimal(b.max_transitions_per_tick_cap as nat) + " transitions per task per tick (active_tasks="@
        + decimal(b.active_task_count as nat) + ")"@
}

/// The warning about a time estimate over its allowance.
pub open spec fn time_estimate_warning(b: RuntimeBudget) -> Seq<char> {
    "runtime budget time estimate: total_estimate_us="@ + decimal(
        b.budget_time_estimate.total_estimate_us as nat,
    ) + " exceeds threshold "@ + decimal(b.budget_time_estimate.max_allowed_us as nat)
}

/// `r` holds the messages `m`, each a warning without a code.
pub open spec fn warns_with(r: Seq<WarningEntry>, m: Seq<Seq<char>>) -> bool {
    &&& r.len() == m.len()
    &&& forall|i: int|
        0 <= i < r.len() ==> {
            &&& (#[trigger] r[i]).code is None
            &&& r[i].level == WarningLevel::Warn
            &&& r[i].message@ == m[i]
        }
}

fn push_warning(out: &mut Vec<WarningEntry>, message: String, Ghost(m): Ghost<Seq<Seq<char>>>)
    requires
        warns_with(old(out)@, m),
    ensures
        warns_with(final(out)@, m.push(message@)),
{
    out.push(WarningEntry { code: None, level: WarningLevel::Warn, message });
    assert(final(out)@[m.len() as int].message@ == m.push(message@)[m.len() as int]);
}

fn exceeds_message_exec(field: &str, value: usize, limit: usize) -> (r: String)
    ensures
        r@ == exceeds_message(field@, value as nat, limit as nat),
{
    let mut out = owned("runtime budget: ");
    push_str(&mut out, field);
    push_str(&mut out, "=");
    let v = format_usize(value);
    push_str(&mut out, v.as_str());
    push_str(&mut out, " exceeds threshold ");
    let l = format_usize(limit);
    push_str(&mut out, l.as_str());
    out
}

/// Remakes the budget's time estimate with the thresholds' costs, and
/// gives the warnings the budget raises against the thresholds (which
/// `compile` adds to the timing check's warnings).
pub fn apply_runtime_budget_warnings(budget: &mut RuntimeBudget, thresholds: &RuntimeBudgetThresholds) -> (r:
    Vec<WarningEntry>)
    ensures
        *final(budget) == (RuntimeBudget {
            budget_time_estimate: spec_estimate(
                *old(budget),
                thresholds.action_cost_us,
                thresholds.transition_cost_us,
                thresholds.parallel_expand_cost_us,
                thresholds.max_budget_time_estimate_us,
            ),
            ..*old(budget)
        }),
        warns_with(r@, budget_warning_messages(*final(budget), *thresholds)),
{
    budget.recompute_time_estimate(
        thresholds.action_cost_us,
        thresholds.transition_cost_us,
        thresholds.parallel_expand_cost_us,
        thresholds.max_budget_time_estimate_us,
    );
    let b = *budget;
    let t = *thresholds;
    let mut out: Vec<WarningEntry> = Vec::new();
    let ghost mut m: Seq<Seq<char>> = seq![];
    if b.max_actions_per_transition > t.max_actions_per_transition {
        let msg = exceeds_message_exec(
            "max_actions_per_transition",
            b.max_actions_per_transition,
            t.max_actions_per_transition,
        );
        let ghost mv = msg@;
        push_warning(&mut out, msg, Ghost(m));
        proof {
            m = m.push(mv);
        }
    }
    if b.max_actions_per_tick_upper_bound > t.max_actions_per_tick_upper_bound {
        let msg = exceeds_message_exec(
            "max_actions_per_tick_upper_bound",
            b.max_actions_per_tick_upper_bound,
            t.max_actions_per_tick_upper_bound,
        );
        let ghost mv = msg@;
        push_warning(&mut out, msg, Ghost(m));
        proof {
            m = m.push(mv);
        }
    }
    if b.max_parallel_branches > t.max_parallel_branches {
        let msg = exceeds_message_exec(
            "max_parallel_branches",
            b.max_parallel_branches,
            t.max_parallel_branches,
        );
        let ghost mv = msg@;
        push_warning(&mut out, msg, Ghost(m));
        proof {
            m = m.push(mv);
        }
    }
    if b.max_race_branches > t.max_race_branches {
        let msg = exceeds_message_exec(
            "max_race_branches",
            b.max_race_branches,
            t.max_race_branches,
        );
        let ghost mv = msg@;
        push_warning(&mut out, msg, Ghost(m));
        proof {
            m = m.push(mv);
        }
    }
    if t.warn_on_same_tick_cycle && b.has_same_tick_cycle {
        let mut msg = owned(
            "runtime budget: same-tick transition subgraph contains a cycle; runtime-core caps chaining to ",
        );
        let c = format_usize(b.max_transitions_per_tick_cap);
        push_str(&mut msg, c.as_str());
        push_str(&mut msg, " transitions per task per tick (active_tasks=");
        let a = format_usize(b.active_task_count);
        push_str(&mut msg, a.as_str());
        push_str(&mut msg, ")");
        let ghost mv = msg@;
        push_warning(&mut out, msg, Ghost(m));
        proof {
            m = m.push(mv);
        }
    }
    if b.budget_time_estimate.exceeds_budget {
        let mut msg = owned("runtime budget time estimate: total_estimate_us=");
        let total = format_u64(b.budget_time_estimate.total_estimate_us);
        push_str(&mut msg, total.as_str());
        push_str(&mut msg, " exceeds threshold ");
        let allowed = format_u64(b.budget_time_estimate.max_allowed_us);
        push_str(&mut msg, allowed.as_str());
        let ghost mv = msg@;
        push_warning(&mut out, msg, Ghost(m));
        proof {
            m = m.push(mv);
        }
    }
    assert(m =~= budget_warning_messages(b, t));
    out
}

// ---------------------------------------------------------------------------
// Blocking warnings
// ---------------------------------------------------------------------------

/// How a warning or error of a checker is reported as blocking.
pub open spec fn blocking_line(checker: Seq<char>, e: WarningEntry) -> Seq<char> {
    "["@ + checker + "] "@ + level_label(e.level) + (match e.code {
        Some(c) => " ("@ + c@ + ")"@,
        None => seq![],
    }) + ": "@ + e.message@
}

/// The lines of the entries at level `Warn` or `Error`, in order.
pub open spec fn blocking_lines(checker: Seq<char>, es: Seq<WarningEntry>) -> Seq<Seq<char>>
    decreases es.len(),
{
    if es.len() == 0 {
        seq![]
    } else {
        let p = blocking_lines(checker, es.drop_last());
        if es.last().level == WarningLevel::Info {
            p
        } else {
            p.push(blocking_line(checker, es.last()))
        }
    }
}

pub fn collect_checker_blocking_warnings(checker: &str, entries: &[WarningEntry], output: &mut Vec<String>)
    ensures
        final(output)@.map_values(|s: String| s@) == old(output)@.map_values(|s: String| s@)
            + blocking_lines(checker@, entries@),
{
    let ghost start = old(output)@.map_values(|s: String| s@);
    let mut i: usize = 0;
    assert(entries@.subrange(0, 0) =~= Seq::<WarningEntry>::empty());
    assert(start + blocking_lines(checker@, seq![]) =~= start);
    while i < entries.len()
        invariant
            i <= entries@.len(),
            output@.map_values(|s: String| s@) == start + blocking_lines(
                checker@,
                entries@.subrange(0, i as int),
            ),
        decreases entries@.len() - i,
    {
        assert(entries@.subrange(0, i + 1).drop_last() =~= entries@.subrange(0, i as int));
        assert(entries@.subrange(0, i + 1).last() == entries@[i as int]);
        let e = &entries[i];
        match e.level {
            WarningLevel::Info => {},
            _ => {
                let mut line = owned("[");
                push_str(&mut line, checker);
                push_str(&mut line, "] ");
                push_str(&mut line, warning_level_label(&e.level));
                match &e.code {
                    Some(c) => {
                        push_str(&mut line, " (");
                        push_str(&mut line, c.as_str());
                        push_str(&mut line, ")");
                    },
                    None => {},
                }
                push_str(&mut line, ": ");
                push_str(&mut line, e.message.as_str());
                let ghost before = output@;
                let ghost lv = line@;
                output.push(line);
                assert(output@.map_values(|s: String| s@) =~= before.map_values(|s: String| s@).push(
                    lv,
                ));
                assert(lv =~= blocking_line(checker@, entries@[i as int]));
            },
        }
        i += 1;
    }
    assert(entries@.subrange(0, i as int) =~= entries@);
}

/// The blocking warnings of the four checkers, safety, liveness, timing and
/// causality, in that order.
pub fn collect_blocking_warnings(
    safety: &[WarningEntry],
    liveness: &[WarningEntry],
    timing: &[WarningEntry],
    causality: &[WarningEntry],
) -> (r: Vec<String>)
    ensures
        r@.map_values(|s: String| s@) == blocking_lines("safety"@, safety@) + blocking_lines(
            "liveness"@,
            liveness@,
        ) + blocking_lines("timing"@, timing@) + blocking_lines("causality"@, causality@),
{
    let mut out: Vec<String> = Vec::new();
    assert(out@.map_values(|s: String| s@) =~= Seq::<Seq<char>>::empty());
    collect_checker_blocking_warnings("safety", safety, &mut out);
    collect_checker_blocking_warnings("liveness", liveness, &mut out);
    collect_checker_blocking_warnings("timing", timing, &mut out);
    collect_checker_blocking_warnings("causality", causality, &mut out);
    assert(Seq::<Seq<char>>::empty() + blocking_lines("safety"@, safety@) =~= blocking_lines(
        "safety"@,
        safety@,
    ));
    out
}


proof fn lemma_concat_contains(a: Seq<Seq<char>>, b: Seq<Seq<char>>, x: Seq<char>)
    ensures
        (a + b).contains(x) <==> (a.contains(x) || b.contains(x)),
{
    if (a + b).contains(x) {
        let i = choose|i: int| 0 <= i < (a + b).len() && (a + b)[i] == x;
        if i < a.len() {
            assert(a[i] == x);
        } else {
            assert(b[i - a.len()] == x);
        }
    }
    if a.contains(x) {
        let i = choose|i: int| 0 <= i < a.len() && a[i] == x;
        assert((a + b)[i] == x);
    }
    if b.contains(x) {
        let i = choose|i: int| 0 <= i < b.len() && b[i] == x;
        assert((a + b)[a.len() + i] == x);
    }
}

proof fn lemma_when_contains(c: bool, m: Seq<char>, x: Seq<char>)
    ensures
        (c && x == m) <==> when(c, m).contains(x),
{
    if c {
        assert(when(c, m)[0] == m);
    }
}

/// The characters of an exceeds-threshold message: `runtime budget: `, then
/// the field's name.
proof fn lemma_exceeds_chars(f: Seq<char>, v: nat, l: nat, j: int)
    requires
        0 <= j < f.len(),
    ensures
        exceeds_message(f, v, l)[14] == ':',
        exceeds_message(f, v, l)[j + 16] == f[j],
{
    reveal_strlit("runtime budget: ");
    assert("runtime budget: "@.len() == 16);
}

/// Each of the four counts is named by an exceeds-threshold warning exactly
/// when it is over its threshold; the other warnings never read as one.
pub proof fn law_budget_warnings_name_exceeded_counts(b: RuntimeBudget, t: RuntimeBudgetThresholds)
    ensures
        budget_warning_messages(b, t).contains(
            exceeds_message(
                "max_actions_per_transition"@,
                b.max_actions_per_transition as nat,
                t.max_actions_per_transition as nat,
            ),
        ) <==> b.max_actions_per_transition > t.max_actions_per_transition,
        budget_warning_messages(b, t).contains(
            exceeds_message(
                "max_actions_per_tick_upper_bound"@,
                b.max_actions_per_tick_upper_bound as nat,
                t.max_actions_per_tick_upper_bound as nat,
            ),
        ) <==> b.max_actions_per_tick_upper_bound > t.max_actions_per_tick_upper_bound,
        budget_warning_messages(b, t).contains(
            exceeds_message(
                "max_parallel_branches"@,
                b.max_parallel_branches as nat,
                t.max_parallel_branches as nat,
            ),
        ) <==> b.max_parallel_branches > t.max_parallel_branches,
        budget_warning_messages(b, t).contains(
            exceeds_message("max_race_branches"@, b.max_race_branches as nat, t.max_race_branches as nat),
        ) <==> b.max_race_branches > t.max_race_branches,
        budget_warning_messages(b, t).contains(same_tick_cycle_warning(b)) <==> (t.warn_on_same_tick_cycle
            && b.has_same_tick_cycle),
        budget_warning_messages(b, t).contains(time_estimate_warning(b))
            <==> b.budget_time_estimate.exceeds_budget,
        budget_warning_messages(b, t).len() <= 6,
{
    let fa = "max_actions_per_transition"@;
    let fb = "max_actions_per_tick_upper_bound"@;
    let fc = "max_parallel_branches"@;
    let fd = "max_race_branches"@;
    reveal_strlit("max_actions_per_transition");
    reveal_strlit("max_actions_per_tick_upper_bound");
    reveal_strlit("max_parallel_branches");
    reveal_strlit("max_race_branches");
    let ma = exceeds_message(fa, b.max_actions_per_transition as nat, t.max_actions_per_transition as nat);
    let mb = exceeds_message(
        fb,
        b.max_actions_per_tick_upper_bound as nat,
        t.max_actions_per_tick_upper_bound as nat,
    );
    let mc = exceeds_message(fc, b.max_parallel_branches as nat, t.max_parallel_branches as nat);
    let md = exceeds_message(fd, b.max_race_branches as nat, t.max_race_branches as nat);
    let cycle = same_tick_cycle_warning(b);
    let time = time_estimate_warning(b);
    let wa = when(b.max_actions_per_transition > t.max_actions_per_transition, ma);
    let wb = when(b.max_actions_per_tick_upper_bound > t.max_actions_per_tick_upper_bound, mb);
    let wc = when(b.max_parallel_branches > t.max_parallel_branches, mc);
    let wd = when(b.max_race_branches > t.max_race_branches, md);
    let we = when(t.warn_on_same_tick_cycle && b.has_same_tick_cycle, cycle);
    let wf = when(b.budget_time_estimate.exceeds_budget, time);
    let ms = budget_warning_messages(b, t);
    assert(ms == wa + wb + wc + wd + we + wf);
    lemma_exceeds_chars(fa, b.max_actions_per_transition as nat, t.max_actions_per_transition as nat, 0);
    lemma_exceeds_chars(fa, b.max_actions_per_transition as nat, t.max_actions_per_transition as nat, 4);
    lemma_exceeds_chars(fa, b.max_actions_per_transition as nat, t.max_actions_per_transition as nat, 17);
    lemma_exceeds_chars(fb, b.max_actions_per_tick_upper_bound as nat, t.max_actions_per_tick_upper_bound as nat, 0);
    lemma_exceeds_chars(fb, b.max_actions_per_tick_upper_bound as nat, t.max_actions_per_tick_upper_bound as nat, 4);
    lemma_exceeds_chars(fb, b.max_actions_per_tick_upper_bound as nat, t.max_actions_per_tick_upper_bound as nat, 17);
    lemma_exceeds_chars(fc, b.max_parallel_branches as nat, t.max_parallel_branches as nat, 0);
    lemma_exceeds_chars(fc, b.max_parallel_branches as nat, t.max_parallel_branches as nat, 4);
    lemma_exceeds_chars(fd, b.max_race_branches as nat, t.max_race_branches as nat, 0);
    lemma_exceeds_chars(fd, b.max_race_branches as nat, t.max_race_branches as nat, 4);
    reveal_strlit(
        "runtime budget: same-tick transition subgraph contains a cycle; runtime-core caps chaining to ",
    );
    reveal_strlit("runtime budget time estimate: total_estimate_us=");
    assert(cycle[16] == 's');
    assert(time[14] == ' ');
    assert(ma[20] == 'a' && mb[20] == 'a' && mc[20] == 'p' && md[20] == 'r');
    assert(ma[33] == 'r' && mb[33] == 'i');
    assert(ma[16] == 'm' && mb[16] == 'm' && mc[16] == 'm' && md[16] == 'm');
    assert(cycle[14] == ':');
    let x = seq![ma, mb, mc, md, cycle, time];
    assert forall|k: int| 0 <= k < 6 implies #[trigger] ms.contains(x[k]) == (wa.contains(x[k])
        || wb.contains(x[k]) || wc.contains(x[k]) || wd.contains(x[k]) || we.contains(x[k])
        || wf.contains(x[k])) by {
        lemma_concat_contains(wa, wb, x[k]);
        lemma_concat_contains(wa + wb, wc, x[k]);
        lemma_concat_contains(wa + wb + wc, wd, x[k]);
        lemma_concat_contains(wa + wb + wc + wd, we, x[k]);
        lemma_concat_contains(wa + wb + wc + wd + we, wf, x[k]);
    }
    lemma_when_contains(b.max_actions_per_transition > t.max_actions_per_transition, ma, ma);
    lemma_when_contains(b.max_actions_per_transition > t.max_actions_per_transition, ma, mb);
    lemma_when_contains(b.max_actions_per_transition > t.max_actions_per_transition, ma, mc);
    lemma_when_contains(b.max_actions_per_transition > t.max_actions_per_transition, ma, md);
    lemma_when_contains(b.max_actions_per_transition > t.max_actions_per_transition, ma, cycle);
    lemma_when_contains(b.max_actions_per_transition > t.max_actions_per_transition, ma, time);
    lemma_when_contains(b.max_actions_per_tick_upper_bound > t.max_actions_per_tick_upper_bound, mb, ma);
    lemma_when_contains(b.max_actions_per_tick_upper_bound > t.max_actions_per_tick_upper_bound, mb, mb);
    lemma_when_contains(b.max_actions_per_tick_upper_bound > t.max_actions_per_tick_upper_bound, mb, mc);
    lemma_when_contains(b.max_actions_per_tick_upper_bound > t.max_actions_per_tick_upper_bound, mb, md);
    lemma_when_contains(b.max_actions_per_tick_upper_bound > t.max_actions_per_tick_upper_bound, mb, cycle);
    lemma_when_contains(b.max_actions_per_tick_upper_bound > t.max_actions_per_tick_upper_bound, mb, time);
    lemma_when_contains(b.max_parallel_branches > t.max_parallel_branches, mc, ma);
    lemma_when_contains(b.max_parallel_branches > t.max_parallel_branches, mc, mb);
    lemma_when_contains(b.max_parallel_branches > t.max_parallel_branches, mc, mc);
    lemma_when_contains(b.max_parallel_branches > t.max_parallel_branches, mc, md);
    lemma_when_contains(b.max_parallel_branches > t.max_parallel_branches, mc, cycle);
    lemma_when_contains(b.max_parallel_branches > t.max_parallel_branches, mc, time);
    lemma_when_contains(b.max_race_branches > t.max_race_branches, md, ma);
    lemma_when_contains(b.max_race_branches > t.max_race_branches, md, mb);
    lemma_when_contains(b.max_race_branches > t.max_race_branches, md, mc);
    lemma_when_contains(b.max_race_branches > t.max_race_branches, md, md);
    lemma_when_contains(b.max_race_branches > t.max_race_branches, md, cycle);
    lemma_when_contains(b.max_race_branches > t.max_race_branches, md, time);
    lemma_when_contains(t.warn_on_same_tick_cycle && b.has_same_tick_cycle, cycle, ma);
    lemma_when_contains(t.warn_on_same_tick_cycle && b.has_same_tick_cycle, cycle, mb);
    lemma_when_contains(t.warn_on_same_tick_cycle && b.has_same_tick_cycle, cycle, mc);
    lemma_when_contains(t.warn_on_same_tick_cycle && b.has_same_tick_cycle, cycle, md);
    lemma_when_contains(t.warn_on_same_tick_cycle && b.has_same_tick_cycle, cycle, cycle);
    lemma_when_contains(t.warn_on_same_tick_cycle && b.has_same_tick_cycle, cycle, time);
    lemma_when_contains(b.budget_time_estimate.exceeds_budget, time, ma);
    lemma_when_contains(b.budget_time_estimate.exceeds_budget, time, mb);
    lemma_when_contains(b.budget_time_estimate.exceeds_budget, time, mc);
    lemma_when_contains(b.budget_time_estimate.exceeds_budget, time, md);
    lemma_when_contains(b.budget_time_estimate.exceeds_budget, time, cycle);
    lemma_when_contains(b.budget_time_estimate.exceeds_budget, time, time);
    assert(ms.contains(x[0]) == ms.contains(ma));
    assert(ms.contains(x[1]) == ms.contains(mb));
    assert(ms.contains(x[2]) == ms.contains(mc));
    assert(ms.contains(x[3]) == ms.contains(md));
    assert(ms.contains(x[4]) == ms.contains(cycle));
    assert(ms.contains(x[5]) == ms.contains(time));
}

} // verus!
