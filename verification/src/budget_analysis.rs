//! What the compile pipeline reads off a program for its runtime budget:
//! the action and branch counts of its steps, the same-tick transition
//! chains of its state machine, and the steps that mix an axis move with
//! other statements.
use vstd::prelude::*;
use crate::runtime_budget::{
    estimate_budget_time, spec_estimate, BudgetTimeEstimate, RuntimeBudget, RuntimeBudgetThresholds,
    TransitionBudgetScope,
};
use crate::chain::{analyze_longest_chain, graph_ok, has_cycle, has_edge, is_walk, succ};
use crate::text::{eq_chars, sub_chars, chars_of, decimal, format_usize, join, join_exec, owned, push_chars, push_str};

verus! {

// ---------------------------------------------------------------------------
// Step statements
// ---------------------------------------------------------------------------

/// The shape of a step statement, as far as the budget and the axis-move
/// notice read it: an action (and whether it is an `axis.move_*`), the
/// nested blocks, an `allow_indefinite_wait`, or any other statement.
pub enum StatementShape {
    Action { axis_move: bool },
    Repeat(Vec<StatementShape>),
    Parallel(Vec<Vec<StatementShape>>),
    Race(Vec<Vec<StatementShape>>),
    AllowIndefiniteWait,
    Other,
}

pub struct StepShape {
    pub name: String,
    pub statements: Vec<StatementShape>,
}

pub struct TaskShape {
    pub name: String,
    pub steps: Vec<StepShape>,
}

pub open spec fn max_nat(a: nat, b: nat) -> nat {
    if a >= b {
        a
    } else {
        b
    }
}

pub open spec fn join3(a: (nat, nat, nat), b: (nat, nat, nat)) -> (nat, nat, nat) {
    (a.0 + b.0, max_nat(a.1, b.1), max_nat(a.2, b.2))
}

/// For a list of statements: the actions it runs (through every nested
/// block), and the most branches of any parallel and of any race block in it.
pub open spec fn tally_seq(s: Seq<StatementShape>) -> (nat, nat, nat)
    decreases s,
{
    if s.len() == 0 {
        (0, 0, 0)
    } else {
        join3(tally_seq(s.drop_last()), tally_one(s.last()))
    }
}

pub open spec fn tally_one(st: StatementShape) -> (nat, nat, nat)
    decreases st,
{
    match st {
        StatementShape::Action { .. } => (1, 0, 0),
        StatementShape::Repeat(body) => tally_seq(body@),
        StatementShape::Parallel(bs) => {
            let t = tally_branches(bs@);
            (t.0, max_nat(bs@.len(), t.1), t.2)
        },
        StatementShape::Race(bs) => {
            let t = tally_branches(bs@);
            (t.0, t.1, max_nat(bs@.len(), t.2))
        },
        _ => (0, 0, 0),
    }
}

pub open spec fn tally_branches(bs: Seq<Vec<StatementShape>>) -> (nat, nat, nat)
    decreases bs,
{
    if bs.len() == 0 {
        (0, 0, 0)
    } else {
        join3(tally_branches(bs.drop_last()), tally_seq(bs.last()@))
    }
}

pub open spec fn cap_usize(n: nat) -> usize {
    if n > usize::MAX {
        usize::MAX
    } else {
        n as usize
    }
}

/// A tally as counted in `usize`: the action count saturates.
pub open spec fn counted(t: (nat, nat, nat), r: (usize, usize, usize)) -> bool {
    r.0 == cap_usize(t.0) && r.1 == t.1 && r.2 == t.2
}

fn max_usize(a: usize, b: usize) -> (r: usize)
    ensures
        r == max_nat(a as nat, b as nat),
{
    if a >= b {
        a
    } else {
        b
    }
}

fn join_counts(a: (usize, usize, usize), b: (usize, usize, usize), Ghost(ta): Ghost<(nat, nat, nat)>, Ghost(tb): Ghost<(nat, nat, nat)>) -> (r: (usize, usize, usize))
    requires
        counted(ta, a),
        counted(tb, b),
    ensures
        counted(join3(ta, tb), r),
{
    (a.0.saturating_add(b.0), max_usize(a.1, b.1), max_usize(a.2, b.2))
}

pub fn tally_statements(stmts: &Vec<StatementShape>) -> (r: (usize, usize, usize))
    ensures
        counted(tally_seq(stmts@), r),
    decreases stmts@,
{
    let mut acc: (usize, usize, usize) = (0, 0, 0);
    let mut i: usize = 0;
    assert(stmts@.subrange(0, 0) =~= Seq::<StatementShape>::empty());
    while i < stmts.len()
        invariant
            i <= stmts@.len(),
            counted(tally_seq(stmts@.subrange(0, i as int)), acc),
        decreases stmts@.len() - i,
    {
        assert(stmts@.subrange(0, i + 1).drop_last() =~= stmts@.subrange(0, i as int));
        assert(stmts@.subrange(0, i + 1).last() == stmts@[i as int]);
        let one = tally_statement(&stmts[i]);
        acc = join_counts(
            acc,
            one,
            Ghost(tally_seq(stmts@.subrange(0, i as int))),
            Ghost(tally_one(stmts@[i as int])),
        );
        i += 1;
    }
    assert(stmts@.subrange(0, i as int) =~= stmts@);
    acc
}

pub fn tally_statement(st: &StatementShape) -> (r: (usize, usize, usize))
    ensures
        counted(tally_one(*st), r),
    decreases *st,
{
    match st {
        StatementShape::Action { .. } => (1, 0, 0),
        StatementShape::Repeat(body) => tally_statements(body),
        StatementShape::Parallel(bs) => {
            let t = tally_branch_lists(bs);
            (t.0, max_usize(bs.len(), t.1), t.2)
        },
        StatementShape::Race(bs) => {
            let t = tally_branch_lists(bs);
            (t.0, t.1, max_usize(bs.len(), t.2))
        },
        _ => (0, 0, 0),
    }
}

pub fn tally_branch_lists(bs: &Vec<Vec<StatementShape>>) -> (r: (usize, usize, usize))
    ensures
        counted(tally_branches(bs@), r),
    decreases bs@,
{
    let mut acc: (usize, usize, usize) = (0, 0, 0);
    let mut i: usize = 0;
    assert(bs@.subrange(0, 0) =~= Seq::<Vec<StatementShape>>::empty());
    while i < bs.len()
        invariant
            i <= bs@.len(),
            counted(tally_branches(bs@.subrange(0, i as int)), acc),
        decreases bs@.len() - i,
    {
        assert(bs@.subrange(0, i + 1).drop_last() =~= bs@.subrange(0, i as int));
        assert(bs@.subrange(0, i + 1).last() == bs@[i as int]);
        let one = tally_statements(&bs[i]);
        acc = join_counts(
            acc,
            one,
            Ghost(tally_branches(bs@.subrange(0, i as int))),
            Ghost(tally_seq(bs@[i as int]@)),
        );
        i += 1;
    }
    assert(bs@.subrange(0, i as int) =~= bs@);
    acc
}

// ---------------------------------------------------------------------------
// Program facts
// ---------------------------------------------------------------------------

/// Over steps: the most actions of one step (counted in `usize`), and the
/// most branches of any parallel and of any race block.
pub open spec fn facts_steps(steps: Seq<StepShape>) -> (nat, nat, nat)
    decreases steps.len(),
{
    if steps.len() == 0 {
        (0, 0, 0)
    } else {
        let p = facts_steps(steps.drop_last());
        let t = tally_seq(steps.last().statements@);
        (max_nat(p.0, cap_usize(t.0) as nat), max_nat(p.1, t.1), max_nat(p.2, t.2))
    }
}

pub open spec fn facts_tasks(tasks: Seq<TaskShape>) -> (nat, nat, nat)
    decreases tasks.len(),
{
    if tasks.len() == 0 {
        (0, 0, 0)
    } else {
        let p = facts_tasks(tasks.drop_last());
        let t = facts_steps(tasks.last().steps@);
        (max_nat(p.0, t.0), max_nat(p.1, t.1), max_nat(p.2, t.2))
    }
}

fn step_facts(steps: &Vec<StepShape>) -> (r: (usize, usize, usize))
    ensures
        r.0 == facts_steps(steps@).0,
        r.1 == facts_steps(steps@).1,
        r.2 == facts_steps(steps@).2,
{
    let mut acc: (usize, usize, usize) = (0, 0, 0);
    let mut i: usize = 0;
    assert(steps@.subrange(0, 0) =~= Seq::<StepShape>::empty());
    while i < steps.len()
        invariant
            i <= steps@.len(),
            acc.0 == facts_steps(steps@.subrange(0, i as int)).0,
            acc.1 == facts_steps(steps@.subrange(0, i as int)).1,
            acc.2 == facts_steps(steps@.subrange(0, i as int)).2,
        decreases steps@.len() - i,
    {
        assert(steps@.subrange(0, i + 1).drop_last() =~= steps@.subrange(0, i as int));
        assert(steps@.subrange(0, i + 1).last() == steps@[i as int]);
        let t = tally_statements(&steps[i].statements);
        acc = (max_usize(acc.0, t.0), max_usize(acc.1, t.1), max_usize(acc.2, t.2));
        i += 1;
    }
    assert(steps@.subrange(0, i as int) =~= steps@);
    acc
}

/// The most actions in one step, and the most branches of a parallel and of
/// a race block, over the whole program.
pub fn analyze_program_budget_facts(tasks: &[TaskShape]) -> (r: (usize, usize, usize))
    ensures
        r.0 == facts_tasks(tasks@).0,
        r.1 == facts_tasks(tasks@).1,
        r.2 == facts_tasks(tasks@).2,
{
    let mut acc: (usize, usize, usize) = (0, 0, 0);
    let mut i: usize = 0;
    assert(tasks@.subrange(0, 0) =~= Seq::<TaskShape>::empty());
    while i < tasks.len()
        invariant
            i <= tasks@.len(),
            acc.0 == facts_tasks(tasks@.subrange(0, i as int)).0,
            acc.1 == facts_tasks(tasks@.subrange(0, i as int)).1,
            acc.2 == facts_tasks(tasks@.subrange(0, i as int)).2,
        decreases tasks@.len() - i,
    {
        assert(tasks@.subrange(0, i + 1).drop_last() =~= tasks@.subrange(0, i as int));
        assert(tasks@.subrange(0, i + 1).last() == tasks@[i as int]);
        let t = step_facts(&tasks[i].steps);
        acc = (max_usize(acc.0, t.0), max_usize(acc.1, t.1), max_usize(acc.2, t.2));
        i += 1;
    }
    assert(tasks@.subrange(0, i as int) =~= tasks@);
    acc
}

// ---------------------------------------------------------------------------
// Axis moves
// ---------------------------------------------------------------------------

pub open spec fn axis_move_seq(s: Seq<StatementShape>) -> bool
    decreases s,
{
    if s.len() == 0 {
        false
    } else {
        axis_move_seq(s.drop_last()) || axis_move_one(s.last())
    }
}

/// Whether a statement is an `axis.move_*` or holds one in a nested block.
pub open spec fn axis_move_one(st: StatementShape) -> bool
    decreases st,
{
    match st {
        StatementShape::Action { axis_move } => axis_move,
        StatementShape::Repeat(body) => axis_move_seq(body@),
        StatementShape::Parallel(bs) => axis_move_branches(bs@),
        StatementShape::Race(bs) => axis_move_branches(bs@),
        _ => false,
    }
}

pub open spec fn axis_move_branches(bs: Seq<Vec<StatementShape>>) -> bool
    decreases bs,
{
    if bs.len() == 0 {
        false
    } else {
        axis_move_branches(bs.drop_last()) || axis_move_seq(bs.last()@)
    }
}

pub fn statements_include_axis_move(stmts: &Vec<StatementShape>) -> (r: bool)
    ensures
        r == axis_move_seq(stmts@),
    decreases stmts@,
{
    let mut i: usize = 0;
    assert(stmts@.subrange(0, 0) =~= Seq::<StatementShape>::empty());
    while i < stmts.len()
        invariant
            i <= stmts@.len(),
            !axis_move_seq(stmts@.subrange(0, i as int)),
        decreases stmts@.len() - i,
    {
        assert(stmts@.subrange(0, i + 1).drop_last() =~= stmts@.subrange(0, i as int));
        assert(stmts@.subrange(0, i + 1).last() == stmts@[i as int]);
        if statement_includes_axis_move(&stmts[i]) {
            proof {
                lemma_axis_move_prefix(stmts@, i as int + 1);
            }
            return true;
        }
        i += 1;
    }
    assert(stmts@.subrange(0, i as int) =~= stmts@);
    false
}

proof fn lemma_axis_move_prefix(s: Seq<StatementShape>, i: int)
    requires
        0 <= i <= s.len(),
        axis_move_seq(s.subrange(0, i)),
    ensures
        axis_move_seq(s),
    decreases s.len() - i,
{
    if i < s.len() {
        assert(s.subrange(0, i + 1).drop_last() =~= s.subrange(0, i));
        lemma_axis_move_prefix(s, i + 1);
    } else {
        assert(s.subrange(0, i) =~= s);
    }
}

proof fn lemma_axis_move_branches_prefix(s: Seq<Vec<StatementShape>>, i: int)
    requires
        0 <= i <= s.len(),
        axis_move_branches(s.subrange(0, i)),
    ensures
        axis_move_branches(s),
    decreases s.len() - i,
{
    if i < s.len() {
        assert(s.subrange(0, i + 1).drop_last() =~= s.subrange(0, i));
        lemma_axis_move_branches_prefix(s, i + 1);
    } else {
        assert(s.subrange(0, i) =~= s);
    }
}

pub fn statement_includes_axis_move(st: &StatementShape) -> (r: bool)
    ensures
        r == axis_move_one(*st),
    decreases *st,
{
    match st {
        StatementShape::Action { axis_move } => *axis_move,
        StatementShape::Repeat(body) => statements_include_axis_move(body),
        StatementShape::Parallel(bs) => branches_include_axis_move(bs),
        StatementShape::Race(bs) => branches_include_axis_move(bs),
        _ => false,
    }
}

fn branches_include_axis_move(bs: &Vec<Vec<StatementShape>>) -> (r: bool)
    ensures
        r == axis_move_branches(bs@),
    decreases bs@,
{
    let mut i: usize = 0;
    assert(bs@.subrange(0, 0) =~= Seq::<Vec<StatementShape>>::empty());
    while i < bs.len()
        invariant
            i <= bs@.len(),
            !axis_move_branches(bs@.subrange(0, i as int)),
        decreases bs@.len() - i,
    {
        assert(bs@.subrange(0, i + 1).drop_last() =~= bs@.subrange(0, i as int));
        assert(bs@.subrange(0, i + 1).last() == bs@[i as int]);
        if statements_include_axis_move(&bs[i]) {
            proof {
                lemma_axis_move_branches_prefix(bs@, i as int + 1);
            }
            return true;
        }
        i += 1;
    }
    assert(bs@.subrange(0, i as int) =~= bs@);
    false
}

/// The code of the notice about steps that mix an axis move with other
/// statements.
pub const AXIS_BLOCKING_MIGRATION_WARNING_CODE: &'static str = "MIG-AXIS-BLOCK-001";

/// The statements of a step, `allow_indefinite_wait` aside.
pub open spec fn counted_statements(s: Seq<StatementShape>) -> nat
    decreases s.len(),
{
    if s.len() == 0 {
        0
    } else {
        counted_statements(s.drop_last()) + if s.last() is AllowIndefiniteWait {
            0nat
        } else {
            1nat
        }
    }
}

/// A step the notice names: more than one statement (besides
/// `allow_indefinite_wait`), one of them an axis move.
pub open spec fn mixes_axis_move(step: StepShape) -> bool {
    counted_statements(step.statements@) > 1 && axis_move_seq(step.statements@)
}

pub open spec fn impacted_steps(task: TaskShape, n: int) -> Seq<Seq<char>>
    decreases n,
{
    if n <= 0 {
        seq![]
    } else {
        let p = impacted_steps(task, n - 1);
        let step = task.steps@[n - 1];
        if mixes_axis_move(step) {
            p.push(task.name@ + "."@ + step.name@)
        } else {
            p
        }
    }
}

/// `task.step` for every step the notice names, task by task.
pub open spec fn impacted(tasks: Seq<TaskShape>) -> Seq<Seq<char>>
    decreases tasks.len(),
{
    if tasks.len() == 0 {
        seq![]
    } else {
        impacted(tasks.drop_last()) + impacted_steps(tasks.last(), tasks.last().steps@.len() as int)
    }
}

pub open spec fn migration_message(names: Seq<Seq<char>>) -> Seq<char> {
    let preview = join(if names.len() > 3 { names.take(3) } else { names }, ", "@);
    let scope = if names.len() > 3 {
        preview + " and "@ + decimal((names.len() - 3) as nat) + " more step(s)"@
    } else {
        preview + " ("@ + decimal(names.len()) + " step(s) total)"@
    };
    "migration notice: axis.move_* now executes with default blocking semantics. Detected "@ + scope
        + " mixing axis.move_* with other statements inside one step; runtime ordering may differ from older non-blocking assumptions."@
}

fn count_statements(stmts: &Vec<StatementShape>) -> (r: usize)
    ensures
        r == counted_statements(stmts@),
{
    let mut n: usize = 0;
    let mut i: usize = 0;
    assert(stmts@.subrange(0, 0) =~= Seq::<StatementShape>::empty());
    while i < stmts.len()
        invariant
            i <= stmts@.len(),
            n == counted_statements(stmts@.subrange(0, i as int)),
            n <= i,
        decreases stmts@.len() - i,
    {
        assert(stmts@.subrange(0, i + 1).drop_last() =~= stmts@.subrange(0, i as int));
        assert(stmts@.subrange(0, i + 1).last() == stmts@[i as int]);
        match &stmts[i] {
            StatementShape::AllowIndefiniteWait => {},
            _ => {
                n += 1;
            },
        }
        i += 1;
    }
    assert(stmts@.subrange(0, i as int) =~= stmts@);
    n
}

fn impacted_exec(tasks: &[TaskShape]) -> (r: Vec<Vec<char>>)
    ensures
        r@.map_values(|v: Vec<char>| v@) == impacted(tasks@),
{
    let mut out: Vec<Vec<char>> = Vec::new();
    let mut i: usize = 0;
    assert(tasks@.subrange(0, 0) =~= Seq::<TaskShape>::empty());
    while i < tasks.len()
        invariant
            i <= tasks@.len(),
            out@.map_values(|v: Vec<char>| v@) == impacted(tasks@.subrange(0, i as int)),
        decreases tasks@.len() - i,
    {
        assert(tasks@.subrange(0, i + 1).drop_last() =~= tasks@.subrange(0, i as int));
        assert(tasks@.subrange(0, i + 1).last() == tasks@[i as int]);
        let task = &tasks[i];
        let ghost base = out@.map_values(|v: Vec<char>| v@);
        let mut j: usize = 0;
        while j < task.steps.len()
            invariant
                j <= task.steps@.len(),
                base == impacted(tasks@.subrange(0, i as int)),
                out@.map_values(|v: Vec<char>| v@) == base + impacted_steps(*task, j as int),
            decreases task.steps@.len() - j,
        {
            let step = &task.steps[j];
            let n = count_statements(&step.statements);
            if n > 1 && statements_include_axis_move(&step.statements) {
                let mut name = chars_of(task.name.as_str());
                name.push('.');
                let sn = chars_of(step.name.as_str());
                let mut k: usize = 0;
                let ghost head = name@;
                while k < sn.len()
                    invariant
                        k <= sn@.len(),
                        name@ == head + sn@.subrange(0, k as int),
                    decreases sn@.len() - k,
                {
                    name.push(sn[k]);
                    k += 1;
                    assert(name@ =~= head + sn@.subrange(0, k as int));
                }
                assert(sn@.subrange(0, sn@.len() as int) =~= sn@);
                assert(name@ =~= task.name@ + "."@ + step.name@) by {
                    reveal_strlit(".");
                }
                let ghost before = out@;
                out.push(name);
                assert(out@.map_values(|v: Vec<char>| v@) =~= before.map_values(|v: Vec<char>| v@).push(
                    task.name@ + "."@ + step.name@,
                ));
            }
            j += 1;
        }
        i += 1;
    }
    assert(tasks@.subrange(0, i as int) =~= tasks@);
    out
}

/// The notice for steps that mix an axis move with other statements, when
/// there are such steps: the first three are named, and the rest counted.
pub fn axis_move_migration_notice(tasks: &[TaskShape]) -> (r: Option<String>)
    ensures
        impacted(tasks@).len() == 0 ==> r is None,
        impacted(tasks@).len() > 0 ==> (r matches Some(m) && m@ == migration_message(impacted(tasks@))),
{
    let names = impacted_exec(tasks);
    let ghost nv = names@.map_values(|v: Vec<char>| v@);
    if names.len() == 0 {
        return None;
    }
    let mut first: Vec<Vec<char>> = Vec::new();
    let mut i: usize = 0;
    while i < names.len() && i < 3
        invariant
            i <= names@.len(),
            i <= 3,
            nv == names@.map_values(|v: Vec<char>| v@),
            first@.map_values(|v: Vec<char>| v@) == nv.take(i as int),
        decreases 3 - i,
    {
        let ghost before = first@;
        let x = sub_chars(names[i].as_slice(), 0, names[i].len());
        assert(names@[i as int]@.subrange(0, names@[i as int]@.len() as int) =~= names@[i as int]@);
        let ghost xv = x@;
        first.push(x);
        assert(first@.map_values(|v: Vec<char>| v@) =~= before.map_values(|v: Vec<char>| v@).push(xv));
        assert(nv.take(i + 1) =~= nv.take(i as int).push(nv[i as int]));
        i += 1;
    }
    assert(names@.len() > 3 ==> i == 3);
    let preview = join_exec(&first, ", ");
    let mut scope = preview;
    if names.len() > 3 {
        push_str(&mut scope, " and ");
        let k = format_usize(names.len() - 3);
        push_str(&mut scope, k.as_str());
        push_str(&mut scope, " more step(s)");
    } else {
        assert(nv.take(i as int) =~= nv);
        push_str(&mut scope, " (");
        let k = format_usize(names.len());
        push_str(&mut scope, k.as_str());
        push_str(&mut scope, " step(s) total)");
    }
    let mut m = owned(
        "migration notice: axis.move_* now executes with default blocking semantics. Detected ",
    );
    push_str(&mut m, scope.as_str());
    push_str(
        &mut m,
        " mixing axis.move_* with other statements inside one step; runtime ordering may differ from older non-blocking assumptions.",
    );
    Some(m)
}

// ---------------------------------------------------------------------------
// Same-tick transition chains
// ---------------------------------------------------------------------------

/// A transition's guard, as far as the budget reads it.
#[derive(Debug, Clone, Copy, PartialEq, Eq, Structural)]
pub enum GuardShape {
    Always,
    Condition,
    Timeout { duration_ms: u64 },
    Delay { duration_ms: u64 },
}

/// Whether a transition with this guard can fire in the tick its step was
/// entered: unless it waits for a time that is not zero.
pub open spec fn fires_same_tick(g: GuardShape) -> bool {
    match g {
        GuardShape::Always => true,
        GuardShape::Condition => true,
        GuardShape::Timeout { duration_ms } => duration_ms == 0,
        GuardShape::Delay { duration_ms } => duration_ms == 0,
    }
}

pub fn guard_can_fire_same_tick(guard: &GuardShape) -> (r: bool)
    ensures
        r == fires_same_tick(*guard),
{
    match guard {
        GuardShape::Always => true,
        GuardShape::Condition => true,
        GuardShape::Timeout { duration_ms } => *duration_ms == 0,
        GuardShape::Delay { duration_ms } => *duration_ms == 0,
    }
}

pub struct StateKey {
    pub task_name: String,
    pub step_name: String,
}

pub struct MachineTransition {
    pub from: StateKey,
    pub to: StateKey,
    pub guard: GuardShape,
}

/// What the budget reads of a state machine: its task contexts, its states
/// (a task and a step each) and its transitions.
pub struct StateMachineShape {
    pub task_contexts: Vec<String>,
    pub states: Vec<StateKey>,
    pub transitions: Vec<MachineTransition>,
}

/// The last position below `n` of the state `(task, step)`.
pub open spec fn index_below(states: Seq<StateKey>, task: Seq<char>, step: Seq<char>, n: int) -> Option<int>
    decreases n,
{
    if n <= 0 {
        None
    } else if states[n - 1].task_name@ == task && states[n - 1].step_name@ == step {
        Some(n - 1)
    } else {
        index_below(states, task, step, n - 1)
    }
}

/// The position of a state: the last one with its task and step.
pub open spec fn state_index(m: StateMachineShape, task: Seq<char>, step: Seq<char>) -> Option<int> {
    index_below(m.states@, task, step, m.states@.len() as int)
}

/// The step from state to state that transition `j` makes within task `t`
/// in one tick, if it makes one: both ends in `t`, a guard that can fire at
/// once, and both ends known states.
pub open spec fn tick_edge(m: StateMachineShape, t: Seq<char>, j: int) -> Option<(int, int)> {
    let tr = m.transitions@[j];
    if tr.from.task_name@ == t && tr.to.task_name@ == t && fires_same_tick(tr.guard) {
        match (
            state_index(m, tr.from.task_name@, tr.from.step_name@),
            state_index(m, tr.to.task_name@, tr.to.step_name@),
        ) {
            (Some(a), Some(b)) => Some((a, b)),
            _ => None,
        }
    } else {
        None
    }
}

pub open spec fn tick_step(m: StateMachineShape, t: Seq<char>, a: int, b: int) -> bool {
    exists|j: int| 0 <= j < m.transitions@.len() && #[trigger] tick_edge(m, t, j) == Some((a, b))
}

/// A chain of states of task `t`, each reached from the one before in the
/// same tick.
pub open spec fn is_tick_chain(m: StateMachineShape, t: Seq<char>, p: Seq<int>) -> bool {
    &&& p.len() >= 1
    &&& forall|i: int| 0 <= i < p.len() ==> 0 <= #[trigger] p[i] < m.states@.len()
    &&& forall|i: int| 0 <= i < p.len() - 1 ==> tick_step(m, t, #[trigger] p[i], p[i + 1])
}

/// Whether transitions of task `t` can go round in one tick.
pub open spec fn task_cycles(m: StateMachineShape, t: Seq<char>) -> bool {
    exists|p: Seq<int>| is_tick_chain(m, t, p) && p.len() >= 2 && #[trigger] p[0] == p.last()
}

/// The tasks the budget covers: those with a task context, or, when there
/// are none, those that have states.
pub open spec fn budget_task_names(m: StateMachineShape) -> Set<Seq<char>> {
    if m.task_contexts@.len() > 0 {
        m.task_contexts@.map_values(|s: String| s@).to_set()
    } else {
        m.states@.map_values(|s: StateKey| s.task_name@).to_set()
    }
}

/// `l` is the most transitions a same-tick chain of any of `names` makes.
pub open spec fn longest_chain_is(m: StateMachineShape, names: Set<Seq<char>>, l: nat) -> bool {
    &&& forall|t: Seq<char>, p: Seq<int>|
        names.contains(t) && #[trigger] is_tick_chain(m, t, p) ==> p.len() - 1 <= l
    &&& (l == 0 || exists|t: Seq<char>, p: Seq<int>|
        names.contains(t) && #[trigger] is_tick_chain(m, t, p) && p.len() - 1 == l)
}

fn find_state(m: &StateMachineShape, task: &[char], step: &[char]) -> (r: Option<usize>)
    ensures
        match r {
            Some(i) => state_index(*m, task@, step@) == Some(i as int) && i < m.states@.len(),
            None => state_index(*m, task@, step@) is None,
        },
{
    let mut j: usize = m.states.len();
    while j > 0
        invariant
            j <= m.states@.len(),
            state_index(*m, task@, step@) == index_below(m.states@, task@, step@, j as int),
        decreases j,
    {
        let a = chars_of(m.states[j - 1].task_name.as_str());
        let b = chars_of(m.states[j - 1].step_name.as_str());
        if eq_chars(a.as_slice(), task) && eq_chars(b.as_slice(), step) {
            return Some(j - 1);
        }
        j -= 1;
    }
    None
}

fn tick_edge_exec(m: &StateMachineShape, t: &[char], j: usize) -> (r: Option<(usize, usize)>)
    requires
        j < m.transitions@.len(),
    ensures
        match r {
            Some(e) => tick_edge(*m, t@, j as int) == Some((e.0 as int, e.1 as int))
                && e.0 < m.states@.len() && e.1 < m.states@.len(),
            None => tick_edge(*m, t@, j as int) is None,
        },
{
    let tr = &m.transitions[j];
    let ft = chars_of(tr.from.task_name.as_str());
    let tt = chars_of(tr.to.task_name.as_str());
    if !(eq_chars(ft.as_slice(), t) && eq_chars(tt.as_slice(), t) && guard_can_fire_same_tick(
        &tr.guard,
    )) {
        return None;
    }
    let fs = chars_of(tr.from.step_name.as_str());
    let ts = chars_of(tr.to.step_name.as_str());
    let a = find_state(m, ft.as_slice(), fs.as_slice());
    let b = find_state(m, tt.as_slice(), ts.as_slice());
    match (a, b) {
        (Some(x), Some(y)) => Some((x, y)),
        _ => None,
    }
}

/// The same-tick graph of task `t` in the form the chain search takes:
/// every state a node, an edge per same-tick transition of `t` in
/// transition order, each node's edges in that order.
fn task_graph(m: &StateMachineShape, t: &[char]) -> (r: (Vec<Vec<usize>>, Vec<(usize, usize)>))
    ensures
        graph_ok(r.0@, r.1@),
        r.0@.len() == m.states@.len(),
        forall|a: int, b: int|
            0 <= a < m.states@.len() ==> (has_edge(r.0@, r.1@, a, b) <==> tick_step(*m, t@, a, b)),
{
    let n = m.states.len();
    let mut edges: Vec<(usize, usize)> = Vec::new();
    let ghost mut src: Seq<int> = seq![];
    let mut j: usize = 0;
    while j < m.transitions.len()
        invariant
            j <= m.transitions@.len(),
            n == m.states@.len(),
            src.len() == edges@.len(),
            forall|e: int|
                0 <= e < edges@.len() ==> {
                    &&& 0 <= #[trigger] src[e] < j
                    &&& tick_edge(*m, t@, src[e]) == Some(
                        (edges@[e].0 as int, edges@[e].1 as int),
                    )
                    &&& edges@[e].0 < n && edges@[e].1 < n
                },
            forall|q: int|
                0 <= q < j ==> (#[trigger] tick_edge(*m, t@, q) matches Some(ab) ==> exists|e: int|
                    0 <= e < edges@.len() && edges@[e].0 == ab.0 && edges@[e].1 == ab.1),
        decreases m.transitions@.len() - j,
    {
        match tick_edge_exec(m, t, j) {
            Some(ab) => {
                let ghost old_edges = edges@;
                edges.push(ab);
                proof {
                    src = src.push(j as int);
                    assert forall|q: int| 0 <= q < j + 1 implies (#[trigger] tick_edge(
                        *m,
                        t@,
                        q,
                    ) matches Some(cd) ==> exists|e: int|
                        0 <= e < edges@.len() && edges@[e].0 == cd.0 && edges@[e].1 == cd.1) by {
                        if q < j {
                            if let Some(cd) = tick_edge(*m, t@, q) {
                                let e = choose|e: int|
                                    0 <= e < old_edges.len() && old_edges[e].0 == cd.0
                                        && old_edges[e].1 == cd.1;
                                assert(edges@[e] == old_edges[e]);
                            }
                        } else {
                            assert(edges@[old_edges.len() as int] == ab);
                        }
                    }
                }
            },
            None => {},
        }
        j += 1;
    }
    let mut outgoing: Vec<Vec<usize>> = Vec::new();
    let mut v: usize = 0;
    while v < n
        invariant
            v <= n == m.states@.len(),
            outgoing@.len() == v,
            src.len() == edges@.len(),
            forall|e: int|
                0 <= e < edges@.len() ==> {
                    &&& 0 <= #[trigger] src[e] < m.transitions@.len()
                    &&& tick_edge(*m, t@, src[e]) == Some(
                        (edges@[e].0 as int, edges@[e].1 as int),
                    )
                    &&& edges@[e].0 < n && edges@[e].1 < n
                },
            forall|q: int|
                0 <= q < m.transitions@.len() ==> (#[trigger] tick_edge(*m, t@, q) matches Some(ab) ==> exists|e: int|
                    0 <= e < edges@.len() && edges@[e].0 == ab.0 && edges@[e].1 == ab.1),
            forall|w: int, k: int|
                0 <= w < v && 0 <= k < outgoing@[w]@.len() ==> (#[trigger] outgoing@[w]@[k])
                    < edges@.len() && edges@[outgoing@[w]@[k] as int].0 == w,
            forall|e: int|
                0 <= e < edges@.len() && #[trigger] edges@[e].0 < v ==> exists|k: int|
                    0 <= k < outgoing@[edges@[e].0 as int]@.len() && outgoing@[edges@[e].0 as int]@[k]
                        == e,
        decreases n - v,
    {
        let mut row: Vec<usize> = Vec::new();
        let mut e: usize = 0;
        while e < edges.len()
            invariant
                e <= edges@.len(),
                forall|k: int|
                    0 <= k < row@.len() ==> (#[trigger] row@[k]) < e && edges@[row@[k] as int].0
                        == v,
                forall|x: int|
                    0 <= x < e && #[trigger] edges@[x].0 == v ==> exists|k: int|
                        0 <= k < row@.len() && row@[k] == x,
            decreases edges@.len() - e,
        {
            if edges[e].0 == v {
                let ghost old_row = row@;
                row.push(e);
                proof {
                    assert forall|x: int| 0 <= x < e + 1 && #[trigger] edges@[x].0 == v implies exists|
                        k: int,
                    | 0 <= k < row@.len() && row@[k] == x by {
                        if x < e {
                            let k = choose|k: int| 0 <= k < old_row.len() && old_row[k] == x;
                            assert(row@[k] == x);
                        } else {
                            assert(row@[old_row.len() as int] == x);
                        }
                    }
                }
            }
            e += 1;
        }
        let ghost old_out = outgoing@;
        let ghost row_v = row@;
        outgoing.push(row);
        assert(outgoing@[v as int]@ == row_v);
        proof {
            assert forall|w: int, k: int|
                0 <= w < v + 1 && 0 <= k < outgoing@[w]@.len() implies (#[trigger] outgoing@[w]@[k])
                < edges@.len() && edges@[outgoing@[w]@[k] as int].0 == w by {
                if w < v {
                    assert(outgoing@[w] == old_out[w]);
                }
            }
            assert forall|x: int| 0 <= x < edges@.len() && #[trigger] edges@[x].0 < v + 1 implies exists|
                k: int,
            | 0 <= k < outgoing@[edges@[x].0 as int]@.len() && outgoing@[edges@[x].0 as int]@[k]
                == x by {
                if edges@[x].0 < v {
                    assert(outgoing@[edges@[x].0 as int] == old_out[edges@[x].0 as int]);
                } else {
                    let k = choose|k: int| 0 <= k < row_v.len() && row_v[k] == x;
                    assert(outgoing@[edges@[x].0 as int]@[k] == x);
                }
            }
        }
        v += 1;
    }
    proof {
        assert forall|w: int, k: int|
            0 <= w < outgoing@.len() && 0 <= k < outgoing@[w]@.len() implies {
            &&& (#[trigger] outgoing@[w]@[k]) < edges@.len()
            &&& edges@[outgoing@[w]@[k] as int].1 < outgoing@.len()
        } by {
            let e = outgoing@[w]@[k] as int;
            assert(0 <= src[e]);
        }
        assert forall|a: int, b: int| 0 <= a < n implies (has_edge(outgoing@, edges@, a, b)
            <==> tick_step(*m, t@, a, b)) by {
            if has_edge(outgoing@, edges@, a, b) {
                let k = choose|k: int|
                    0 <= k < outgoing@[a]@.len() && #[trigger] succ(outgoing@, edges@, a, k) == b;
                let e = outgoing@[a]@[k] as int;
                assert(tick_edge(*m, t@, src[e]) == Some((a, b)));
            }
            if tick_step(*m, t@, a, b) {
                let q = choose|q: int|
                    0 <= q < m.transitions@.len() && #[trigger] tick_edge(*m, t@, q) == Some((a, b));
                assert(tick_edge(*m, t@, q) matches Some(ab));
                let e = choose|e: int| 0 <= e < edges@.len() && edges@[e].0 == a && edges@[e].1 == b;
                let k = choose|k: int|
                    0 <= k < outgoing@[edges@[e].0 as int]@.len() && outgoing@[edges@[e].0 as int]@[k]
                        == e;
                assert(succ(outgoing@, edges@, a, k) == b);
            }
        }
    }
    (outgoing, edges)
}

proof fn lemma_walks_are_chains(
    og: Seq<Vec<usize>>,
    ed: Seq<(usize, usize)>,
    m: StateMachineShape,
    t: Seq<char>,
)
    requires
        og.len() == m.states@.len(),
        forall|a: int, b: int|
            0 <= a < m.states@.len() ==> (has_edge(og, ed, a, b) <==> tick_step(m, t, a, b)),
    ensures
        forall|p: Seq<int>| #[trigger] is_walk(og, ed, p) <==> is_tick_chain(m, t, p),
        has_cycle(og, ed) == task_cycles(m, t),
{
    assert forall|p: Seq<int>| #[trigger] is_walk(og, ed, p) <==> is_tick_chain(m, t, p) by {
        if is_walk(og, ed, p) {
            assert forall|i: int| 0 <= i < p.len() - 1 implies tick_step(m, t, #[trigger] p[i], p[i + 1]) by {
                assert(0 <= p[i] < og.len());
                assert(has_edge(og, ed, p[i], p[i + 1]));
            }
        }
        if is_tick_chain(m, t, p) {
            assert forall|i: int| 0 <= i < p.len() - 1 implies has_edge(og, ed, #[trigger] p[i], p[i + 1]) by {
                assert(0 <= p[i] < m.states@.len());
                assert(tick_step(m, t, p[i], p[i + 1]));
            }
        }
    }
    if has_cycle(og, ed) {
        let p = choose|p: Seq<int>| is_walk(og, ed, p) && p.len() >= 2 && #[trigger] p[0] == p.last();
        assert(is_tick_chain(m, t, p));
    }
    if task_cycles(m, t) {
        let p = choose|p: Seq<int>| is_tick_chain(m, t, p) && p.len() >= 2 && #[trigger] p[0] == p.last();
        assert(is_walk(og, ed, p));
    }
}

proof fn lemma_push_contains<A>(s: Seq<A>, x: A, y: A)
    ensures
        s.push(x).contains(y) <==> (s.contains(y) || y == x),
{
    if s.push(x).contains(y) {
        let q = choose|q: int| 0 <= q < s.push(x).len() && s.push(x)[q] == y;
        if q < s.len() {
            assert(s[q] == y);
        }
    }
    if s.contains(y) {
        let q = choose|q: int| 0 <= q < s.len() && s[q] == y;
        assert(s.push(x)[q] == y);
    }
    if y == x {
        assert(s.push(x)[s.len() as int] == x);
    }
}

/// The names of the tasks the budget covers, each once.
fn budget_names(m: &StateMachineShape) -> (r: Vec<Vec<char>>)
    ensures
        r@.map_values(|v: Vec<char>| v@).no_duplicates(),
        r@.map_values(|v: Vec<char>| v@).to_set() == budget_task_names(*m),
{
    let mut src: Vec<Vec<char>> = Vec::new();
    let ghost sv: Seq<Seq<char>> = if m.task_contexts@.len() > 0 {
        m.task_contexts@.map_values(|s: String| s@)
    } else {
        m.states@.map_values(|s: StateKey| s.task_name@)
    };
    if m.task_contexts.len() > 0 {
        let mut i: usize = 0;
        while i < m.task_contexts.len()
            invariant
                i <= m.task_contexts@.len(),
                m.task_contexts@.len() > 0,
                sv == m.task_contexts@.map_values(|s: String| s@),
                src@.len() == i,
                forall|k: int| 0 <= k < i ==> (#[trigger] src@[k])@ == sv[k],
            decreases m.task_contexts@.len() - i,
        {
            src.push(chars_of(m.task_contexts[i].as_str()));
            i += 1;
        }
    } else {
        let mut i: usize = 0;
        while i < m.states.len()
            invariant
                i <= m.states@.len(),
                m.task_contexts@.len() == 0,
                sv == m.states@.map_values(|s: StateKey| s.task_name@),
                src@.len() == i,
                forall|k: int| 0 <= k < i ==> (#[trigger] src@[k])@ == sv[k],
            decreases m.states@.len() - i,
        {
            src.push(chars_of(m.states[i].task_name.as_str()));
            i += 1;
        }
    }
    assert(src@.map_values(|v: Vec<char>| v@) =~= sv);
    let mut out: Vec<Vec<char>> = Vec::new();
    let mut i: usize = 0;
    while i < src.len()
        invariant
            i <= src@.len(),
            src@.map_values(|v: Vec<char>| v@) == sv,
            out@.map_values(|v: Vec<char>| v@).no_duplicates(),
            forall|x: Seq<char>|
                out@.map_values(|v: Vec<char>| v@).contains(x) <==> sv.take(i as int).contains(x),
        decreases src@.len() - i,
    {
        let ghost ov = out@.map_values(|v: Vec<char>| v@);
        let mut seen = false;
        let mut k: usize = 0;
        while k < out.len()
            invariant
                k <= out@.len(),
                ov == out@.map_values(|v: Vec<char>| v@),
                seen == exists|q: int| 0 <= q < k && ov[q] == src@[i as int]@,
                i < src@.len(),
            decreases out@.len() - k,
        {
            assert(ov[k as int] == out@[k as int]@);
            if eq_chars(out[k].as_slice(), src[i].as_slice()) {
                seen = true;
            }
            k += 1;
        }
        let ghost x = sv[i as int];
        assert(src@[i as int]@ == x);
        assert(sv.take(i + 1) =~= sv.take(i as int).push(x));
        if !seen {
            let c = sub_chars(src[i].as_slice(), 0, src[i].len());
            assert(src@[i as int]@.subrange(0, src@[i as int]@.len() as int) =~= x);
            out.push(c);
            assert(out@.map_values(|v: Vec<char>| v@) =~= ov.push(x));
            assert forall|y: Seq<char>| ov.push(x).contains(y) <==> sv.take(i + 1).contains(y) by {
                lemma_push_contains(ov, x, y);
                lemma_push_contains(sv.take(i as int), x, y);
            }
            assert(!ov.contains(x));
            assert forall|a: int, b: int| 0 <= a < b < ov.push(x).len() implies ov.push(x)[a] != ov.push(x)[b] by {
                if b == ov.len() {
                    assert(ov.push(x)[a] == ov[a]);
                }
            }
        } else {
            assert forall|y: Seq<char>| ov.contains(y) <==> sv.take(i + 1).contains(y) by {
                lemma_push_contains(sv.take(i as int), x, y);
                if y == x {
                    let q = choose|q: int| 0 <= q < out@.len() && ov[q] == x;
                    assert(ov.contains(x));
                }
            }
        }
        i += 1;
    }
    assert(sv.take(src@.len() as int) =~= sv);
    assert(out@.map_values(|v: Vec<char>| v@).to_set() =~= budget_task_names(*m));
    out
}

pub open spec fn sat_mul_usize(a: int, b: int) -> usize {
    if a * b > usize::MAX {
        usize::MAX
    } else {
        (a * b) as usize
    }
}

fn sat_mul_usize_exec(a: usize, b: usize) -> (r: usize)
    ensures
        r == sat_mul_usize(a as int, b as int),
{
    match a.checked_mul(b) {
        Some(v) => v,
        None => usize::MAX,
    }
}

/// The runtime budget of a program: the actions and branches its steps
/// hold, and the chains of transitions its tasks can take in one tick,
/// against the cap on transitions per task and tick.
pub fn analyze_runtime_budget(
    tasks: &[TaskShape],
    machine: &StateMachineShape,
    max_transitions_per_tick_cap: usize,
) -> (r: RuntimeBudget)
    ensures
        ({
            let f = facts_tasks(tasks@);
            let names = budget_task_names(*machine);
            let cap = max_transitions_per_tick_cap;
            &&& r.transition_budget_scope == TransitionBudgetScope::PerTaskPerTick
            &&& r.max_transitions_per_tick_cap == cap
            &&& r.active_task_count == max_nat(names.len(), 1)
            &&& r.max_transitions_all_tasks_per_tick_upper_bound == sat_mul_usize(
                cap as int,
                r.active_task_count as int,
            )
            &&& r.has_same_tick_cycle == exists|t: Seq<char>|
                names.contains(t) && #[trigger] task_cycles(*machine, t)
            &&& r.has_same_tick_cycle ==> r.max_transitions_same_tick_upper_bound == cap
            &&& !r.has_same_tick_cycle ==> exists|l: nat|
                longest_chain_is(*machine, names, l)
                    && r.max_transitions_same_tick_upper_bound as nat == (if l <= cap {
                    l
                } else {
                    cap as nat
                })
            &&& r.max_actions_per_transition == f.0
            &&& r.max_actions_per_tick_upper_bound == max_nat(
                sat_mul_usize(f.0 as int, r.max_transitions_all_tasks_per_tick_upper_bound as int)
                    as nat,
                f.0,
            )
            &&& r.max_parallel_branches == f.1
            &&& r.max_race_branches == f.2
            &&& r.budget_time_estimate == spec_estimate(r, 8, 5, 12, 2000)
        }),
{
    let facts = analyze_program_budget_facts(tasks);
    let names = budget_names(machine);
    let ghost nv = names@.map_values(|v: Vec<char>| v@);
    proof {
        nv.unique_seq_to_set();
    }
    let active_task_count: usize = if names.len() > 1 {
        names.len()
    } else {
        1
    };
    let mut has_cycle = false;
    let mut longest: usize = 0;
    let mut i: usize = 0;
    while i < names.len()
        invariant
            i <= names@.len(),
            nv == names@.map_values(|v: Vec<char>| v@),
            has_cycle == exists|q: int| 0 <= q < i && #[trigger] task_cycles(*machine, nv[q]),
            !has_cycle ==> forall|q: int, p: Seq<int>|
                0 <= q < i && #[trigger] is_tick_chain(*machine, nv[q], p) ==> p.len() - 1
                    <= longest,
            !has_cycle ==> (longest == 0 || exists|q: int, p: Seq<int>|
                0 <= q < i && #[trigger] is_tick_chain(*machine, nv[q], p) && p.len() - 1
                    == longest),
        decreases names@.len() - i,
    {
        let (og, ed) = task_graph(machine, names[i].as_slice());
        proof {
            lemma_walks_are_chains(og@, ed@, *machine, nv[i as int]);
        }
        let (c, l) = analyze_longest_chain(og.as_slice(), ed.as_slice());
        proof {
            if !has_cycle && !c && l > 0 {
                let p = choose|p: Seq<int>| is_walk(og@, ed@, p) && p.len() - 1 == l;
                assert(is_tick_chain(*machine, nv[i as int], p));
            }
            if !has_cycle && !c {
                assert forall|q: int, p: Seq<int>|
                    0 <= q < i + 1 && #[trigger] is_tick_chain(*machine, nv[q], p) implies p.len() - 1
                    <= (if l > longest { l } else { longest }) by {
                    if q == i {
                        assert(is_walk(og@, ed@, p));
                    }
                }
            }
        }
        has_cycle = has_cycle || c;
        if l > longest {
            longest = l;
        }
        i += 1;
    }
    let cap = max_transitions_per_tick_cap;
    let all_tasks = sat_mul_usize_exec(cap, active_task_count);
    let same_tick = if has_cycle {
        cap
    } else if longest <= cap {
        longest
    } else {
        cap
    };
    let per_tick = sat_mul_usize_exec(facts.0, all_tasks);
    let actions_per_tick = if per_tick >= facts.0 {
        per_tick
    } else {
        facts.0
    };
    let mut budget = RuntimeBudget {
        transition_budget_scope: TransitionBudgetScope::PerTaskPerTick,
        max_transitions_per_tick_cap: cap,
        active_task_count,
        max_transitions_all_tasks_per_tick_upper_bound: all_tasks,
        max_transitions_same_tick_upper_bound: same_tick,
        max_actions_per_transition: facts.0,
        max_actions_per_tick_upper_bound: actions_per_tick,
        max_parallel_branches: facts.1,
        max_race_branches: facts.2,
        has_same_tick_cycle: has_cycle,
        budget_time_estimate: BudgetTimeEstimate {
            action_cost_us: 0,
            transition_cost_us: 0,
            parallel_expand_cost_us: 0,
            action_component_us: 0,
            transition_component_us: 0,
            parallel_component_us: 0,
            total_estimate_us: 0,
            max_allowed_us: 0,
            exceeds_budget: false,
        },
    };
    let thresholds = RuntimeBudgetThresholds::default_thresholds();
    budget.budget_time_estimate = estimate_budget_time(&budget, &thresholds);
    proof {
        let names_set = budget_task_names(*machine);
        assert(nv.to_set() == names_set);
        assert forall|t: Seq<char>| names_set.contains(t) <==> exists|q: int| 0 <= q < nv.len() && nv[q] == t by {
            assert(nv.to_set().contains(t) == nv.contains(t));
        }
        if has_cycle {
            let q = choose|q: int| 0 <= q < i && #[trigger] task_cycles(*machine, nv[q]);
            assert(names_set.contains(nv[q]));
        } else {
            assert(forall|t: Seq<char>| names_set.contains(t) ==> !task_cycles(*machine, t));
            assert(longest_chain_is(*machine, names_set, longest as nat)) by {
                assert forall|t: Seq<char>, p: Seq<int>|
                    names_set.contains(t) && #[trigger] is_tick_chain(*machine, t, p) implies p.len() - 1
                    <= longest by {
                    let q = choose|q: int| 0 <= q < nv.len() && nv[q] == t;
                    assert(is_tick_chain(*machine, nv[q], p));
                }
                if longest != 0 {
                    let (q, p) = choose|q: int, p: Seq<int>|
                        0 <= q < i && #[trigger] is_tick_chain(*machine, nv[q], p) && p.len() - 1
                            == longest;
                    assert(names_set.contains(nv[q]));
                }
            }
        }
    }
    budget
}

} // verus!
