//! The SFC chart of one task: steps stacked top to bottom in lanes, each
//! with its body beside it and a note per leaving transition, joined by
//! connector lines.
use vstd::prelude::*;
use crate::flowchart_render::{
    EdgeSummary, StepSummary, TaskDiagram, fact_lines, spec_transition_fact_lines,
    transition_fact_lines,
};
use crate::flowchart_text::{
    flatten_scan, flatten_statement_lines, lines_view, short_source, spec_short_source,
    spec_step_body, spec_wrap_text_lines, step_body_lines, wrap_scan, wrap_text_lines,
};
use crate::flowchart_render::svg_lines;
use crate::flowchart_text::{html_escape, spec_html_escape};
use crate::text::{
    chars_of, contains, contains_exec, decimal, eq_chars, format_i64, format_usize, int_decimal,
    owned, push_str,
};

verus! {

// ---------------------------------------------------------------------------
// Steps by name
// ---------------------------------------------------------------------------

/// The index of the last step below `n` with the given name.
pub open spec fn last_step_below(steps: Seq<StepSummary>, name: Seq<char>, n: int) -> Option<int>
    decreases n,
{
    if n <= 0 {
        None
    } else if steps[n - 1].step_name@ == name {
        Some(n - 1)
    } else {
        last_step_below(steps, name, n - 1)
    }
}

/// The step a name refers to; when two steps share a name, the later one.
pub open spec fn step_idx(task: TaskDiagram, name: Seq<char>) -> Option<int> {
    last_step_below(task.steps@, name, task.steps@.len() as int)
}

proof fn lemma_last_step_below_range(steps: Seq<StepSummary>, name: Seq<char>, n: int)
    ensures
        last_step_below(steps, name, n) matches Some(k) ==> 0 <= k < n,
    decreases n,
{
    if n > 0 {
        lemma_last_step_below_range(steps, name, n - 1);
    }
}

pub fn find_step(task: &TaskDiagram, name: &String) -> (r: Option<usize>)
    ensures
        match r {
            Some(k) => step_idx(*task, name@) == Some(k as int) && k < task.steps@.len(),
            None => step_idx(*task, name@) is None,
        },
{
    let nv = chars_of(name.as_str());
    let mut n: usize = task.steps.len();
    while n > 0
        invariant
            n <= task.steps@.len(),
            nv@ == name@,
            step_idx(*task, name@) == last_step_below(task.steps@, name@, n as int),
        decreases n,
    {
        let sv = chars_of(task.steps[n - 1].step_name.as_str());
        if eq_chars(sv.as_slice(), nv.as_slice()) {
            return Some(n - 1);
        }
        n -= 1;
    }
    None
}

// ---------------------------------------------------------------------------
// Transitions by step
// ---------------------------------------------------------------------------

/// Whether a transition stays within the task.
pub open spec fn is_local(task: TaskDiagram, e: EdgeSummary) -> bool {
    e.to_task@ == task.task_name@
}

/// The step a transition leaves, when the task has it.
pub open spec fn from_idx(task: TaskDiagram, e: EdgeSummary) -> Option<int> {
    step_idx(task, e.from_step@)
}

/// The target step of a local transition, when there is such a step.
pub open spec fn to_idx(task: TaskDiagram, e: EdgeSummary) -> Option<int> {
    if is_local(task, e) {
        step_idx(task, e.to_step@)
    } else {
        None
    }
}

/// A transition between two steps of the task.
pub open spec fn is_internal(task: TaskDiagram, e: EdgeSummary) -> bool {
    from_idx(task, e) is Some && to_idx(task, e) is Some
}

/// Lexicographic order of strings by character (which is the byte order of
/// their UTF-8 encodings).
pub open spec fn text_lt(a: Seq<char>, b: Seq<char>) -> bool
    decreases a.len(),
{
    if a.len() == 0 {
        b.len() > 0
    } else if b.len() == 0 {
        false
    } else if a[0] != b[0] {
        a[0] < b[0]
    } else {
        text_lt(a.drop_first(), b.drop_first())
    }
}

pub fn text_lt_exec(a: &[char], b: &[char]) -> (r: bool)
    ensures
        r == text_lt(a@, b@),
{
    let mut i: usize = 0;
    assert(a@.subrange(0, a@.len() as int) =~= a@);
    assert(b@.subrange(0, b@.len() as int) =~= b@);
    while i < a.len() && i < b.len() && a[i] == b[i]
        invariant
            i <= a@.len(),
            i <= b@.len(),
            text_lt(a@, b@) == text_lt(
                a@.subrange(i as int, a@.len() as int),
                b@.subrange(i as int, b@.len() as int),
            ),
        decreases a@.len() - i,
    {
        assert(a@.subrange(i as int, a@.len() as int).drop_first() =~= a@.subrange(
            i + 1,
            a@.len() as int,
        ));
        assert(b@.subrange(i as int, b@.len() as int).drop_first() =~= b@.subrange(
            i + 1,
            b@.len() as int,
        ));
        i += 1;
    }
    if i == a.len() {
        i < b.len()
    } else if i == b.len() {
        false
    } else {
        a[i] < b[i]
    }
}

/// The position a transition is sorted by among those leaving its step:
/// local first, then by target step (missing ones last), timeouts after
/// the others, then by guard, target task and target step.
pub open spec fn edge_target_rank(task: TaskDiagram, e: EdgeSummary) -> int {
    match to_idx(task, e) {
        Some(k) => k,
        None => usize::MAX as int,
    }
}

pub open spec fn edge_key_lt(task: TaskDiagram, a: EdgeSummary, b: EdgeSummary) -> bool {
    let ea = !is_local(task, a);
    let eb = !is_local(task, b);
    let ra = edge_target_rank(task, a);
    let rb = edge_target_rank(task, b);
    let ta = contains(a.guard@, "timeout"@);
    let tb = contains(b.guard@, "timeout"@);
    if ea != eb {
        !ea
    } else if ra != rb {
        ra < rb
    } else if ta != tb {
        !ta
    } else if a.guard@ != b.guard@ {
        text_lt(a.guard@, b.guard@)
    } else if a.to_task@ != b.to_task@ {
        text_lt(a.to_task@, b.to_task@)
    } else {
        text_lt(a.to_step@, b.to_step@)
    }
}

/// Inserts transition `x` into a list of transitions ordered by key, after
/// every one that does not come after it (so equal keys keep their order).
pub open spec fn insert_by_key(task: TaskDiagram, s: Seq<int>, x: int) -> Seq<int>
    decreases s.len(),
{
    if s.len() == 0 {
        seq![x]
    } else if edge_key_lt(task, task.transitions@[x], task.transitions@[s.last()]) {
        insert_by_key(task, s.drop_last(), x).push(s.last())
    } else {
        s.push(x)
    }
}

/// The transitions (by position) among the first `n` that leave step `i`,
/// stably sorted by key.
pub open spec fn outgoing_below(task: TaskDiagram, i: int, n: int) -> Seq<int>
    decreases n,
{
    if n <= 0 {
        seq![]
    } else {
        let prev = outgoing_below(task, i, n - 1);
        if from_idx(task, task.transitions@[n - 1]) == Some(i) {
            insert_by_key(task, prev, n - 1)
        } else {
            prev
        }
    }
}

/// The transitions that leave step `i`, stably sorted by key.
pub open spec fn outgoing(task: TaskDiagram, i: int) -> Seq<int> {
    outgoing_below(task, i, task.transitions@.len() as int)
}

/// What the drawing needs to know of each transition, resolved once.
pub struct EdgeFacts {
    pub from: Option<usize>,
    pub to: Option<usize>,
    pub local: bool,
    pub timeout: bool,
}

pub open spec fn edge_facts_of(task: TaskDiagram, facts: Seq<EdgeFacts>) -> bool {
    &&& facts.len() == task.transitions@.len()
    &&& forall|j: int|
        0 <= j < facts.len() ==> {
            let f = #[trigger] facts[j];
            let e = task.transitions@[j];
            &&& (match f.from {
                Some(k) => from_idx(task, e) == Some(k as int),
                None => from_idx(task, e) is None,
            })
            &&& (match f.to {
                Some(k) => to_idx(task, e) == Some(k as int),
                None => to_idx(task, e) is None,
            })
            &&& f.local == is_local(task, e)
            &&& f.timeout == contains(e.guard@, "timeout"@)
            &&& (f.from matches Some(k) ==> k < task.steps@.len())
            &&& (f.to matches Some(k) ==> k < task.steps@.len())
        }
}

pub fn resolve_edges(task: &TaskDiagram) -> (r: Vec<EdgeFacts>)
    ensures
        edge_facts_of(*task, r@),
{
    let tn = chars_of(task.task_name.as_str());
    let to = chars_of("timeout");
    let mut out: Vec<EdgeFacts> = Vec::new();
    let mut j: usize = 0;
    while j < task.transitions.len()
        invariant
            j <= task.transitions@.len(),
            out@.len() == j,
            tn@ == task.task_name@,
            to@ == "timeout"@,
            forall|k: int|
                0 <= k < j ==> {
                    let f = #[trigger] out@[k];
                    let e = task.transitions@[k];
                    &&& (match f.from {
                        Some(q) => from_idx(*task, e) == Some(q as int),
                        None => from_idx(*task, e) is None,
                    })
                    &&& (match f.to {
                        Some(q) => to_idx(*task, e) == Some(q as int),
                        None => to_idx(*task, e) is None,
                    })
                    &&& f.local == is_local(*task, e)
                    &&& f.timeout == contains(e.guard@, "timeout"@)
                    &&& (f.from matches Some(q) ==> q < task.steps@.len())
                    &&& (f.to matches Some(q) ==> q < task.steps@.len())
                },
        decreases task.transitions@.len() - j,
    {
        let e = &task.transitions[j];
        let from = find_step(task, &e.from_step);
        let tt = chars_of(e.to_task.as_str());
        let local = eq_chars(tt.as_slice(), tn.as_slice());
        let to_step = if local {
            find_step(task, &e.to_step)
        } else {
            None
        };
        let g = chars_of(e.guard.as_str());
        let timeout = contains_exec(g.as_slice(), to.as_slice());
        out.push(EdgeFacts { from, to: to_step, local, timeout });
        j += 1;
    }
    out
}

fn edge_key_lt_exec(task: &TaskDiagram, facts: &Vec<EdgeFacts>, a: usize, b: usize) -> (r: bool)
    requires
        edge_facts_of(*task, facts@),
        a < facts@.len(),
        b < facts@.len(),
    ensures
        r == edge_key_lt(*task, task.transitions@[a as int], task.transitions@[b as int]),
{
    let fa = &facts[a];
    let fb = &facts[b];
    let ea = !fa.local;
    let eb = !fb.local;
    if ea != eb {
        return !ea;
    }
    let ra: usize = match fa.to {
        Some(k) => k,
        None => usize::MAX,
    };
    let rb: usize = match fb.to {
        Some(k) => k,
        None => usize::MAX,
    };
    if ra != rb {
        return ra < rb;
    }
    if fa.timeout != fb.timeout {
        return !fa.timeout;
    }
    let ga = chars_of(task.transitions[a].guard.as_str());
    let gb = chars_of(task.transitions[b].guard.as_str());
    if !eq_chars(ga.as_slice(), gb.as_slice()) {
        return text_lt_exec(ga.as_slice(), gb.as_slice());
    }
    let ta = chars_of(task.transitions[a].to_task.as_str());
    let tb = chars_of(task.transitions[b].to_task.as_str());
    if !eq_chars(ta.as_slice(), tb.as_slice()) {
        return text_lt_exec(ta.as_slice(), tb.as_slice());
    }
    let sa = chars_of(task.transitions[a].to_step.as_str());
    let sb = chars_of(task.transitions[b].to_step.as_str());
    text_lt_exec(sa.as_slice(), sb.as_slice())
}

fn insert_by_key_exec(task: &TaskDiagram, facts: &Vec<EdgeFacts>, list: &mut Vec<usize>, x: usize)
    requires
        edge_facts_of(*task, facts@),
        x < facts@.len(),
        forall|k: int| 0 <= k < old(list)@.len() ==> old(list)@[k] < facts@.len(),
    ensures
        final(list)@.map_values(|v: usize| v as int) == insert_by_key(
            *task,
            old(list)@.map_values(|v: usize| v as int),
            x as int,
        ),
        forall|k: int| 0 <= k < final(list)@.len() ==> final(list)@[k] < facts@.len(),
{
    let ghost l0 = old(list)@.map_values(|v: usize| v as int);
    let mut p: usize = list.len();
    assert(l0.subrange(0, l0.len() as int) =~= l0);
    assert(insert_by_key(*task, l0, x as int) + l0.subrange(l0.len() as int, l0.len() as int)
        =~= insert_by_key(*task, l0, x as int));
    // elements at p.. come after x; they are moved one place up
    while p > 0 && edge_key_lt_exec(task, facts, x, list[p - 1])
        invariant
            p <= list@.len(),
            list@ == old(list)@,
            l0 == old(list)@.map_values(|v: usize| v as int),
            edge_facts_of(*task, facts@),
            x < facts@.len(),
            forall|k: int| 0 <= k < list@.len() ==> list@[k] < facts@.len(),
            insert_by_key(*task, l0, x as int) == insert_by_key(
                *task,
                l0.subrange(0, p as int),
                x as int,
            ) + l0.subrange(p as int, l0.len() as int),
        decreases p,
    {
        assert(l0.subrange(0, p as int).drop_last() =~= l0.subrange(0, p - 1));
        assert(l0.subrange(0, p as int).last() == l0[p - 1]);
        assert(insert_by_key(*task, l0.subrange(0, p as int), x as int) == insert_by_key(
            *task,
            l0.subrange(0, p - 1),
            x as int,
        ).push(l0[p - 1]));
        assert(insert_by_key(*task, l0.subrange(0, p - 1), x as int).push(l0[p - 1]) + l0.subrange(
            p as int,
            l0.len() as int,
        ) =~= insert_by_key(*task, l0.subrange(0, p - 1), x as int) + l0.subrange(
            p - 1,
            l0.len() as int,
        ));
        p -= 1;
    }
    proof {
        if p > 0 {
            assert(l0.subrange(0, p as int).last() == l0[p - 1]);
        }
        assert(insert_by_key(*task, l0.subrange(0, p as int), x as int) =~= l0.subrange(
            0,
            p as int,
        ).push(x as int));
    }
    list.insert(p, x);
    assert(list@.map_values(|v: usize| v as int) =~= l0.subrange(0, p as int).push(x as int)
        + l0.subrange(p as int, l0.len() as int));
}

/// The transitions (by position) that leave step `i`, stably sorted by key.
pub fn outgoing_exec(task: &TaskDiagram, facts: &Vec<EdgeFacts>, i: usize) -> (r: Vec<usize>)
    requires
        edge_facts_of(*task, facts@),
    ensures
        r@.map_values(|v: usize| v as int) == outgoing(*task, i as int),
        forall|k: int| 0 <= k < r@.len() ==> r@[k] < task.transitions@.len(),
{
    let mut list: Vec<usize> = Vec::new();
    let mut j: usize = 0;
    while j < facts.len()
        invariant
            j <= facts@.len(),
            edge_facts_of(*task, facts@),
            list@.map_values(|v: usize| v as int) == outgoing_below(*task, i as int, j as int),
            forall|k: int| 0 <= k < list@.len() ==> list@[k] < facts@.len(),
        decreases facts@.len() - j,
    {
        let hit = match facts[j].from {
            Some(k) => k == i,
            None => false,
        };
        assert(hit == (from_idx(*task, task.transitions@[j as int]) == Some(i as int)));
        if hit {
            insert_by_key_exec(task, facts, &mut list, j);
        }
        j += 1;
    }
    list
}

// ---------------------------------------------------------------------------
// Lanes
// ---------------------------------------------------------------------------

/// The least lane among the assigned steps that one of the first `m`
/// transitions leads from into step `idx`.
pub open spec fn pred_lane_min(
    task: TaskDiagram,
    lanes: Seq<int>,
    assigned: Seq<bool>,
    idx: int,
    m: int,
) -> Option<int>
    decreases m,
{
    if m <= 0 {
        None
    } else {
        let prev = pred_lane_min(task, lanes, assigned, idx, m - 1);
        let e = task.transitions@[m - 1];
        if to_idx(task, e) == Some(idx) && from_idx(task, e) is Some && assigned[from_idx(
            task,
            e,
        ).unwrap()] {
            let l = lanes[from_idx(task, e).unwrap()];
            match prev {
                None => Some(l),
                Some(p) => Some(if p <= l { p } else { l }),
            }
        } else {
            prev
        }
    }
}

/// Whether some transition joins step `a` to step `b` of the task.
pub open spec fn has_internal_edge(task: TaskDiagram, a: int, b: int) -> bool {
    exists|j: int|
        0 <= j < task.transitions@.len() && from_idx(task, #[trigger] task.transitions@[j]) == Some(
            a,
        ) && to_idx(task, task.transitions@[j]) == Some(b)
}

/// The later steps below `m` that step `idx` has a transition to, in
/// increasing order.
pub open spec fn forward_targets_below(task: TaskDiagram, idx: int, m: int) -> Seq<int>
    decreases m,
{
    if m <= 0 {
        seq![]
    } else {
        let prev = forward_targets_below(task, idx, m - 1);
        if m - 1 > idx && has_internal_edge(task, idx, m - 1) {
            prev.push(m - 1)
        } else {
            prev
        }
    }
}

pub open spec fn forward_targets(task: TaskDiagram, idx: int) -> Seq<int> {
    forward_targets_below(task, idx, task.steps@.len() as int)
}

/// The lanes, which steps have one, and the next new lane.
pub struct LaneState {
    pub lanes: Seq<int>,
    pub assigned: Seq<bool>,
    pub next: int,
}

/// The forward targets of `idx` take their lanes in order: the first stays
/// in `idx`'s lane, each later one opens a new lane; steps that already
/// have a lane keep it.
pub open spec fn assign_targets(st: LaneState, idx: int, targets: Seq<int>) -> LaneState
    decreases targets.len(),
{
    if targets.len() == 0 {
        st
    } else {
        let s1 = assign_targets(st, idx, targets.drop_last());
        let o = targets.len() - 1;
        let t = targets.last();
        if s1.assigned[t] {
            s1
        } else {
            LaneState {
                lanes: s1.lanes.update(t, if o == 0 { s1.lanes[idx] } else { s1.next }),
                assigned: s1.assigned.update(t, true),
                next: if o == 0 { s1.next } else { s1.next + 1 },
            }
        }
    }
}

/// Step `idx`: without a lane yet, it takes the least lane of its assigned
/// predecessors (or lane 0); then its forward targets are placed.
pub open spec fn place_step(task: TaskDiagram, st: LaneState, idx: int) -> LaneState {
    let st1 = if st.assigned[idx] {
        st
    } else {
        let l = match pred_lane_min(
            task,
            st.lanes,
            st.assigned,
            idx,
            task.transitions@.len() as int,
        ) {
            Some(m) => m,
            None => 0,
        };
        LaneState {
            lanes: st.lanes.update(idx, l),
            assigned: st.assigned.update(idx, true),
            next: st.next,
        }
    };
    assign_targets(st1, idx, forward_targets(task, idx))
}

pub open spec fn initial_lanes(n: nat) -> LaneState {
    LaneState {
        lanes: Seq::new(n, |i: int| 0int),
        assigned: Seq::new(n, |i: int| i == 0),
        next: 1,
    }
}

/// The lanes after placing the first `k` steps.
pub open spec fn lanes_after(task: TaskDiagram, k: int) -> LaneState
    decreases k,
{
    if k <= 0 {
        initial_lanes(task.steps@.len())
    } else {
        place_step(task, lanes_after(task, k - 1), k - 1)
    }
}

/// The lane of every step.
pub open spec fn step_lanes(task: TaskDiagram) -> Seq<int> {
    lanes_after(task, task.steps@.len() as int).lanes
}

pub open spec fn count_true(s: Seq<bool>) -> nat
    decreases s.len(),
{
    if s.len() == 0 {
        0
    } else {
        count_true(s.drop_last()) + if s.last() {
            1nat
        } else {
            0nat
        }
    }
}

proof fn lemma_count_true_le(s: Seq<bool>)
    ensures
        count_true(s) <= s.len(),
    decreases s.len(),
{
    if s.len() > 0 {
        lemma_count_true_le(s.drop_last());
    }
}

proof fn lemma_count_true_set(s: Seq<bool>, i: int)
    requires
        0 <= i < s.len(),
        !s[i],
    ensures
        count_true(s.update(i, true)) == count_true(s) + 1,
    decreases s.len(),
{
    if i == s.len() - 1 {
        assert(s.update(i, true).drop_last() =~= s.drop_last());
    } else {
        assert(s.update(i, true).drop_last() =~= s.drop_last().update(i, true));
        lemma_count_true_set(s.drop_last(), i);
    }
}

/// Exec lane state: lanes, assigned flags, next lane.
pub struct Lanes {
    pub lanes: Vec<usize>,
    pub assigned: Vec<bool>,
    pub next: usize,
}

pub open spec fn lanes_view(l: Lanes) -> LaneState {
    LaneState {
        lanes: l.lanes@.map_values(|v: usize| v as int),
        assigned: l.assigned@,
        next: l.next as int,
    }
}

/// Lanes of `n` steps: each below `next`, which is at most the number of
/// steps that have a lane.
pub open spec fn lanes_ok(l: Lanes, n: nat) -> bool {
    &&& l.lanes@.len() == n
    &&& l.assigned@.len() == n
    &&& 1 <= l.next
    &&& (n > 0 ==> l.next <= count_true(l.assigned@))
    &&& forall|i: int| 0 <= i < n ==> #[trigger] l.lanes@[i] < l.next
}

fn pred_lane_min_exec(
    task: &TaskDiagram,
    facts: &Vec<EdgeFacts>,
    st: &Lanes,
    idx: usize,
) -> (r: Option<usize>)
    requires
        edge_facts_of(*task, facts@),
        lanes_ok(*st, task.steps@.len()),
    ensures
        match r {
            Some(m) => pred_lane_min(
                *task,
                lanes_view(*st).lanes,
                st.assigned@,
                idx as int,
                task.transitions@.len() as int,
            ) == Some(m as int) && m < st.next,
            None => pred_lane_min(
                *task,
                lanes_view(*st).lanes,
                st.assigned@,
                idx as int,
                task.transitions@.len() as int,
            ) is None,
        },
{
    let ghost lv = lanes_view(*st).lanes;
    let mut best: Option<usize> = None;
    let mut j: usize = 0;
    while j < facts.len()
        invariant
            j <= facts@.len(),
            edge_facts_of(*task, facts@),
            lanes_ok(*st, task.steps@.len()),
            lv == lanes_view(*st).lanes,
            match best {
                Some(m) => pred_lane_min(*task, lv, st.assigned@, idx as int, j as int) == Some(
                    m as int,
                ) && m < st.next,
                None => pred_lane_min(*task, lv, st.assigned@, idx as int, j as int) is None,
            },
        decreases facts@.len() - j,
    {
        let f = &facts[j];
        let hit_to = match f.to {
            Some(t) => t == idx,
            None => false,
        };
        if hit_to {
            match f.from {
                Some(fr) => {
                    if st.assigned[fr] {
                        let l = st.lanes[fr];
                        best = match best {
                            None => Some(l),
                            Some(p) => Some(if p <= l { p } else { l }),
                        };
                    }
                },
                None => {},
            }
        }
        j += 1;
    }
    best
}

fn has_internal_edge_exec(task: &TaskDiagram, facts: &Vec<EdgeFacts>, a: usize, b: usize) -> (r:
    bool)
    requires
        edge_facts_of(*task, facts@),
    ensures
        r == has_internal_edge(*task, a as int, b as int),
{
    let mut j: usize = 0;
    while j < facts.len()
        invariant
            j <= facts@.len(),
            edge_facts_of(*task, facts@),
            forall|k: int|
                0 <= k < j ==> !(from_idx(*task, #[trigger] task.transitions@[k]) == Some(a as int)
                    && to_idx(*task, task.transitions@[k]) == Some(b as int)),
        decreases facts@.len() - j,
    {
        let f = &facts[j];
        let hf = match f.from {
            Some(x) => x == a,
            None => false,
        };
        let ht = match f.to {
            Some(x) => x == b,
            None => false,
        };
        if hf && ht {
            assert(from_idx(*task, task.transitions@[j as int]) == Some(a as int));
            return true;
        }
        j += 1;
    }
    false
}

fn forward_targets_exec(task: &TaskDiagram, facts: &Vec<EdgeFacts>, idx: usize) -> (r: Vec<usize>)
    requires
        edge_facts_of(*task, facts@),
    ensures
        r@.map_values(|v: usize| v as int) == forward_targets(*task, idx as int),
        forall|k: int| 0 <= k < r@.len() ==> idx < #[trigger] r@[k] < task.steps@.len(),
{
    let mut out: Vec<usize> = Vec::new();
    let mut t: usize = 0;
    while t < task.steps.len()
        invariant
            t <= task.steps@.len(),
            edge_facts_of(*task, facts@),
            out@.map_values(|v: usize| v as int) == forward_targets_below(*task, idx as int, t as int),
            forall|k: int| 0 <= k < out@.len() ==> idx < #[trigger] out@[k] < task.steps@.len(),
        decreases task.steps@.len() - t,
    {
        if t > idx && has_internal_edge_exec(task, facts, idx, t) {
            out.push(t);
            assert(out@.map_values(|v: usize| v as int) =~= forward_targets_below(
                *task,
                idx as int,
                t as int,
            ).push(t as int));
        }
        t += 1;
    }
    out
}

fn place_step_exec(task: &TaskDiagram, facts: &Vec<EdgeFacts>, st: &mut Lanes, idx: usize)
    requires
        edge_facts_of(*task, facts@),
        lanes_ok(*old(st), task.steps@.len()),
        idx < task.steps@.len(),
    ensures
        lanes_ok(*final(st), task.steps@.len()),
        lanes_view(*final(st)) == place_step(*task, lanes_view(*old(st)), idx as int),
{
    let n_exec = task.steps.len();
    let ghost n = task.steps@.len();
    let ghost s0 = lanes_view(*st);
    if !st.assigned[idx] {
        let l = match pred_lane_min_exec(task, facts, st, idx) {
            Some(m) => m,
            None => 0,
        };
        proof {
            lemma_count_true_set(st.assigned@, idx as int);
        }
        st.lanes.set(idx, l);
        st.assigned.set(idx, true);
        assert(lanes_view(*st).lanes =~= s0.lanes.update(idx as int, l as int));
    }
    let ghost s1 = lanes_view(*st);
    let targets = forward_targets_exec(task, facts, idx);
    let ghost tv = targets@.map_values(|v: usize| v as int);
    let mut o: usize = 0;
    while o < targets.len()
        invariant
            o <= targets@.len(),
            tv == targets@.map_values(|v: usize| v as int),
            forall|k: int| 0 <= k < targets@.len() ==> idx < #[trigger] targets@[k] < n,
            n == task.steps@.len(),
            n == n_exec,
            idx < n,
            lanes_ok(*st, n),
            st.assigned@[idx as int],
            lanes_view(*st) == assign_targets(s1, idx as int, tv.subrange(0, o as int)),
        decreases targets@.len() - o,
    {
        assert(tv.subrange(0, o + 1).drop_last() =~= tv.subrange(0, o as int));
        let t = targets[o];
        if !st.assigned[t] {
            proof {
                lemma_count_true_set(st.assigned@, t as int);
                lemma_count_true_le(st.assigned@.update(t as int, true));
            }
            let ghost before = lanes_view(*st);
            assert(st.next <= count_true(st.assigned@));
            assert(count_true(st.assigned@) + 1 <= n);
            let v = if o == 0 {
                st.lanes[idx]
            } else {
                st.next
            };
            st.lanes.set(t, v);
            st.assigned.set(t, true);
            if o != 0 {
                st.next = st.next + 1;
            }
            assert(lanes_view(*st).lanes =~= before.lanes.update(t as int, v as int));
        }
        o += 1;
    }
    assert(tv.subrange(0, tv.len() as int) =~= tv);
}

/// The lane of every step: the first step is in lane 0, a step first
/// reached from an earlier one follows it, and the further forward targets
/// of a step open new lanes.
pub fn assign_lanes(task: &TaskDiagram, facts: &Vec<EdgeFacts>) -> (r: Lanes)
    requires
        edge_facts_of(*task, facts@),
    ensures
        lanes_ok(r, task.steps@.len()),
        lanes_view(r) == lanes_after(*task, task.steps@.len() as int),
{
    let n = task.steps.len();
    let mut lanes: Vec<usize> = Vec::new();
    let mut assigned: Vec<bool> = Vec::new();
    let mut i: usize = 0;
    while i < n
        invariant
            i <= n == task.steps@.len(),
            lanes@.len() == i,
            assigned@.len() == i,
            forall|k: int| 0 <= k < i ==> #[trigger] lanes@[k] == 0,
            forall|k: int| 0 <= k < i ==> #[trigger] assigned@[k] == (k == 0),
        decreases n - i,
    {
        lanes.push(0);
        assigned.push(i == 0);
        i += 1;
    }
    let mut st = Lanes { lanes, assigned, next: 1 };
    proof {
        assert(lanes_view(st).lanes =~= initial_lanes(n as nat).lanes);
        assert(st.assigned@ =~= initial_lanes(n as nat).assigned);
        if n > 0 {
            assert(st.assigned@.drop_last() =~= Seq::new((n - 1) as nat, |k: int| k == 0));
            lemma_first_only_count(n as nat);
        }
    }
    let mut idx: usize = 0;
    while idx < n
        invariant
            idx <= n == task.steps@.len(),
            edge_facts_of(*task, facts@),
            lanes_ok(st, n as nat),
            lanes_view(st) == lanes_after(*task, idx as int),
        decreases n - idx,
    {
        place_step_exec(task, facts, &mut st, idx);
        idx += 1;
    }
    st
}

proof fn lemma_first_only_count(n: nat)
    requires
        n > 0,
    ensures
        count_true(Seq::new(n, |k: int| k == 0)) == 1,
    decreases n,
{
    let s = Seq::new(n, |k: int| k == 0);
    assert(s.last() == (n - 1 == 0));
    assert(count_true(s) == count_true(s.drop_last()) + if s.last() {
        1nat
    } else {
        0nat
    });
    if n > 1 {
        let t = Seq::new((n - 1) as nat, |k: int| k == 0);
        assert(s.drop_last() =~= t);
        lemma_first_only_count((n - 1) as nat);
        assert(count_true(t) == 1);
    } else {
        assert(s.drop_last() =~= Seq::<bool>::empty());
        assert(count_true(Seq::<bool>::empty()) == 0);
    }
}

// ---------------------------------------------------------------------------
// Line counts
// ---------------------------------------------------------------------------

proof fn lemma_wrap_scan_len(s: Seq<char>, mc: nat, ml: nat)
    requires
        ml >= 1,
    ensures
        wrap_scan(s, mc, ml).0.len() <= ml,
        !wrap_scan(s, mc, ml).2 ==> wrap_scan(s, mc, ml).0.len() < ml,
    decreases s.len(),
{
    if s.len() > 0 {
        lemma_wrap_scan_len(s.drop_last(), mc, ml);
    }
}

pub proof fn lemma_wrap_len(s: Seq<char>, mc: nat, ml: nat)
    requires
        ml >= 1,
    ensures
        1 <= spec_wrap_text_lines(s, mc, ml).len() <= ml,
{
    lemma_wrap_scan_len(s, mc, ml);
}

pub proof fn lemma_flatten_len(values: Seq<Seq<char>>, mc: nat, ml: nat)
    ensures
        flatten_scan(values, mc, ml).len() <= ml,
    decreases values.len(),
{
    if values.len() > 0 {
        lemma_flatten_len(values.drop_last(), mc, ml);
    }
}

pub proof fn lemma_fact_lines_len(facts: Seq<(Seq<char>, Seq<char>)>, keys: Seq<Seq<char>>)
    ensures
        fact_lines(facts, keys).len() <= 3 * facts.len(),
    decreases facts.len(),
{
    if facts.len() > 0 {
        lemma_fact_lines_len(facts.drop_last(), keys);
        let (kind, fact) = facts.last();
        lemma_wrap_len(kind + ": "@ + fact, 34, 3);
    }
}

// ---------------------------------------------------------------------------
// Layout
// ---------------------------------------------------------------------------

/// Where a step comes from, as its box shows it.
pub open spec fn step_source_label(s: StepSummary) -> Seq<char> {
    match (s.source, s.line) {
        (Some(src), Some(line)) => spec_short_source(src@) + ":"@ + decimal(line as nat),
        _ => if s.generated {
            "generated semantic state"@
        } else {
            "source"@
        },
    }
}

/// The note beside one transition of a step.
pub struct NoteLayout {
    pub guard: Seq<Seq<char>>,
    pub facts: Seq<Seq<char>>,
    pub target: Seq<Seq<char>>,
    pub show: bool,
    pub external: bool,
    pub terminal: bool,
    pub note_h: int,
    pub slot_h: int,
}

/// The height of a note with `g` guard, `f` fact and `t` target lines.
pub open spec fn note_height(g: int, f: int, t: int) -> int {
    if g == 0 && f == 0 && t == 0 {
        0
    } else {
        let h1 = 14 + g * 16;
        let h2 = if f > 0 {
            (if h1 > 14 {
                h1 + 6
            } else {
                h1
            }) + f * 14
        } else {
            h1
        };
        let h3 = if t > 0 {
            (if h2 > 14 {
                h2 + 6
            } else {
                h2
            }) + t * 14
        } else {
            h2
        };
        h3 + 12
    }
}

/// Whether a transition's note names its target: always for another task
/// or a step the task lacks, and for a local step unless it is simply the
/// next step in the same lane, reached by the step's only transition.
pub open spec fn shows_target(task: TaskDiagram, lanes: Seq<int>, i: int, e: EdgeSummary, multiple: bool) -> bool {
    if !is_local(task, e) {
        true
    } else {
        match step_idx(task, e.to_step@) {
            Some(t) => t <= i || t != i + 1 || lanes[t] != lanes[i] || multiple,
            None => true,
        }
    }
}

pub open spec fn edge_note(task: TaskDiagram, lanes: Seq<int>, i: int, e: EdgeSummary, multiple: bool) -> NoteLayout {
    let facts = spec_transition_fact_lines(e, lines_view(task.steps@[i].statements@));
    let guard = if e.guard@ == "always"@ {
        seq![]
    } else {
        spec_wrap_text_lines(e.guard@, 34, 3)
    };
    let target = if shows_target(task, lanes, i, e, multiple) {
        spec_wrap_text_lines("goto "@ + e.to_task@ + "."@ + e.to_step@, 34, 2)
    } else {
        seq![]
    };
    let show = guard.len() > 0 || facts.len() > 0 || target.len() > 0;
    let h = note_height(guard.len() as int, facts.len() as int, target.len() as int);
    NoteLayout {
        guard,
        facts,
        target,
        show,
        external: !is_local(task, e),
        terminal: false,
        note_h: h,
        slot_h: if show {
            h + 30
        } else {
            30
        },
    }
}

/// The note of a step that no transition leaves.
pub open spec fn end_note() -> NoteLayout {
    NoteLayout {
        guard: seq![],
        facts: seq![],
        target: seq!["END"@],
        show: true,
        external: false,
        terminal: true,
        note_h: 40,
        slot_h: 70,
    }
}

/// The notes of step `i`, one per leaving transition in drawing order.
pub open spec fn step_notes(task: TaskDiagram, lanes: Seq<int>, i: int) -> Seq<NoteLayout> {
    let out = outgoing(task, i);
    if out.len() == 0 {
        seq![end_note()]
    } else {
        out.map_values(
            |j: int| edge_note(task, lanes, i, task.transitions@[j], out.len() > 1),
        )
    }
}

pub open spec fn slots_total(notes: Seq<NoteLayout>) -> int
    decreases notes.len(),
{
    if notes.len() == 0 {
        0
    } else {
        slots_total(notes.drop_last()) + notes.last().slot_h
    }
}

/// The boxes of one step.
pub struct StepLayout {
    pub name_lines: Seq<Seq<char>>,
    pub source_lines: Seq<Seq<char>>,
    pub body_lines: Seq<Seq<char>>,
    pub notes: Seq<NoteLayout>,
    pub step_h: int,
    pub action_h: int,
    pub core_h: int,
}

pub open spec fn step_layout(task: TaskDiagram, lanes: Seq<int>, i: int) -> StepLayout {
    let s = task.steps@[i];
    let name_lines = spec_wrap_text_lines(s.step_name@, 21, 3);
    let source_lines = spec_wrap_text_lines(step_source_label(s), 34, 2);
    let body_lines = flatten_scan(spec_step_body(lines_view(s.statements@)), 34, 10);
    let step_h: int = 30 + name_lines.len() as int * 22 + source_lines.len() as int * 16 + 18;
    let action_h: int = if body_lines.len() == 0 {
        0
    } else {
        18 + body_lines.len() as int * 16 + 16
    };
    StepLayout {
        name_lines,
        source_lines,
        body_lines,
        notes: step_notes(task, lanes, i),
        step_h,
        action_h,
        core_h: if step_h >= action_h {
            step_h
        } else {
            action_h
        },
    }
}

/// The height of a step's row: its boxes, then its notes.
pub open spec fn row_h(l: StepLayout) -> int {
    l.core_h + 18 + slots_total(l.notes) + 24
}

/// The top of step `i`'s row.
pub open spec fn row_y(task: TaskDiagram, lanes: Seq<int>, i: int) -> int
    decreases i,
{
    if i <= 0 {
        72
    } else {
        row_y(task, lanes, i - 1) + row_h(step_layout(task, lanes, i - 1))
    }
}

// ---------------------------------------------------------------------------
// Computing the layout
// ---------------------------------------------------------------------------

/// The chart's width and height, for the lanes `lanes`, fit in an `i32`:
/// the coordinates are laid out in `i32`, and every one lies between the
/// leftmost loop line and these two sizes.
pub open spec fn svg_fits_with(task: TaskDiagram, lanes: Seq<int>) -> bool {
    let n = task.steps@.len() as int;
    &&& 72 + max_lane_below(lanes, n) * 560 + 220 + 28 + 280 + 56 <= 2_147_483_647
    &&& row_y(task, lanes, n) + 16 <= 2_147_483_647
}

/// The chart of `task` can be laid out in `i32` without overflow.
pub open spec fn svg_fits_i32(task: TaskDiagram) -> bool {
    svg_fits_with(task, step_lanes(task))
}

/// A note is never taller than its slot, and every slot is at least 30 high.
proof fn lemma_note_height_facts(g: int, f: int, t: int)
    requires
        0 <= g,
        0 <= f,
        0 <= t,
    ensures
        0 <= note_height(g, f, t),
        14 * f <= note_height(g, f, t),
{
}

proof fn lemma_step_notes_ok(task: TaskDiagram, lanes: Seq<int>, i: int)
    ensures
        forall|k: int|
            0 <= k < step_notes(task, lanes, i).len() ==> 0 <= (#[trigger] step_notes(task, lanes, i)[k]).note_h
                && step_notes(task, lanes, i)[k].note_h + 30 <= step_notes(task, lanes, i)[k].slot_h,
{
    let out = outgoing(task, i);
    if out.len() > 0 {
        assert forall|k: int| 0 <= k < step_notes(task, lanes, i).len() implies 0 <= (#[trigger] step_notes(task, lanes, i)[k]).note_h
            && step_notes(task, lanes, i)[k].note_h + 30 <= step_notes(task, lanes, i)[k].slot_h by {
            let e = task.transitions@[out[k]];
            let nt = edge_note(task, lanes, i, e, out.len() > 1);
            assert(step_notes(task, lanes, i)[k] == nt);
            lemma_note_height_facts(nt.guard.len() as int, nt.facts.len() as int, nt.target.len() as int);
        }
    }
}

/// Each slot is part of the total, and the total is at least 30 a slot.
proof fn lemma_slots_parts(notes: Seq<NoteLayout>)
    requires
        forall|k: int| 0 <= k < notes.len() ==> 30 <= (#[trigger] notes[k]).slot_h,
    ensures
        30 * notes.len() <= slots_total(notes),
        forall|k: int| 0 <= k < notes.len() ==> (#[trigger] notes[k]).slot_h <= slots_total(notes),
    decreases notes.len(),
{
    if notes.len() > 0 {
        let d = notes.drop_last();
        assert forall|k: int| 0 <= k < d.len() implies 30 <= (#[trigger] d[k]).slot_h by {
            assert(d[k] == notes[k]);
        }
        lemma_slots_parts(d);
        assert forall|k: int| 0 <= k < notes.len() implies (#[trigger] notes[k]).slot_h <= slots_total(notes) by {
            if k < d.len() {
                assert(d[k] == notes[k]);
            }
        }
    }
}

proof fn lemma_spec_row_h(task: TaskDiagram, lanes: Seq<int>, i: int)
    ensures
        48 <= step_layout(task, lanes, i).core_h,
        30 * step_layout(task, lanes, i).notes.len() <= slots_total(step_layout(task, lanes, i).notes),
        forall|k: int| 0 <= k < step_layout(task, lanes, i).notes.len() ==> 0 <= (#[trigger] step_layout(task, lanes, i).notes[k]).note_h
            && step_layout(task, lanes, i).notes[k].note_h + 30 <= step_layout(task, lanes, i).notes[k].slot_h
            && step_layout(task, lanes, i).notes[k].slot_h <= slots_total(step_layout(task, lanes, i).notes),
        0 <= row_h(step_layout(task, lanes, i)),
{
    lemma_step_notes_ok(task, lanes, i);
    let notes = step_layout(task, lanes, i).notes;
    assert forall|k: int| 0 <= k < notes.len() implies 30 <= (#[trigger] notes[k]).slot_h by {
        assert(notes[k] == step_notes(task, lanes, i)[k]);
    }
    lemma_slots_parts(notes);
    assert forall|k: int| 0 <= k < notes.len() implies 0 <= (#[trigger] notes[k]).note_h
            && notes[k].note_h + 30 <= notes[k].slot_h && notes[k].slot_h <= slots_total(notes) by {
        assert(notes[k] == step_notes(task, lanes, i)[k]);
    }
}

/// Rows never grow upwards: a later row starts no higher than an earlier one.
proof fn lemma_row_y_mono(task: TaskDiagram, lanes: Seq<int>, i: int, j: int)
    requires
        0 <= i <= j,
    ensures
        72 <= row_y(task, lanes, i) <= row_y(task, lanes, j),
    decreases j,
{
    if i < j {
        lemma_row_y_mono(task, lanes, i, j - 1);
        lemma_spec_row_h(task, lanes, j - 1);
    } else {
        lemma_row_y_low(task, lanes, j);
    }
}

proof fn lemma_row_y_low(task: TaskDiagram, lanes: Seq<int>, j: int)
    requires
        0 <= j,
    ensures
        72 <= row_y(task, lanes, j),
    decreases j,
{
    if j > 0 {
        lemma_row_y_low(task, lanes, j - 1);
        lemma_spec_row_h(task, lanes, j - 1);
    }
}

proof fn lemma_row_h_fits(task: TaskDiagram, lanes: Seq<int>, i: int)
    requires
        0 <= i < task.steps@.len(),
        svg_fits_with(task, lanes),
    ensures
        row_h(step_layout(task, lanes, i)) <= 2_147_483_647,
{
    lemma_row_y_mono(task, lanes, i, i);
    lemma_row_y_mono(task, lanes, i + 1, task.steps@.len() as int);
}

proof fn lemma_insert_by_key_len(task: TaskDiagram, s: Seq<int>, x: int)
    ensures
        insert_by_key(task, s, x).len() == s.len() + 1,
        forall|k: int| 0 <= k < insert_by_key(task, s, x).len() ==> (#[trigger] insert_by_key(task, s, x)[k] == x || s.contains(insert_by_key(task, s, x)[k])),
    decreases s.len(),
{
    if s.len() > 0 && edge_key_lt(task, task.transitions@[x], task.transitions@[s.last()]) {
        lemma_insert_by_key_len(task, s.drop_last(), x);
        let r = insert_by_key(task, s, x);
        let r0 = insert_by_key(task, s.drop_last(), x);
        assert forall|k: int| 0 <= k < r.len() implies (#[trigger] r[k] == x || s.contains(r[k])) by {
            if k < r0.len() {
                assert(r[k] == r0[k]);
                if r0[k] != x {
                    assert(s.drop_last().contains(r0[k]));
                    let q = choose|q: int| 0 <= q < s.drop_last().len() && s.drop_last()[q] == r0[k];
                    assert(s[q] == r0[k]);
                }
            } else {
                assert(r[k] == s.last());
                assert(s[s.len() - 1] == s.last());
            }
        }
    } else if s.len() > 0 {
        let r = insert_by_key(task, s, x);
        assert forall|k: int| 0 <= k < r.len() implies (#[trigger] r[k] == x || s.contains(r[k])) by {
            if k < s.len() {
                assert(r[k] == s[k]);
            }
        }
    }
}

/// The transitions leaving a step are transitions of the task, at most as
/// many as the task has.
proof fn lemma_outgoing_below(task: TaskDiagram, i: int, m: int)
    requires
        0 <= m <= task.transitions@.len(),
    ensures
        outgoing_below(task, i, m).len() <= m,
        forall|k: int| 0 <= k < outgoing_below(task, i, m).len() ==> 0 <= #[trigger] outgoing_below(task, i, m)[k] < m,
    decreases m,
{
    if m > 0 {
        lemma_outgoing_below(task, i, m - 1);
        let prev = outgoing_below(task, i, m - 1);
        if from_idx(task, task.transitions@[m - 1]) == Some(i) {
            lemma_insert_by_key_len(task, prev, m - 1);
            let r = insert_by_key(task, prev, m - 1);
            assert forall|k: int| 0 <= k < r.len() implies 0 <= #[trigger] r[k] < m by {
                if r[k] != m - 1 {
                    let q = choose|q: int| 0 <= q < prev.len() && prev[q] == r[k];
                }
            }
        }
    }
}

pub struct NoteExec {
    pub guard_lines: Vec<String>,
    pub fact_lines: Vec<String>,
    pub target_lines: Vec<String>,
    pub show_note: bool,
    pub external: bool,
    pub terminal: bool,
    pub note_h: i64,
    pub slot_h: i64,
}

pub open spec fn note_view(n: NoteExec) -> NoteLayout {
    NoteLayout {
        guard: lines_view(n.guard_lines@),
        facts: lines_view(n.fact_lines@),
        target: lines_view(n.target_lines@),
        show: n.show_note,
        external: n.external,
        terminal: n.terminal,
        note_h: n.note_h as int,
        slot_h: n.slot_h as int,
    }
}

pub open spec fn note_bounded(n: NoteLayout) -> bool {
    &&& n.guard.len() <= 3
    &&& n.target.len() <= 2
    &&& n.facts.len() <= 200_000_000
    &&& 0 <= n.note_h <= 2_147_483_647
    &&& 30 <= n.slot_h <= 2_147_483_677
}

fn note_height_exec(g: usize, f: usize, t: usize) -> (r: i64)
    requires
        g <= 3,
        f <= 200_000_000,
        t <= 2,
    ensures
        r as int == note_height(g as int, f as int, t as int),
{
    if g == 0 && f == 0 && t == 0 {
        return 0;
    }
    let mut h: i64 = 14 + (g as i64) * 16;
    if f > 0 {
        if h > 14 {
            h = h + 6;
        }
        h = h + (f as i64) * 14;
    }
    if t > 0 {
        if h > 14 {
            h = h + 6;
        }
        h = h + (t as i64) * 14;
    }
    h + 12
}

fn copy_lines(v: &Vec<String>) -> (r: Vec<String>)
    ensures
        lines_view(r@) == lines_view(v@),
{
    let mut out: Vec<String> = Vec::new();
    let mut i: usize = 0;
    while i < v.len()
        invariant
            i <= v@.len(),
            out@.len() == i,
            forall|k: int| 0 <= k < i ==> (#[trigger] out@[k])@ == v@[k]@,
        decreases v@.len() - i,
    {
        out.push(owned(v[i].as_str()));
        i += 1;
    }
    assert(lines_view(out@) =~= lines_view(v@));
    out
}

fn compute_note(
    task: &TaskDiagram,
    facts: &Vec<EdgeFacts>,
    lanes: &Lanes,
    i: usize,
    j: usize,
    multiple: bool,
) -> (r: NoteExec)
    requires
        edge_facts_of(*task, facts@),
        edge_note(
            *task,
            lanes_view(*lanes).lanes,
            i as int,
            task.transitions@[j as int],
            multiple,
        ).note_h <= 2_147_483_647,
        lanes_ok(*lanes, task.steps@.len()),
        i < task.steps@.len(),
        j < task.transitions@.len(),
    ensures
        note_view(r) == edge_note(
            *task,
            lanes_view(*lanes).lanes,
            i as int,
            task.transitions@[j as int],
            multiple,
        ),
        note_bounded(note_view(r)),
{
    let e = &task.transitions[j];
    let fl = transition_fact_lines(e, &task.steps[i].statements);
    let gv = chars_of(e.guard.as_str());
    let al = chars_of("always");
    let guard = if eq_chars(gv.as_slice(), al.as_slice()) {
        Vec::new()
    } else {
        proof {
            lemma_wrap_len(e.guard@, 34, 3);
        }
        wrap_text_lines(e.guard.as_str(), 34, 3)
    };
    let f = &facts[j];
    let show_target = if !f.local {
        true
    } else {
        match f.to {
            Some(t) => t <= i || t != i + 1 || lanes.lanes[t] != lanes.lanes[i] || multiple,
            None => true,
        }
    };
    assert(show_target == shows_target(
        *task,
        lanes_view(*lanes).lanes,
        i as int,
        task.transitions@[j as int],
        multiple,
    ));
    let target = if show_target {
        let mut g = owned("goto ");
        push_str(&mut g, e.to_task.as_str());
        push_str(&mut g, ".");
        push_str(&mut g, e.to_step.as_str());
        proof {
            lemma_wrap_len(g@, 34, 2);
        }
        wrap_text_lines(g.as_str(), 34, 2)
    } else {
        Vec::new()
    };
    let show = guard.len() > 0 || fl.len() > 0 || target.len() > 0;
    proof {
        let sn = edge_note(*task, lanes_view(*lanes).lanes, i as int, task.transitions@[j as int], multiple);
        assert(lines_view(guard@) =~= sn.guard);
        assert(lines_view(target@) =~= sn.target);
        assert(lines_view(fl@) =~= sn.facts);
        lemma_note_height_facts(guard@.len() as int, fl@.len() as int, target@.len() as int);
    }
    let h = note_height_exec(guard.len(), fl.len(), target.len());
    let r = NoteExec {
        guard_lines: guard,
        fact_lines: fl,
        target_lines: target,
        show_note: show,
        external: !f.local,
        terminal: false,
        note_h: h,
        slot_h: if show {
            h + 30
        } else {
            30
        },
    };
    assert(note_view(r).guard =~= edge_note(
        *task,
        lanes_view(*lanes).lanes,
        i as int,
        task.transitions@[j as int],
        multiple,
    ).guard);
    assert(note_view(r).target =~= edge_note(
        *task,
        lanes_view(*lanes).lanes,
        i as int,
        task.transitions@[j as int],
        multiple,
    ).target);
    r
}

fn end_note_exec() -> (r: NoteExec)
    ensures
        note_view(r) == end_note(),
        note_bounded(note_view(r)),
{
    let mut t: Vec<String> = Vec::new();
    t.push(owned("END"));
    let r = NoteExec {
        guard_lines: Vec::new(),
        fact_lines: Vec::new(),
        target_lines: t,
        show_note: true,
        external: false,
        terminal: true,
        note_h: 40,
        slot_h: 70,
    };
    assert(note_view(r).guard =~= seq![]);
    assert(note_view(r).facts =~= seq![]);
    assert(note_view(r).target =~= seq!["END"@]);
    r
}

pub struct StepExec {
    pub name_lines: Vec<String>,
    pub source_lines: Vec<String>,
    pub body_lines: Vec<String>,
    pub notes: Vec<NoteExec>,
    pub step_h: i64,
    pub action_h: i64,
    pub core_h: i64,
}

pub open spec fn step_view(s: StepExec) -> StepLayout {
    StepLayout {
        name_lines: lines_view(s.name_lines@),
        source_lines: lines_view(s.source_lines@),
        body_lines: lines_view(s.body_lines@),
        notes: s.notes@.map_values(|n: NoteExec| note_view(n)),
        step_h: s.step_h as int,
        action_h: s.action_h as int,
        core_h: s.core_h as int,
    }
}

pub open spec fn step_bounded(l: StepLayout) -> bool {
    &&& 1 <= l.name_lines.len() <= 3
    &&& l.source_lines.len() <= 2
    &&& l.body_lines.len() <= 10
    &&& 1 <= l.notes.len() <= 100_000_000
    &&& forall|k: int| 0 <= k < l.notes.len() ==> note_bounded(#[trigger] l.notes[k])
    &&& row_h(l) <= 2_147_483_647
    &&& 0 <= l.step_h <= 146
    &&& 0 <= l.action_h <= 194
    &&& 0 <= l.core_h <= 194
}

fn source_label_exec(s: &StepSummary) -> (r: String)
    ensures
        r@ == step_source_label(*s),
{
    match (&s.source, s.line) {
        (Some(src), Some(line)) => {
            let mut out = short_source(src.as_str());
            push_str(&mut out, ":");
            let d = format_usize(line);
            push_str(&mut out, d.as_str());
            out
        },
        _ => if s.generated {
            owned("generated semantic state")
        } else {
            owned("source")
        },
    }
}

fn compute_step(task: &TaskDiagram, facts: &Vec<EdgeFacts>, lanes: &Lanes, i: usize) -> (r: StepExec)
    requires
        edge_facts_of(*task, facts@),
        row_h(step_layout(*task, lanes_view(*lanes).lanes, i as int)) <= 2_147_483_647,
        lanes_ok(*lanes, task.steps@.len()),
        i < task.steps@.len(),
    ensures
        step_view(r) == step_layout(*task, lanes_view(*lanes).lanes, i as int),
        step_bounded(step_view(r)),
{
    let step = &task.steps[i];
    let name_lines = wrap_text_lines(step.step_name.as_str(), 21, 3);
    let src = source_label_exec(step);
    let source_lines = wrap_text_lines(src.as_str(), 34, 2);
    let body = step_body_lines(&step.statements);
    let body_lines = flatten_statement_lines(&body, 34, 10);
    proof {
        lemma_wrap_len(step.step_name@, 21, 3);
        lemma_wrap_len(src@, 34, 2);
        lemma_flatten_len(lines_view(body@), 34, 10);
    }
    let step_h: i64 = 30 + (name_lines.len() as i64) * 22 + (source_lines.len() as i64) * 16 + 18;
    let action_h: i64 = if body_lines.len() == 0 {
        0
    } else {
        18 + (body_lines.len() as i64) * 16 + 16
    };
    let core_h: i64 = if step_h >= action_h {
        step_h
    } else {
        action_h
    };
    let out = outgoing_exec(task, facts, i);
    let ghost ov = out@.map_values(|v: usize| v as int);
    proof {
        lemma_outgoing_below(*task, i as int, task.transitions@.len() as int);
    }
    let mut notes: Vec<NoteExec> = Vec::new();
    if out.len() == 0 {
        notes.push(end_note_exec());
        assert(notes@.map_values(|n: NoteExec| note_view(n)) =~= seq![end_note()]);
    } else {
        let multiple = out.len() > 1;
        let mut p: usize = 0;
        while p < out.len()
            invariant
                p <= out@.len(),
                ov == out@.map_values(|v: usize| v as int),
                ov == outgoing(*task, i as int),
                multiple == (out@.len() > 1),
                edge_facts_of(*task, facts@),
                row_h(step_layout(*task, lanes_view(*lanes).lanes, i as int)) <= 2_147_483_647,
                lanes_ok(*lanes, task.steps@.len()),
                i < task.steps@.len(),
                forall|k: int| 0 <= k < out@.len() ==> out@[k] < task.transitions@.len(),
                notes@.len() == p,
                forall|k: int|
                    0 <= k < p ==> note_view(#[trigger] notes@[k]) == edge_note(
                        *task,
                        lanes_view(*lanes).lanes,
                        i as int,
                        task.transitions@[ov[k]],
                        multiple,
                    ),
                forall|k: int| 0 <= k < p ==> note_bounded(note_view(#[trigger] notes@[k])),
            decreases out@.len() - p,
        {
            proof {
                lemma_spec_row_h(*task, lanes_view(*lanes).lanes, i as int);
                let sl = step_layout(*task, lanes_view(*lanes).lanes, i as int);
                assert(sl.notes[p as int] == edge_note(
                    *task,
                    lanes_view(*lanes).lanes,
                    i as int,
                    task.transitions@[ov[p as int]],
                    multiple,
                ));
            }
            let n = compute_note(task, facts, lanes, i, out[p], multiple);
            notes.push(n);
            p += 1;
        }
        assert(notes@.map_values(|n: NoteExec| note_view(n)) =~= ov.map_values(
            |j: int| edge_note(*task, lanes_view(*lanes).lanes, i as int, task.transitions@[j], ov.len() > 1),
        ));
    }
    let r = StepExec { name_lines, source_lines, body_lines, notes, step_h, action_h, core_h };
    proof {
        lemma_spec_row_h(*task, lanes_view(*lanes).lanes, i as int);
    }
    r
}

// ---------------------------------------------------------------------------
// The drawing
// ---------------------------------------------------------------------------

/// A connector line.
pub open spec fn svg_seg(class: Seq<char>, x1: int, y1: int, x2: int, y2: int) -> Seq<char> {
    "<line class=\""@ + class + "\" x1=\""@ + int_decimal(x1) + "\" y1=\""@ + int_decimal(y1)
        + "\" x2=\""@ + int_decimal(x2) + "\" y2=\""@ + int_decimal(y2) + "\"/>\n"@
}

/// A rounded box.
pub open spec fn svg_box(class: Seq<char>, x: int, y: int, w: int, h: int) -> Seq<char> {
    "<rect class=\""@ + class + "\" x=\""@ + int_decimal(x) + "\" y=\""@ + int_decimal(y)
        + "\" width=\""@ + int_decimal(w) + "\" height=\""@ + int_decimal(h) + "\" rx=\"10\"/>\n"@
}

/// The number beside a step.
pub open spec fn svg_index(x: int, y: int, n: nat) -> Seq<char> {
    "<text class=\"task-step-index\" x=\""@ + int_decimal(x) + "\" y=\""@ + int_decimal(y)
        + "\">"@ + decimal(n) + "</text>\n"@
}

pub open spec fn lane_cx(l: int) -> int {
    72 + l * 560 + 110
}

pub open spec fn step_x(l: int) -> int {
    72 + l * 560
}

/// How many transitions of the task enter step `idx` from one of its steps
/// (among the first `m`).
pub open spec fn incoming_below(task: TaskDiagram, idx: int, m: int) -> nat
    decreases m,
{
    if m <= 0 {
        0
    } else {
        incoming_below(task, idx, m - 1) + if from_idx(task, task.transitions@[m - 1]) is Some
            && to_idx(task, task.transitions@[m - 1]) == Some(idx) {
            1nat
        } else {
            0nat
        }
    }
}

pub open spec fn incoming(task: TaskDiagram, idx: int) -> nat {
    incoming_below(task, idx, task.transitions@.len() as int)
}

/// The room above a step for the lines that enter it.
pub open spec fn entry_gap(task: TaskDiagram, idx: int) -> int {
    if incoming(task, idx) > 1 {
        54
    } else if incoming(task, idx) == 1 {
        22
    } else {
        0
    }
}

/// The line into a step that others enter, with a bar when several do.
pub open spec fn entry_conn(task: TaskDiagram, lanes: Seq<int>, idx: int) -> Seq<char> {
    if incoming(task, idx) == 0 {
        seq![]
    } else {
        let cx = lane_cx(lanes[idx]);
        let y = row_y(task, lanes, idx);
        let ey = y - entry_gap(task, idx);
        svg_seg("task-main-line"@, cx, ey, cx, y) + if incoming(task, idx) > 1 {
            svg_seg("task-transition-branch-bar"@, cx - 24, ey, cx + 24, ey)
        } else {
            seq![]
        }
    }
}

pub open spec fn entry_conns(task: TaskDiagram, lanes: Seq<int>, m: int) -> Seq<char>
    decreases m,
{
    if m <= 0 {
        seq![]
    } else {
        entry_conns(task, lanes, m - 1) + entry_conn(task, lanes, m - 1)
    }
}

/// The height of the notes before the `p`-th one.
pub open spec fn slots_before(notes: Seq<NoteLayout>, p: int) -> int {
    slots_total(notes.subrange(0, p))
}

/// The lines of the `p`-th transition leaving step `idx`: its bar, then the
/// route to its target (down to a later step, round a loop back to an
/// earlier one), or a link to its note when it leaves the task.
pub open spec fn edge_conn(task: TaskDiagram, lanes: Seq<int>, idx: int, p: int) -> Seq<char> {
    let lay = step_layout(task, lanes, idx);
    let y = row_y(task, lanes, idx);
    let scx = lane_cx(lanes[idx]);
    let by = y + lay.core_h + 18 + slots_before(lay.notes, p) + 12;
    let note_left = step_x(lanes[idx]) + 248;
    let e = task.transitions@[outgoing(task, idx)[p]];
    let bar = svg_seg("task-transition-bar"@, scx - 38, by, scx + 38, by);
    bar + if is_local(task, e) {
        match to_idx(task, e) {
            Some(t) => {
                let tcx = lane_cx(lanes[t]);
                let tey = row_y(task, lanes, t) - entry_gap(task, t);
                if t > idx {
                    (if tcx != scx {
                        svg_seg(
                            "task-transition-branch-bus"@,
                            if scx <= tcx {
                                scx
                            } else {
                                tcx
                            },
                            by,
                            if scx >= tcx {
                                scx
                            } else {
                                tcx
                            },
                            by,
                        )
                    } else {
                        seq![]
                    }) + if by != tey {
                        svg_seg("task-main-line"@, tcx, by, tcx, tey)
                    } else {
                        seq![]
                    }
                } else {
                    let lx = 72 - 42 - lanes[idx] * 24 - p * 12;
                    svg_seg("task-transition-branch-bus"@, lx, by, scx, by) + svg_seg(
                        "task-main-line"@,
                        lx,
                        tey,
                        lx,
                        by,
                    ) + svg_seg("task-transition-branch-bus"@, lx, tey, tcx, tey)
                }
            },
            None => seq![],
        }
    } else if lay.notes[p].show {
        svg_seg("task-transition-link"@, scx + 40, by, note_left - 12, by)
    } else {
        seq![]
    }
}

pub open spec fn edge_conns(task: TaskDiagram, lanes: Seq<int>, idx: int, q: int) -> Seq<char>
    decreases q,
{
    if q <= 0 {
        seq![]
    } else {
        edge_conns(task, lanes, idx, q - 1) + edge_conn(task, lanes, idx, q - 1)
    }
}

/// The lines leaving step `idx`: its trunk down to the last bar, then each
/// transition's lines.
pub open spec fn exit_conn(task: TaskDiagram, lanes: Seq<int>, idx: int) -> Seq<char> {
    let n_out = outgoing(task, idx).len();
    if n_out == 0 {
        seq![]
    } else {
        let lay = step_layout(task, lanes, idx);
        let y = row_y(task, lanes, idx);
        let scx = lane_cx(lanes[idx]);
        let last_y = y + lay.core_h + 18 + slots_total(lay.notes) - lay.notes.last().slot_h + 12;
        svg_seg("task-main-line"@, scx, y + lay.step_h, scx, last_y) + edge_conns(
            task,
            lanes,
            idx,
            n_out as int,
        )
    }
}

pub open spec fn exit_conns(task: TaskDiagram, lanes: Seq<int>, m: int) -> Seq<char>
    decreases m,
{
    if m <= 0 {
        seq![]
    } else {
        exit_conns(task, lanes, m - 1) + exit_conn(task, lanes, m - 1)
    }
}

pub open spec fn note_class(n: NoteLayout) -> Seq<char> {
    if n.external {
        "task-transition-note external"@
    } else if n.terminal {
        "task-transition-note terminal"@
    } else {
        "task-transition-note"@
    }
}

pub open spec fn target_class(n: NoteLayout) -> Seq<char> {
    if n.external {
        "task-transition-target external"@
    } else if n.terminal {
        "task-transition-target terminal"@
    } else {
        "task-transition-target"@
    }
}

/// A transition note whose slot starts at `cursor`: its box, then its
/// guard, fact and target lines.
pub open spec fn note_content(n: NoteLayout, ax: int, cursor: int) -> Seq<char> {
    if !n.show {
        seq![]
    } else {
        let top = cursor + 20;
        let y1 = top + 18;
        let y2 = if n.guard.len() > 0 {
            y1 + n.guard.len() * 16 + 6
        } else {
            y1
        };
        let y3 = if n.facts.len() > 0 {
            y2 + n.facts.len() * 14 + 6
        } else {
            y2
        };
        svg_box(note_class(n), ax, top, 280, n.note_h) + (if n.guard.len() > 0 {
            svg_lines(ax + 16, y1, n.guard, "task-transition-guard"@, 16, "start"@)
        } else {
            seq![]
        }) + (if n.facts.len() > 0 {
            svg_lines(ax + 16, y2, n.facts, "task-transition-fact"@, 14, "start"@)
        } else {
            seq![]
        }) + svg_lines(ax + 16, y3, n.target, target_class(n), 14, "start"@)
    }
}

pub open spec fn notes_content(notes: Seq<NoteLayout>, ax: int, base: int, q: int) -> Seq<char>
    decreases q,
{
    if q <= 0 {
        seq![]
    } else {
        notes_content(notes, ax, base, q - 1) + note_content(
            notes[q - 1],
            ax,
            base + slots_before(notes, q - 1),
        )
    }
}

/// The boxes and texts of step `idx`, before its notes.
pub open spec fn step_head(task: TaskDiagram, lanes: Seq<int>, idx: int) -> Seq<char> {
    let lay = step_layout(task, lanes, idx);
    let sx = step_x(lanes[idx]);
    let sy = row_y(task, lanes, idx);
    let ax = sx + 248;
    let ay = sy + (lay.core_h - lay.action_h) / 2;
    let scy = sy + lay.step_h / 2 + 4;
    let nl = lay.name_lines.len() as int;
    (if idx == 0 {
        svg_box("task-step-initial"@, sx - 8, sy - 8, 236, lay.step_h + 16)
    } else {
        seq![]
    }) + svg_box(
        if task.steps@[idx].generated {
            "task-step generated"@
        } else {
            "task-step"@
        },
        sx,
        sy,
        220,
        lay.step_h,
    ) + svg_index(sx - 48, scy, (idx + 1) as nat) + svg_lines(
        sx + 16,
        sy + 28,
        lay.name_lines,
        "task-step-title"@,
        20,
        "start"@,
    ) + svg_lines(
        sx + 16,
        sy + 56 + (if nl - 1 >= 0 {
            nl - 1
        } else {
            0
        }) * 20,
        lay.source_lines,
        "task-step-source"@,
        15,
        "start"@,
    ) + (if lay.action_h > 0 {
        svg_seg("task-action-link"@, sx + 220, sy + lay.step_h / 2, ax, ay + lay.action_h / 2)
            + svg_box("task-action"@, ax, ay, 280, lay.action_h) + svg_lines(
            ax + 16,
            ay + 28,
            lay.body_lines,
            "task-action-line"@,
            16,
            "start"@,
        )
    } else {
        seq![]
    })
}

/// The boxes and texts of step `idx`, then its notes.
pub open spec fn step_content(task: TaskDiagram, lanes: Seq<int>, idx: int) -> Seq<char> {
    let lay = step_layout(task, lanes, idx);
    let sx = step_x(lanes[idx]);
    let sy = row_y(task, lanes, idx);
    step_head(task, lanes, idx) + notes_content(lay.notes, sx + 248, sy + lay.core_h + 18, lay.notes.len() as int)
}

pub open spec fn steps_content(task: TaskDiagram, lanes: Seq<int>, m: int) -> Seq<char>
    decreases m,
{
    if m <= 0 {
        seq![]
    } else {
        steps_content(task, lanes, m - 1) + step_content(task, lanes, m - 1)
    }
}

pub open spec fn max_lane_below(lanes: Seq<int>, m: int) -> int
    decreases m,
{
    if m <= 0 {
        0
    } else {
        let prev = max_lane_below(lanes, m - 1);
        if lanes[m - 1] > prev {
            lanes[m - 1]
        } else {
            prev
        }
    }
}

/// The SFC chart of a task.
pub open spec fn spec_render_task_svg(task: TaskDiagram) -> Seq<char> {
    let lanes = step_lanes(task);
    let n = task.steps@.len() as int;
    let chart_w = 72 + max_lane_below(lanes, n) * 560 + 220 + 28 + 280;
    let width = chart_w + 56;
    let height = row_y(task, lanes, n) + 16;
    "<div class=\"sfc-review\"><svg class=\"task-sfc-svg\" viewBox=\"0 0 "@ + int_decimal(width)
        + " "@ + int_decimal(height) + "\" role=\"img\" aria-label=\""@ + spec_html_escape(
        task.task_name@,
    ) + " SFC chart\" xmlns=\"http://www.w3.org/2000/svg\">"@ + entry_conns(task, lanes, n)
        + exit_conns(task, lanes, n) + steps_content(task, lanes, n) + "</svg></div>"@
}

// ---------------------------------------------------------------------------
// Drawing: sizes
// ---------------------------------------------------------------------------

/// The largest row a bounded step can have.
pub open spec fn max_row() -> int {
    2_147_483_647
}

pub open spec fn small(v: int) -> bool {
    -0x4_0000_0000_0000 <= v <= 0x4_0000_0000_0000
}

proof fn lemma_slots_bounds(notes: Seq<NoteLayout>)
    requires
        forall|k: int| 0 <= k < notes.len() ==> note_bounded(#[trigger] notes[k]),
    ensures
        30 * notes.len() <= slots_total(notes),
    decreases notes.len(),
{
    if notes.len() > 0 {
        assert forall|k: int| 0 <= k < notes.drop_last().len() implies note_bounded(#[trigger] notes.drop_last()[k]) by {
            assert(notes.drop_last()[k] == notes[k]);
        }
        lemma_slots_bounds(notes.drop_last());
        assert(note_bounded(notes[notes.len() - 1]));
    }
}

proof fn lemma_slots_before(notes: Seq<NoteLayout>, p: int)
    requires
        0 <= p <= notes.len(),
        forall|k: int| 0 <= k < notes.len() ==> note_bounded(#[trigger] notes[k]),
    ensures
        30 * p <= slots_before(notes, p) <= slots_total(notes),
        p < notes.len() ==> slots_before(notes, p + 1) == slots_before(notes, p) + notes[p].slot_h,
    decreases notes.len() - p,
{
    assert forall|k: int| 0 <= k < notes.subrange(0, p).len() implies note_bounded(#[trigger] notes.subrange(0, p)[k]) by {
        assert(notes.subrange(0, p)[k] == notes[k]);
    }
    lemma_slots_bounds(notes.subrange(0, p));
    if p < notes.len() {
        assert(notes.subrange(0, p + 1).drop_last() =~= notes.subrange(0, p));
        lemma_slots_before(notes, p + 1);
        assert(note_bounded(notes[p]));
    } else {
        assert(notes.subrange(0, p) =~= notes);
    }
}

pub open spec fn all_steps_bounded(task: TaskDiagram, lanes: Seq<int>) -> bool {
    forall|j: int| 0 <= j < task.steps@.len() ==> step_bounded(#[trigger] step_layout(task, lanes, j))
}

proof fn lemma_row_h_bounds(l: StepLayout)
    requires
        step_bounded(l),
    ensures
        0 <= row_h(l) <= max_row(),
        l.core_h + 18 + slots_total(l.notes) - l.notes.last().slot_h + 12 >= l.core_h + 18,
{
    lemma_slots_bounds(l.notes);
    lemma_slots_before(l.notes, l.notes.len() - 1);
    assert(l.notes.subrange(0, l.notes.len() as int) =~= l.notes);
}

proof fn lemma_row_y_bounds(task: TaskDiagram, lanes: Seq<int>, i: int)
    requires
        0 <= i <= task.steps@.len(),
        all_steps_bounded(task, lanes),
    ensures
        72 <= row_y(task, lanes, i) <= 72 + i * max_row(),
    decreases i,
{
    if i > 0 {
        lemma_row_y_bounds(task, lanes, i - 1);
        assert(step_bounded(step_layout(task, lanes, i - 1)));
        lemma_row_h_bounds(step_layout(task, lanes, i - 1));
    }
}

proof fn lemma_row_y_small(task: TaskDiagram, lanes: Seq<int>, i: int)
    requires
        0 <= i <= task.steps@.len(),
        svg_fits_with(task, lanes),
    ensures
        72 <= row_y(task, lanes, i) <= 4_300_000_000_000,
{
    lemma_row_y_mono(task, lanes, i, task.steps@.len() as int);
}

// ---------------------------------------------------------------------------
// Drawing: elements
// ---------------------------------------------------------------------------

fn seg_string(class: &str, x1: i64, y1: i64, x2: i64, y2: i64) -> (r: String)
    ensures
        r@ == svg_seg(class@, x1 as int, y1 as int, x2 as int, y2 as int),
{
    let a = format_i64(x1);
    let b = format_i64(y1);
    let c = format_i64(x2);
    let d = format_i64(y2);
    let mut out = owned("<line class=\"");
    push_str(&mut out, class);
    push_str(&mut out, "\" x1=\"");
    push_str(&mut out, a.as_str());
    push_str(&mut out, "\" y1=\"");
    push_str(&mut out, b.as_str());
    push_str(&mut out, "\" x2=\"");
    push_str(&mut out, c.as_str());
    push_str(&mut out, "\" y2=\"");
    push_str(&mut out, d.as_str());
    push_str(&mut out, "\"/>\n");
    out
}

fn box_string(class: &str, x: i64, y: i64, w: i64, h: i64) -> (r: String)
    ensures
        r@ == svg_box(class@, x as int, y as int, w as int, h as int),
{
    let a = format_i64(x);
    let b = format_i64(y);
    let c = format_i64(w);
    let d = format_i64(h);
    let mut out = owned("<rect class=\"");
    push_str(&mut out, class);
    push_str(&mut out, "\" x=\"");
    push_str(&mut out, a.as_str());
    push_str(&mut out, "\" y=\"");
    push_str(&mut out, b.as_str());
    push_str(&mut out, "\" width=\"");
    push_str(&mut out, c.as_str());
    push_str(&mut out, "\" height=\"");
    push_str(&mut out, d.as_str());
    push_str(&mut out, "\" rx=\"10\"/>\n");
    out
}

fn index_string(x: i64, y: i64, n: usize) -> (r: String)
    ensures
        r@ == svg_index(x as int, y as int, n as nat),
{
    let a = format_i64(x);
    let b = format_i64(y);
    let c = format_usize(n);
    let mut out = owned("<text class=\"task-step-index\" x=\"");
    push_str(&mut out, a.as_str());
    push_str(&mut out, "\" y=\"");
    push_str(&mut out, b.as_str());
    push_str(&mut out, "\">");
    push_str(&mut out, c.as_str());
    push_str(&mut out, "</text>\n");
    out
}

fn text_line_string(x: i64, y: i64, line: &str, class_name: &str, anchor: &str) -> (r: String)
    ensures
        r@ == crate::flowchart_render::svg_line(x as int, y as int, line@, class_name@, anchor@),
{
    let xs = format_i64(x);
    let ys = format_i64(y);
    let e = html_escape(line);
    let mut out = owned("<text class=\"");
    push_str(&mut out, class_name);
    push_str(&mut out, "\" text-anchor=\"");
    push_str(&mut out, anchor);
    push_str(&mut out, "\" x=\"");
    push_str(&mut out, xs.as_str());
    push_str(&mut out, "\" y=\"");
    push_str(&mut out, ys.as_str());
    push_str(&mut out, "\">");
    push_str(&mut out, e.as_str());
    push_str(&mut out, "</text>\n");
    out
}

fn lines_string(x: i64, y: i64, lines: &Vec<String>, class_name: &str, line_height: i64, anchor: &str) -> (r: String)
    requires
        0 <= line_height <= 100,
        lines@.len() <= 200_000_000,
        small(y as int),
    ensures
        r@ == svg_lines(x as int, y as int, lines_view(lines@), class_name@, line_height as int, anchor@),
{
    let ghost lv = lines_view(lines@);
    let mut acc = String::new();
    let mut idx: usize = 0;
    while idx < lines.len()
        invariant
            idx <= lines@.len() <= 200_000_000,
            lv == lines_view(lines@),
            0 <= line_height <= 100,
            small(y as int),
            acc@ == svg_lines(x as int, y as int, lv.subrange(0, idx as int), class_name@, line_height as int, anchor@),
        decreases lines@.len() - idx,
    {
        assert(lv.subrange(0, idx + 1).drop_last() =~= lv.subrange(0, idx as int));
        assert(idx * line_height <= 200_000_000 * 100) by (nonlinear_arith)
            requires
                idx <= 200_000_000,
                0 <= line_height <= 100,
        ;
        let yy: i64 = y + (idx as i64) * line_height;
        let piece = text_line_string(x, yy, lines[idx].as_str(), class_name, anchor);
        push_str(&mut acc, piece.as_str());
        idx += 1;
    }
    assert(lv.subrange(0, lv.len() as int) =~= lv);
    acc
}

// ---------------------------------------------------------------------------
// Drawing: rows, counts and connectors
// ---------------------------------------------------------------------------

fn slots_total_exec(notes: &Vec<NoteExec>) -> (r: i64)
    requires
        forall|k: int| 0 <= k < notes@.len() ==> note_bounded(note_view(#[trigger] notes@[k])),
        slots_total(notes@.map_values(|n: NoteExec| note_view(n))) <= 2_147_483_647,
    ensures
        r as int == slots_total(notes@.map_values(|n: NoteExec| note_view(n))),
        0 <= r <= 2_147_483_647,
{
    let ghost nv = notes@.map_values(|n: NoteExec| note_view(n));
    let mut sum: i64 = 0;
    let mut k: usize = 0;
    while k < notes.len()
        invariant
            k <= notes@.len(),
            nv == notes@.map_values(|n: NoteExec| note_view(n)),
            forall|q: int| 0 <= q < notes@.len() ==> note_bounded(note_view(#[trigger] notes@[q])),
            slots_total(nv) <= 2_147_483_647,
            sum as int == slots_total(nv.subrange(0, k as int)),
            0 <= sum,
        decreases notes@.len() - k,
    {
        assert(nv.subrange(0, k + 1).drop_last() =~= nv.subrange(0, k as int));
        assert(note_bounded(note_view(notes@[k as int])));
        proof {
            assert forall|q: int| 0 <= q < nv.len() implies note_bounded(#[trigger] nv[q]) by {
                assert(note_bounded(note_view(notes@[q])));
            }
            lemma_slots_before(nv, k as int + 1);
        }
        sum = sum + notes[k].slot_h;
        k += 1;
    }
    assert(nv.subrange(0, nv.len() as int) =~= nv);
    sum
}

/// The laid-out steps of a task, and the top of every row (with the bottom
/// of the last one).
struct Layout {
    steps: Vec<StepExec>,
    ys: Vec<i64>,
    inc: Vec<usize>,
}

spec fn layout_ok(task: TaskDiagram, lanes: Seq<int>, l: Layout) -> bool {
    &&& l.steps@.len() == task.steps@.len()
    &&& l.ys@.len() == task.steps@.len() + 1
    &&& l.inc@.len() == task.steps@.len()
    &&& forall|i: int| 0 <= i < task.steps@.len() ==> step_view(#[trigger] l.steps@[i]) == step_layout(task, lanes, i)
    &&& forall|i: int| 0 <= i <= task.steps@.len() ==> #[trigger] l.ys@[i] as int == row_y(task, lanes, i)
    &&& forall|i: int| 0 <= i < task.steps@.len() ==> #[trigger] l.inc@[i] as int == incoming(task, i)
    &&& all_steps_bounded(task, lanes)
}

fn incoming_counts(task: &TaskDiagram, facts: &Vec<EdgeFacts>) -> (r: Vec<usize>)
    requires
        edge_facts_of(*task, facts@),
    ensures
        r@.len() == task.steps@.len(),
        forall|i: int| 0 <= i < task.steps@.len() ==> #[trigger] r@[i] as int == incoming(*task, i),
{
    let n = task.steps.len();
    let mut inc: Vec<usize> = Vec::new();
    let mut i: usize = 0;
    while i < n
        invariant
            i <= n == task.steps@.len(),
            inc@.len() == i,
            forall|k: int| 0 <= k < i ==> #[trigger] inc@[k] == 0,
        decreases n - i,
    {
        inc.push(0);
        i += 1;
    }
    let mut j: usize = 0;
    while j < facts.len()
        invariant
            j <= facts@.len() == task.transitions@.len(),
            edge_facts_of(*task, facts@),
            inc@.len() == n == task.steps@.len(),
            forall|k: int| 0 <= k < n ==> #[trigger] inc@[k] as int == incoming_below(*task, k, j as int),
            forall|k: int| 0 <= k < n ==> inc@[k] <= j,
        decreases facts@.len() - j,
    {
        let f = &facts[j];
        if f.from.is_some() {
            if let Some(t) = f.to {
                let v = inc[t];
                inc.set(t, v + 1);
            }
        }
        j += 1;
    }
    inc
}

fn compute_layout(task: &TaskDiagram, facts: &Vec<EdgeFacts>, lanes: &Lanes) -> (r: Layout)
    requires
        edge_facts_of(*task, facts@),
        svg_fits_with(*task, lanes_view(*lanes).lanes),
        lanes_ok(*lanes, task.steps@.len()),
    ensures
        layout_ok(*task, lanes_view(*lanes).lanes, r),
{
    let ghost lv = lanes_view(*lanes).lanes;
    let n = task.steps.len();
    let mut steps: Vec<StepExec> = Vec::new();
    let mut ys: Vec<i64> = Vec::new();
    ys.push(72);
    let mut i: usize = 0;
    while i < n
        invariant
            i <= n == task.steps@.len(),
            edge_facts_of(*task, facts@),
            svg_fits_with(*task, lv),
            lanes_ok(*lanes, task.steps@.len()),
            lv == lanes_view(*lanes).lanes,
            steps@.len() == i,
            ys@.len() == i + 1,
            forall|k: int| 0 <= k < i ==> step_view(#[trigger] steps@[k]) == step_layout(*task, lv, k),
            forall|k: int| 0 <= k < i ==> step_bounded(step_view(#[trigger] steps@[k])),
            forall|k: int| 0 <= k <= i ==> #[trigger] ys@[k] as int == row_y(*task, lv, k),
        decreases n - i,
    {
        proof {
            lemma_row_h_fits(*task, lv, i as int);
            lemma_row_y_mono(*task, lv, i as int + 1, n as int);
        }
        let st = compute_step(task, facts, lanes, i);
        assert forall|k: int| 0 <= k < st.notes@.len() implies note_bounded(note_view(#[trigger] st.notes@[k])) by {
            assert(note_bounded(step_view(st).notes[k]));
        }
        let total = slots_total_exec(&st.notes);
        proof {
            lemma_row_h_bounds(step_view(st));
        }
        let y = ys[i];
        let next_y: i64 = y + st.core_h + 18 + total + 24;
        steps.push(st);
        ys.push(next_y);
        i += 1;
    }
    let inc = incoming_counts(task, facts);
    let r = Layout { steps, ys, inc };
    assert forall|j: int| 0 <= j < task.steps@.len() implies step_bounded(#[trigger] step_layout(*task, lv, j)) by {
        assert(step_view(r.steps@[j]) == step_layout(*task, lv, j));
    }
    r
}

proof fn lemma_max_lane_ge(lanes: Seq<int>, m: int)
    requires
        0 <= m <= lanes.len(),
    ensures
        0 <= max_lane_below(lanes, m),
        forall|i: int| 0 <= i < m ==> #[trigger] lanes[i] <= max_lane_below(lanes, m),
    decreases m,
{
    if m > 0 {
        lemma_max_lane_ge(lanes, m - 1);
    }
}

proof fn lemma_lanes_small(l: Lanes, n: nat)
    requires
        lanes_ok(l, n),
        72 + max_lane_below(lanes_view(l).lanes, n as int) * 560 + 220 + 28 + 280 + 56 <= 2_147_483_647,
    ensures
        forall|i: int| 0 <= i < n ==> #[trigger] l.lanes@[i] < 4_000_000,
{
    let lv = lanes_view(l).lanes;
    lemma_max_lane_ge(lv, n as int);
    assert forall|i: int| 0 <= i < n implies #[trigger] l.lanes@[i] < 4_000_000 by {
        assert(lv[i] == l.lanes@[i] as int);
    }
}

fn entry_gap_exec(inc: usize) -> (r: i64)
    ensures
        r == (if inc > 1 {
            54int
        } else if inc == 1 {
            22int
        } else {
            0int
        }),
{
    if inc > 1 {
        54
    } else if inc == 1 {
        22
    } else {
        0
    }
}

fn entry_conn_string(task: &TaskDiagram, lanes: &Lanes, lay: &Layout, idx: usize) -> (r: String)
    requires
        lanes_ok(*lanes, task.steps@.len()),
        layout_ok(*task, lanes_view(*lanes).lanes, *lay),
        svg_fits_with(*task, lanes_view(*lanes).lanes),
        idx < task.steps@.len(),
    ensures
        r@ == entry_conn(*task, lanes_view(*lanes).lanes, idx as int),
{
    let ghost lv = lanes_view(*lanes).lanes;
    let c = lay.inc[idx];
    if c == 0 {
        return String::new();
    }
    proof {
        lemma_row_y_small(*task, lv, idx as int);
        lemma_lanes_small(*lanes, task.steps@.len());
    }
    let l = lanes.lanes[idx] as i64;
    let cx: i64 = 72 + l * 560 + 110;
    let y = lay.ys[idx];
    let ey: i64 = y - entry_gap_exec(c);
    let mut out = seg_string("task-main-line", cx, ey, cx, y);
    let extra = if c > 1 {
        seg_string("task-transition-branch-bar", cx - 24, ey, cx + 24, ey)
    } else {
        String::new()
    };
    push_str(&mut out, extra.as_str());
    out
}

spec fn exit_ready(task: TaskDiagram, facts: Seq<EdgeFacts>, lanes: Lanes, lay: Layout, idx: int, out: Seq<usize>) -> bool {
    &&& edge_facts_of(task, facts)
    &&& lanes_ok(lanes, task.steps@.len())
    &&& layout_ok(task, lanes_view(lanes).lanes, lay)
    &&& svg_fits_with(task, lanes_view(lanes).lanes)
    &&& 0 <= idx < task.steps@.len()
    &&& out.map_values(|v: usize| v as int) == outgoing(task, idx)
    &&& out.len() > 0
    &&& forall|k: int| 0 <= k < out.len() ==> out[k] < task.transitions@.len()
}

fn edge_conn_string(
    task: &TaskDiagram,
    facts: &Vec<EdgeFacts>,
    lanes: &Lanes,
    lay: &Layout,
    idx: usize,
    out: &Vec<usize>,
    p: usize,
    cursor: i64,
) -> (r: String)
    requires
        exit_ready(*task, facts@, *lanes, *lay, idx as int, out@),
        p < out@.len(),
        cursor as int == row_y(*task, lanes_view(*lanes).lanes, idx as int) + step_layout(
            *task,
            lanes_view(*lanes).lanes,
            idx as int,
        ).core_h + 18 + slots_before(
            step_layout(*task, lanes_view(*lanes).lanes, idx as int).notes,
            p as int,
        ),
        0 <= cursor <= 5_000_000_000_000,
    ensures
        r@ == edge_conn(*task, lanes_view(*lanes).lanes, idx as int, p as int),
{
    let ghost lv = lanes_view(*lanes).lanes;
    proof {
        lemma_lanes_small(*lanes, task.steps@.len());
    }
    let li = lanes.lanes[idx] as i64;
    let scx: i64 = 72 + li * 560 + 110;
    let by: i64 = cursor + 12;
    let note_left: i64 = 72 + li * 560 + 248;
    let j = out[p];
    let f = &facts[j];
    let mut r = seg_string("task-transition-bar", scx - 38, by, scx + 38, by);
    let ghost st = lay.steps@[idx as int];
    assert(step_view(st) == step_layout(*task, lv, idx as int));
    if f.local {
        match f.to {
            Some(t) => {
                proof {
                    lemma_row_y_small(*task, lv, t as int);
                }
                let lt = lanes.lanes[t] as i64;
                let tcx: i64 = 72 + lt * 560 + 110;
                let tey: i64 = lay.ys[t] - entry_gap_exec(lay.inc[t]);
                if t > idx {
                    let bus = if tcx != scx {
                        seg_string(
                            "task-transition-branch-bus",
                            if scx <= tcx {
                                scx
                            } else {
                                tcx
                            },
                            by,
                            if scx >= tcx {
                                scx
                            } else {
                                tcx
                            },
                            by,
                        )
                    } else {
                        String::new()
                    };
                    let down = if by != tey {
                        seg_string("task-main-line", tcx, by, tcx, tey)
                    } else {
                        String::new()
                    };
                    let mut tail = String::new();
                    push_str(&mut tail, bus.as_str());
                    push_str(&mut tail, down.as_str());
                    push_str(&mut r, tail.as_str());
                } else {
                    let lx: i64 = 72 - 42 - li * 24 - (p as i64) * 12;
                    let a = seg_string("task-transition-branch-bus", lx, by, scx, by);
                    let b = seg_string("task-main-line", lx, tey, lx, by);
                    let c = seg_string("task-transition-branch-bus", lx, tey, tcx, tey);
                    let mut tail = String::new();
                    push_str(&mut tail, a.as_str());
                    push_str(&mut tail, b.as_str());
                    push_str(&mut tail, c.as_str());
                    push_str(&mut r, tail.as_str());
                }
            },
            None => {
                let tail = String::new();
                push_str(&mut r, tail.as_str());
            },
        }
    } else {
        let show = lay.steps[idx].notes[p].show_note;
        assert(show == step_layout(*task, lv, idx as int).notes[p as int].show);
        let tail = if show {
            seg_string("task-transition-link", scx + 40, by, note_left - 12, by)
        } else {
            String::new()
        };
        push_str(&mut r, tail.as_str());
    }
    r
}

#[verifier::rlimit(80)]
fn exit_conn_string(task: &TaskDiagram, facts: &Vec<EdgeFacts>, lanes: &Lanes, lay: &Layout, idx: usize) -> (r: String)
    requires
        edge_facts_of(*task, facts@),
        lanes_ok(*lanes, task.steps@.len()),
        layout_ok(*task, lanes_view(*lanes).lanes, *lay),
        svg_fits_with(*task, lanes_view(*lanes).lanes),
        idx < task.steps@.len(),
    ensures
        r@ == exit_conn(*task, lanes_view(*lanes).lanes, idx as int),
{
    let ghost lv = lanes_view(*lanes).lanes;
    let out = outgoing_exec(task, facts, idx);
    if out.len() == 0 {
        return String::new();
    }
    let st = &lay.steps[idx];
    let ghost sl = step_layout(*task, lv, idx as int);
    assert(step_view(*st) == sl);
    assert(step_bounded(sl));
    proof {
        lemma_row_y_small(*task, lv, idx as int);
        lemma_lanes_small(*lanes, task.steps@.len());
        lemma_slots_bounds(sl.notes);
    }
    assert(sl.notes.len() == out@.len());
    assert forall|k: int| 0 <= k < st.notes@.len() implies note_bounded(note_view(#[trigger] st.notes@[k])) by {
        assert(note_bounded(sl.notes[k]));
    }
    let total = slots_total_exec(&st.notes);
    let y = lay.ys[idx];
    let li = lanes.lanes[idx] as i64;
    let scx: i64 = 72 + li * 560 + 110;
    let last_slot = st.notes[st.notes.len() - 1].slot_h;
    let last_y: i64 = y + st.core_h + 18 + total - last_slot + 12;
    let mut r = seg_string("task-main-line", scx, y + st.step_h, scx, last_y);
    let mut acc = String::new();
    let mut cursor: i64 = y + st.core_h + 18;
    let mut p: usize = 0;
    proof {
        assert(sl.notes.subrange(0, 0) =~= Seq::<NoteLayout>::empty());
    }
    while p < out.len()
        invariant
            exit_ready(*task, facts@, *lanes, *lay, idx as int, out@),
            lv == lanes_view(*lanes).lanes,
            sl == step_layout(*task, lv, idx as int),
            step_bounded(sl),
            sl.notes.len() == out@.len(),
            p <= out@.len(),
            cursor as int == row_y(*task, lv, idx as int) + sl.core_h + 18 + slots_before(sl.notes, p as int),
            72 <= row_y(*task, lv, idx as int) <= 4_300_000_000_000,
            acc@ == edge_conns(*task, lv, idx as int, p as int),
        decreases out@.len() - p,
    {
        proof {
            lemma_slots_before(sl.notes, p as int);
            lemma_slots_bounds(sl.notes);
        }
        let piece = edge_conn_string(task, facts, lanes, lay, idx, &out, p, cursor);
        push_str(&mut acc, piece.as_str());
        cursor = cursor + lay.steps[idx].notes[p].slot_h;
        assert(lay.steps[idx as int].notes@[p as int].slot_h == sl.notes[p as int].slot_h);
        p += 1;
    }
    push_str(&mut r, acc.as_str());
    r
}

fn note_content_string(n: &NoteExec, ax: i64, cursor: i64) -> (r: String)
    requires
        note_bounded(note_view(*n)),
        0 <= cursor <= 5_000_000_000_000,
        -0x1_0000_0000 <= ax <= 0x1_0000_0000,
    ensures
        r@ == note_content(note_view(*n), ax as int, cursor as int),
{
    if !n.show_note {
        return String::new();
    }
    let top: i64 = cursor + 20;
    let y1: i64 = top + 18;
    let y2: i64 = if n.guard_lines.len() > 0 {
        y1 + (n.guard_lines.len() as i64) * 16 + 6
    } else {
        y1
    };
    let y3: i64 = if n.fact_lines.len() > 0 {
        y2 + (n.fact_lines.len() as i64) * 14 + 6
    } else {
        y2
    };
    let cls = if n.external {
        "task-transition-note external"
    } else if n.terminal {
        "task-transition-note terminal"
    } else {
        "task-transition-note"
    };
    let tcls = if n.external {
        "task-transition-target external"
    } else if n.terminal {
        "task-transition-target terminal"
    } else {
        "task-transition-target"
    };
    let b = box_string(cls, ax, top, 280, n.note_h);
    let g = if n.guard_lines.len() > 0 {
        lines_string(ax + 16, y1, &n.guard_lines, "task-transition-guard", 16, "start")
    } else {
        String::new()
    };
    let f = if n.fact_lines.len() > 0 {
        lines_string(ax + 16, y2, &n.fact_lines, "task-transition-fact", 14, "start")
    } else {
        String::new()
    };
    let t = lines_string(ax + 16, y3, &n.target_lines, tcls, 14, "start");
    let mut r = String::new();
    push_str(&mut r, b.as_str());
    push_str(&mut r, g.as_str());
    push_str(&mut r, f.as_str());
    push_str(&mut r, t.as_str());
    assert(r@ =~= note_content(note_view(*n), ax as int, cursor as int));
    r
}

#[verifier::rlimit(80)]
fn step_head_string(task: &TaskDiagram, lanes: &Lanes, lay: &Layout, idx: usize) -> (r: String)
    requires
        lanes_ok(*lanes, task.steps@.len()),
        layout_ok(*task, lanes_view(*lanes).lanes, *lay),
        svg_fits_with(*task, lanes_view(*lanes).lanes),
        idx < task.steps@.len(),
    ensures
        r@ == step_head(*task, lanes_view(*lanes).lanes, idx as int),
{
    let ghost lv = lanes_view(*lanes).lanes;
    let st = &lay.steps[idx];
    let ghost sl = step_layout(*task, lv, idx as int);
    assert(step_view(*st) == sl);
    assert(step_bounded(sl));
    proof {
        lemma_row_y_small(*task, lv, idx as int);
        lemma_lanes_small(*lanes, task.steps@.len());
        lemma_slots_bounds(sl.notes);
    }
    let li = lanes.lanes[idx] as i64;
    let sx: i64 = 72 + li * 560;
    let sy = lay.ys[idx];
    let ax: i64 = sx + 248;
    let ay: i64 = sy + (st.core_h - st.action_h) / 2;
    let scy: i64 = sy + st.step_h / 2 + 4;
    let nl = st.name_lines.len() as i64;
    let first = if idx == 0 {
        box_string("task-step-initial", sx - 8, sy - 8, 236, st.step_h + 16)
    } else {
        String::new()
    };
    let cls = if task.steps[idx].generated {
        "task-step generated"
    } else {
        "task-step"
    };
    let b = box_string(cls, sx, sy, 220, st.step_h);
    let step_count = task.steps.len();
    assert(idx < step_count);
    let ix = index_string(sx - 48, scy, idx + 1);
    let names = lines_string(sx + 16, sy + 28, &st.name_lines, "task-step-title", 20, "start");
    let shift: i64 = if nl - 1 >= 0 {
        nl - 1
    } else {
        0
    };
    let sources = lines_string(
        sx + 16,
        sy + 56 + shift * 20,
        &st.source_lines,
        "task-step-source",
        15,
        "start",
    );
    let action = if st.action_h > 0 {
        let a1 = seg_string("task-action-link", sx + 220, sy + st.step_h / 2, ax, ay + st.action_h / 2);
        let a2 = box_string("task-action", ax, ay, 280, st.action_h);
        let a3 = lines_string(ax + 16, ay + 28, &st.body_lines, "task-action-line", 16, "start");
        let mut a = String::new();
        push_str(&mut a, a1.as_str());
        push_str(&mut a, a2.as_str());
        push_str(&mut a, a3.as_str());
        a
    } else {
        String::new()
    };
    let mut r = String::new();
    push_str(&mut r, first.as_str());
    push_str(&mut r, b.as_str());
    push_str(&mut r, ix.as_str());
    push_str(&mut r, names.as_str());
    push_str(&mut r, sources.as_str());
    push_str(&mut r, action.as_str());
    assert(r@ =~= step_head(*task, lv, idx as int));
    r
}

#[verifier::rlimit(50)]
#[verifier::rlimit(80)]
fn step_notes_string(task: &TaskDiagram, lanes: &Lanes, lay: &Layout, idx: usize) -> (r: String)
    requires
        lanes_ok(*lanes, task.steps@.len()),
        layout_ok(*task, lanes_view(*lanes).lanes, *lay),
        svg_fits_with(*task, lanes_view(*lanes).lanes),
        idx < task.steps@.len(),
    ensures
        r@ == notes_content(
            step_layout(*task, lanes_view(*lanes).lanes, idx as int).notes,
            step_x(lanes_view(*lanes).lanes[idx as int]) + 248,
            row_y(*task, lanes_view(*lanes).lanes, idx as int) + step_layout(
                *task,
                lanes_view(*lanes).lanes,
                idx as int,
            ).core_h + 18,
            step_layout(*task, lanes_view(*lanes).lanes, idx as int).notes.len() as int,
        ),
{
    let ghost lv = lanes_view(*lanes).lanes;
    let st = &lay.steps[idx];
    let ghost sl = step_layout(*task, lv, idx as int);
    assert(step_view(*st) == sl);
    assert(step_bounded(sl));
    proof {
        lemma_row_y_small(*task, lv, idx as int);
        lemma_lanes_small(*lanes, task.steps@.len());
        lemma_slots_bounds(sl.notes);
    }
    let li = lanes.lanes[idx] as i64;
    let ax: i64 = 72 + li * 560 + 248;
    let base: i64 = lay.ys[idx] + st.core_h + 18;
    let mut notes = String::new();
    let mut p: usize = 0;
    let mut cursor: i64 = base;
    proof {
        assert(sl.notes.subrange(0, 0) =~= Seq::<NoteLayout>::empty());
    }
    while p < st.notes.len()
        invariant
            lv == lanes_view(*lanes).lanes,
            sl == step_layout(*task, lv, idx as int),
            step_view(*st) == sl,
            step_bounded(sl),
            p <= st.notes@.len(),
            -0x1_0000_0000 <= ax <= 0x1_0000_0000,
            0 <= base <= 4_400_000_000_000,
            cursor as int == base + slots_before(sl.notes, p as int),
            notes@ == notes_content(sl.notes, ax as int, base as int, p as int),
        decreases st.notes@.len() - p,
    {
        proof {
            lemma_slots_before(sl.notes, p as int);
            lemma_slots_bounds(sl.notes);
        }
        assert(note_view(st.notes@[p as int]) == sl.notes[p as int]);
        let piece = note_content_string(&st.notes[p], ax, cursor);
        push_str(&mut notes, piece.as_str());
        cursor = cursor + st.notes[p].slot_h;
        p += 1;
    }
    notes
}

fn step_content_string(task: &TaskDiagram, lanes: &Lanes, lay: &Layout, idx: usize) -> (r: String)
    requires
        lanes_ok(*lanes, task.steps@.len()),
        layout_ok(*task, lanes_view(*lanes).lanes, *lay),
        svg_fits_with(*task, lanes_view(*lanes).lanes),
        idx < task.steps@.len(),
    ensures
        r@ == step_content(*task, lanes_view(*lanes).lanes, idx as int),
{
    let h = step_head_string(task, lanes, lay, idx);
    let t = step_notes_string(task, lanes, lay, idx);
    let mut r = String::new();
    push_str(&mut r, h.as_str());
    push_str(&mut r, t.as_str());
    assert(r@ =~= step_content(*task, lanes_view(*lanes).lanes, idx as int));
    r
}

/// The SFC chart of a task, as SVG inside the review frame: the steps in
/// their lanes with their bodies and transition notes, and the lines that
/// join them.
#[verifier::rlimit(80)]
pub fn render_task_svg(task: &TaskDiagram) -> (r: String)
    requires
        svg_fits_i32(*task),
    ensures
        r@ == spec_render_task_svg(*task),
{
    let facts = resolve_edges(task);
    let lanes = assign_lanes(task, &facts);
    let ghost lv = lanes_view(lanes).lanes;
    assert(lv == step_lanes(*task));
    let lay = compute_layout(task, &facts, &lanes);
    let n = task.steps.len();
    let mut entries = String::new();
    let mut i: usize = 0;
    while i < n
        invariant
            i <= n == task.steps@.len(),
            lanes_ok(lanes, task.steps@.len()),
            layout_ok(*task, lv, lay),
            lv == lanes_view(lanes).lanes,
            svg_fits_with(*task, lv),
            entries@ == entry_conns(*task, lv, i as int),
        decreases n - i,
    {
        let piece = entry_conn_string(task, &lanes, &lay, i);
        push_str(&mut entries, piece.as_str());
        i += 1;
    }
    let mut exits = String::new();
    let mut k: usize = 0;
    while k < n
        invariant
            k <= n == task.steps@.len(),
            edge_facts_of(*task, facts@),
            lanes_ok(lanes, task.steps@.len()),
            layout_ok(*task, lv, lay),
            lv == lanes_view(lanes).lanes,
            svg_fits_with(*task, lv),
            exits@ == exit_conns(*task, lv, k as int),
        decreases n - k,
    {
        let piece = exit_conn_string(task, &facts, &lanes, &lay, k);
        push_str(&mut exits, piece.as_str());
        k += 1;
    }
    let mut content = String::new();
    let mut q: usize = 0;
    while q < n
        invariant
            q <= n == task.steps@.len(),
            lanes_ok(lanes, task.steps@.len()),
            layout_ok(*task, lv, lay),
            lv == lanes_view(lanes).lanes,
            svg_fits_with(*task, lv),
            content@ == steps_content(*task, lv, q as int),
        decreases n - q,
    {
        let piece = step_content_string(task, &lanes, &lay, q);
        push_str(&mut content, piece.as_str());
        q += 1;
    }
    let mut max_lane: usize = 0;
    let mut m: usize = 0;
    proof {
        lemma_lanes_small(lanes, task.steps@.len());
    }
    while m < n
        invariant
            m <= n == task.steps@.len(),
            lv == lanes_view(lanes).lanes,
            lanes.lanes@.len() == n,
            forall|i: int| 0 <= i < n ==> #[trigger] lanes.lanes@[i] < 4_000_000,
            max_lane as int == max_lane_below(lv, m as int),
            max_lane < 4_000_000,
        decreases n - m,
    {
        if lanes.lanes[m] > max_lane {
            max_lane = lanes.lanes[m];
        }
        m += 1;
    }
    proof {
        lemma_row_y_small(*task, lv, n as int);
    }
    let chart_w: i64 = 72 + (max_lane as i64) * 560 + 220 + 28 + 280;
    let width: i64 = chart_w + 56;
    let height: i64 = lay.ys[n] + 16;
    let ws = format_i64(width);
    let hs = format_i64(height);
    let name = html_escape(task.task_name.as_str());
    let mut out = owned("<div class=\"sfc-review\"><svg class=\"task-sfc-svg\" viewBox=\"0 0 ");
    push_str(&mut out, ws.as_str());
    push_str(&mut out, " ");
    push_str(&mut out, hs.as_str());
    push_str(&mut out, "\" role=\"img\" aria-label=\"");
    push_str(&mut out, name.as_str());
    push_str(&mut out, " SFC chart\" xmlns=\"http://www.w3.org/2000/svg\">");
    push_str(&mut out, entries.as_str());
    push_str(&mut out, exits.as_str());
    push_str(&mut out, content.as_str());
    push_str(&mut out, "</svg></div>");
    out
}

} // verus!
