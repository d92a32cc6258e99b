//! How the flowchart model is put together: the label of each transition,
//! and one diagram per task with its steps in program order (states the
//! compiler generated after them) and the transitions that leave them.
use vstd::prelude::*;
use crate::axis_profile::{insert_text, sort_texts, sorted_names};
use crate::task_svg::text_lt;
use crate::diagnostics::{clone_strings, strings_view};
use crate::ast::{
    VariableDeclaration, VariableType, WorkpieceHolderDeclaration, WorkpieceSiteDeclaration,
    WorkpieceSiteKind, WorkpieceTypeDeclaration,
};
use crate::flowchart_render::{
    EdgeSummary, FlowchartArtifact, StepSummary, TaskDiagram, TopologySummary,
};
use crate::text::{
    chars_of, clone_string, decimal, eq_chars, format_u64, join, join_strings, owned, push_str,
    string_of, sub_chars,
};

verus! {

// ---------------------------------------------------------------------------
// Transition labels
// ---------------------------------------------------------------------------

/// At most the first two of a list.
pub open spec fn first_two(s: Seq<Seq<char>>) -> Seq<Seq<char>> {
    if s.len() > 2 {
        s.take(2)
    } else {
        s
    }
}

/// The label of a transition: its guard (unless `always`), its first two
/// actions and its first two effects, joined by `; `; `next` when that
/// leaves nothing.
pub open spec fn spec_edge_label(guard: Seq<char>, actions: Seq<Seq<char>>, effects: Seq<Seq<char>>) -> Seq<char> {
    let parts = (if guard != "always"@ {
        seq![guard]
    } else {
        seq![]
    }) + first_two(actions) + first_two(effects);
    if parts.len() == 0 {
        "next"@
    } else {
        join(parts, "; "@)
    }
}

fn push_first_two(parts: &mut Vec<String>, v: &Vec<String>)
    ensures
        strings_view(final(parts)@) == strings_view(old(parts)@) + first_two(strings_view(v@)),
{
    let mut i: usize = 0;
    let ghost start = strings_view(parts@);
    let ghost vv = strings_view(v@);
    while i < v.len() && i < 2
        invariant
            i <= v@.len(),
            i <= 2,
            vv == strings_view(v@),
            strings_view(parts@) == start + vv.take(i as int),
        decreases 2 - i,
    {
        let ghost before = parts@;
        parts.push(clone_string(&v[i]));
        assert(strings_view(parts@) =~= strings_view(before).push(vv[i as int]));
        assert(vv.take(i + 1) =~= vv.take(i as int).push(vv[i as int]));
        i += 1;
    }
    assert(vv.len() <= 2 ==> vv.take(i as int) =~= vv);
}

pub fn edge_label(guard: &str, actions: &Vec<String>, effects: &Vec<String>) -> (r: String)
    ensures
        r@ == spec_edge_label(guard@, strings_view(actions@), strings_view(effects@)),
{
    let mut parts: Vec<String> = Vec::new();
    let g = chars_of(guard);
    let a = chars_of("always");
    let ghost gparts: Seq<Seq<char>> = if guard@ != "always"@ {
        seq![guard@]
    } else {
        seq![]
    };
    if !eq_chars(g.as_slice(), a.as_slice()) {
        parts.push(owned(guard));
    }
    assert(strings_view(parts@) =~= gparts);
    push_first_two(&mut parts, actions);
    push_first_two(&mut parts, effects);
    if parts.len() == 0 {
        owned("next")
    } else {
        join_strings(parts.as_slice(), "; ")
    }
}

/// The summary of a transition from its ends and the summaries of its
/// guard, actions and effects.
pub fn edge_summary(
    from_task: String,
    from_step: String,
    to_task: String,
    to_step: String,
    guard: String,
    actions: Vec<String>,
    effects: Vec<String>,
) -> (r: EdgeSummary)
    ensures
        r.from_task == from_task,
        r.from_step == from_step,
        r.to_task == to_task,
        r.to_step == to_step,
        r.guard == guard,
        r.actions == actions,
        r.effects == effects,
        r.label@ == spec_edge_label(guard@, strings_view(actions@), strings_view(effects@)),
{
    let label = edge_label(guard.as_str(), &actions, &effects);
    EdgeSummary { from_task, from_step, to_task, to_step, label, guard, actions, effects }
}

// ---------------------------------------------------------------------------
// Copies
// ---------------------------------------------------------------------------

pub open spec fn opt_view(o: Option<String>) -> Option<Seq<char>> {
    match o {
        Some(s) => Some(s@),
        None => None,
    }
}

/// Two step summaries that read the same.
pub open spec fn same_step(a: StepSummary, b: StepSummary) -> bool {
    &&& a.task_name@ == b.task_name@
    &&& a.step_name@ == b.step_name@
    &&& opt_view(a.source) == opt_view(b.source)
    &&& a.line == b.line
    &&& a.generated == b.generated
    &&& strings_view(a.statements@) == strings_view(b.statements@)
}

/// Two transition summaries that read the same.
pub open spec fn same_edge(a: EdgeSummary, b: EdgeSummary) -> bool {
    &&& a.from_task@ == b.from_task@
    &&& a.from_step@ == b.from_step@
    &&& a.to_task@ == b.to_task@
    &&& a.to_step@ == b.to_step@
    &&& a.label@ == b.label@
    &&& a.guard@ == b.guard@
    &&& strings_view(a.actions@) == strings_view(b.actions@)
    &&& strings_view(a.effects@) == strings_view(b.effects@)
}

fn copy_step(s: &StepSummary) -> (r: StepSummary)
    ensures
        same_step(r, *s),
{
    let source = match &s.source {
        Some(x) => Some(clone_string(x)),
        None => None,
    };
    StepSummary {
        task_name: clone_string(&s.task_name),
        step_name: clone_string(&s.step_name),
        source,
        line: s.line,
        generated: s.generated,
        statements: clone_strings(&s.statements),
    }
}

fn copy_edge(e: &EdgeSummary) -> (r: EdgeSummary)
    ensures
        same_edge(r, *e),
{
    EdgeSummary {
        from_task: clone_string(&e.from_task),
        from_step: clone_string(&e.from_step),
        to_task: clone_string(&e.to_task),
        to_step: clone_string(&e.to_step),
        label: clone_string(&e.label),
        guard: clone_string(&e.guard),
        actions: clone_strings(&e.actions),
        effects: clone_strings(&e.effects),
    }
}

// ---------------------------------------------------------------------------
// Names in order
// ---------------------------------------------------------------------------

/// A list without the entries equal to the one before them.
pub open spec fn dedup_adjacent(s: Seq<Seq<char>>) -> Seq<Seq<char>>
    decreases s.len(),
{
    if s.len() == 0 {
        seq![]
    } else if s.len() >= 2 && s[s.len() - 1] == s[s.len() - 2] {
        dedup_adjacent(s.drop_last())
    } else {
        dedup_adjacent(s.drop_last()).push(s.last())
    }
}

/// The names in ascending order, each once (a `BTreeSet` walked).
pub open spec fn sorted_unique(s: Seq<Seq<char>>) -> Seq<Seq<char>> {
    dedup_adjacent(sort_texts(s))
}

fn dedup_adjacent_exec(v: Vec<Vec<char>>) -> (r: Vec<Vec<char>>)
    ensures
        r@.map_values(|x: Vec<char>| x@) == dedup_adjacent(v@.map_values(|x: Vec<char>| x@)),
{
    let ghost vv = v@.map_values(|x: Vec<char>| x@);
    let mut out: Vec<Vec<char>> = Vec::new();
    let mut i: usize = 0;
    assert(vv.subrange(0, 0) =~= Seq::<Seq<char>>::empty());
    while i < v.len()
        invariant
            i <= v@.len(),
            vv == v@.map_values(|x: Vec<char>| x@),
            out@.map_values(|x: Vec<char>| x@) == dedup_adjacent(vv.subrange(0, i as int)),
        decreases v@.len() - i,
    {
        let ghost s = vv.subrange(0, i + 1);
        assert(s.drop_last() =~= vv.subrange(0, i as int));
        assert(s.last() == vv[i as int]);
        let repeat = i > 0 && eq_chars(v[i].as_slice(), v[i - 1].as_slice());
        proof {
            if i > 0 {
                assert(s[s.len() - 2] == vv[i - 1]);
            }
        }
        if !repeat {
            let ghost before = out@;
            let c = sub_chars(v[i].as_slice(), 0, v[i].len());
            assert(v@[i as int]@.subrange(0, v@[i as int]@.len() as int) =~= vv[i as int]);
            out.push(c);
            assert(out@.map_values(|x: Vec<char>| x@) =~= before.map_values(|x: Vec<char>| x@).push(
                vv[i as int],
            ));
        }
        i += 1;
    }
    assert(vv.subrange(0, i as int) =~= vv);
    out
}

fn contains_text(v: &Vec<Vec<char>>, x: &[char]) -> (r: bool)
    ensures
        r == v@.map_values(|y: Vec<char>| y@).contains(x@),
{
    let ghost vv = v@.map_values(|y: Vec<char>| y@);
    let mut i: usize = 0;
    while i < v.len()
        invariant
            i <= v@.len(),
            vv == v@.map_values(|y: Vec<char>| y@),
            forall|k: int| 0 <= k < i ==> vv[k] != x@,
        decreases v@.len() - i,
    {
        if eq_chars(v[i].as_slice(), x) {
            assert(vv[i as int] == x@);
            return true;
        }
        i += 1;
    }
    false
}

// ---------------------------------------------------------------------------
// Task diagrams
// ---------------------------------------------------------------------------

/// Every task name the program or the state machine knows, with repeats.
pub open spec fn all_task_names(task_names: Seq<String>, states: Seq<(String, String)>) -> Seq<Seq<char>> {
    strings_view(task_names) + states.map_values(|p: (String, String)| p.0@)
}

/// The tasks that get a diagram, in name order.
pub open spec fn diagram_names(task_names: Seq<String>, states: Seq<(String, String)>) -> Seq<Seq<char>> {
    sorted_unique(all_task_names(task_names, states))
}

/// The steps of task `t` among the first `n` program steps, in order, each
/// name once.
pub open spec fn program_order_below(steps: Seq<StepSummary>, t: Seq<char>, n: int) -> Seq<Seq<char>>
    decreases n,
{
    if n <= 0 {
        seq![]
    } else {
        let prev = program_order_below(steps, t, n - 1);
        let st = steps[n - 1];
        if st.task_name@ == t && !prev.contains(st.step_name@) {
            prev.push(st.step_name@)
        } else {
            prev
        }
    }
}

pub open spec fn program_order(steps: Seq<StepSummary>, t: Seq<char>) -> Seq<Seq<char>> {
    program_order_below(steps, t, steps.len() as int)
}

/// The state-machine steps of task `t` among the first `n` states that the
/// program does not declare (listed in `known`).
pub open spec fn generated_below(states: Seq<(String, String)>, t: Seq<char>, known: Seq<Seq<char>>, n: int) -> Seq<
    Seq<char>,
>
    decreases n,
{
    if n <= 0 {
        seq![]
    } else {
        let prev = generated_below(states, t, known, n - 1);
        let st = states[n - 1];
        if st.0@ == t && !known.contains(st.1@) {
            prev.push(st.1@)
        } else {
            prev
        }
    }
}

/// The steps of a task's diagram: the program's steps in program order,
/// then the generated ones in name order, each once.
pub open spec fn diagram_step_names(steps: Seq<StepSummary>, states: Seq<(String, String)>, t: Seq<char>) -> Seq<
    Seq<char>,
> {
    let known = program_order(steps, t);
    known + sorted_unique(generated_below(states, t, known, states.len() as int))
}

/// The last program step below `n` of task `t` named `s`.
pub open spec fn lookup_below(steps: Seq<StepSummary>, t: Seq<char>, s: Seq<char>, n: int) -> Option<int>
    decreases n,
{
    if n <= 0 {
        None
    } else if steps[n - 1].task_name@ == t && steps[n - 1].step_name@ == s {
        Some(n - 1)
    } else {
        lookup_below(steps, t, s, n - 1)
    }
}

pub open spec fn lookup_step(steps: Seq<StepSummary>, t: Seq<char>, s: Seq<char>) -> Option<int> {
    lookup_below(steps, t, s, steps.len() as int)
}

/// The summary shown for a step the program does not declare.
pub open spec fn is_placeholder(d: StepSummary, t: Seq<char>, s: Seq<char>) -> bool {
    &&& d.task_name@ == t
    &&& d.step_name@ == s
    &&& d.source is None
    &&& d.line is None
    &&& d.generated
    &&& strings_view(d.statements@) == seq!["generated semantic state"@]
}

/// `d` is what the diagram of task `t` shows for its step `s`: the program's
/// summary of it, or the placeholder.
pub open spec fn step_for(d: StepSummary, steps: Seq<StepSummary>, t: Seq<char>, s: Seq<char>) -> bool {
    match lookup_step(steps, t, s) {
        Some(i) => same_step(d, steps[i]),
        None => is_placeholder(d, t, s),
    }
}

/// The transitions below `n` that leave a step of task `t`, by position.
pub open spec fn edges_from_below(edges: Seq<EdgeSummary>, t: Seq<char>, n: int) -> Seq<int>
    decreases n,
{
    if n <= 0 {
        seq![]
    } else {
        let prev = edges_from_below(edges, t, n - 1);
        if edges[n - 1].from_task@ == t {
            prev.push(n - 1)
        } else {
            prev
        }
    }
}

pub open spec fn edges_from(edges: Seq<EdgeSummary>, t: Seq<char>) -> Seq<int> {
    edges_from_below(edges, t, edges.len() as int)
}

/// `d` is the diagram of task `t`.
pub open spec fn diagram_for(
    d: TaskDiagram,
    t: Seq<char>,
    steps: Seq<StepSummary>,
    states: Seq<(String, String)>,
    edges: Seq<EdgeSummary>,
) -> bool {
    let names = diagram_step_names(steps, states, t);
    let outs = edges_from(edges, t);
    &&& d.task_name@ == t
    &&& d.steps@.len() == names.len()
    &&& forall|k: int| 0 <= k < names.len() ==> step_for(#[trigger] d.steps@[k], steps, t, names[k])
    &&& d.transitions@.len() == outs.len()
    &&& forall|k: int| 0 <= k < outs.len() ==> same_edge(#[trigger] d.transitions@[k], edges[outs[k]])
}

fn program_order_exec(steps: &[StepSummary], t: &[char]) -> (r: Vec<Vec<char>>)
    ensures
        r@.map_values(|x: Vec<char>| x@) == program_order(steps@, t@),
{
    let mut out: Vec<Vec<char>> = Vec::new();
    let mut i: usize = 0;
    while i < steps.len()
        invariant
            i <= steps@.len(),
            out@.map_values(|x: Vec<char>| x@) == program_order_below(steps@, t@, i as int),
        decreases steps@.len() - i,
    {
        let tn = chars_of(steps[i].task_name.as_str());
        let sn = chars_of(steps[i].step_name.as_str());
        if eq_chars(tn.as_slice(), t) && !contains_text(&out, sn.as_slice()) {
            let ghost before = out@;
            let ghost sv = sn@;
            out.push(sn);
            assert(out@.map_values(|x: Vec<char>| x@) =~= before.map_values(|x: Vec<char>| x@).push(
                sv,
            ));
        }
        i += 1;
    }
    out
}

fn generated_exec(states: &[(String, String)], t: &[char], known: &Vec<Vec<char>>) -> (r: Vec<String>)
    ensures
        strings_view(r@) == generated_below(
            states@,
            t@,
            known@.map_values(|x: Vec<char>| x@),
            states@.len() as int,
        ),
{
    let ghost kv = known@.map_values(|x: Vec<char>| x@);
    let mut out: Vec<String> = Vec::new();
    let mut i: usize = 0;
    while i < states.len()
        invariant
            i <= states@.len(),
            kv == known@.map_values(|x: Vec<char>| x@),
            strings_view(out@) == generated_below(states@, t@, kv, i as int),
        decreases states@.len() - i,
    {
        let tn = chars_of(states[i].0.as_str());
        let sn = chars_of(states[i].1.as_str());
        if eq_chars(tn.as_slice(), t) && !contains_text(known, sn.as_slice()) {
            let ghost before = out@;
            out.push(clone_string(&states[i].1));
            assert(strings_view(out@) =~= strings_view(before).push(states@[i as int].1@));
        }
        i += 1;
    }
    out
}

fn find_program_step(steps: &[StepSummary], t: &[char], s: &[char]) -> (r: Option<usize>)
    ensures
        match r {
            Some(i) => lookup_step(steps@, t@, s@) == Some(i as int) && i < steps@.len(),
            None => lookup_step(steps@, t@, s@) is None,
        },
{
    let mut j: usize = steps.len();
    while j > 0
        invariant
            j <= steps@.len(),
            lookup_step(steps@, t@, s@) == lookup_below(steps@, t@, s@, j as int),
        decreases j,
    {
        let tn = chars_of(steps[j - 1].task_name.as_str());
        let sn = chars_of(steps[j - 1].step_name.as_str());
        if eq_chars(tn.as_slice(), t) && eq_chars(sn.as_slice(), s) {
            return Some(j - 1);
        }
        j -= 1;
    }
    None
}

fn diagram_step(steps: &[StepSummary], t: &[char], s: &[char]) -> (r: StepSummary)
    ensures
        step_for(r, steps@, t@, s@),
{
    match find_program_step(steps, t, s) {
        Some(i) => copy_step(&steps[i]),
        None => {
            let mut statements: Vec<String> = Vec::new();
            statements.push(owned("generated semantic state"));
            assert(strings_view(statements@) =~= seq!["generated semantic state"@]);
            StepSummary {
                task_name: string_of(t),
                step_name: string_of(s),
                source: None,
                line: None,
                generated: true,
                statements,
            }
        },
    }
}

/// The diagram of task `t`.
pub fn build_task_diagram(
    t: &[char],
    steps: &[StepSummary],
    states: &[(String, String)],
    edges: &[EdgeSummary],
) -> (r: TaskDiagram)
    ensures
        diagram_for(r, t@, steps@, states@, edges@),
{
    let known = program_order_exec(steps, t);
    let gen = generated_exec(states, t, &known);
    let sorted = sorted_names(&gen);
    let extra = dedup_adjacent_exec(sorted);
    let ghost kv = known@.map_values(|x: Vec<char>| x@);
    let ghost ev = extra@.map_values(|x: Vec<char>| x@);
    let ghost names = diagram_step_names(steps@, states@, t@);
    assert(names =~= kv + ev);
    let mut out_steps: Vec<StepSummary> = Vec::new();
    let mut k: usize = 0;
    while k < known.len()
        invariant
            k <= known@.len(),
            kv == known@.map_values(|x: Vec<char>| x@),
            out_steps@.len() == k,
            forall|q: int| 0 <= q < k ==> step_for(#[trigger] out_steps@[q], steps@, t@, kv[q]),
        decreases known@.len() - k,
    {
        out_steps.push(diagram_step(steps, t, known[k].as_slice()));
        k += 1;
    }
    let mut k2: usize = 0;
    while k2 < extra.len()
        invariant
            k2 <= extra@.len(),
            kv == known@.map_values(|x: Vec<char>| x@),
            ev == extra@.map_values(|x: Vec<char>| x@),
            out_steps@.len() == kv.len() + k2,
            forall|q: int| 0 <= q < kv.len() ==> step_for(#[trigger] out_steps@[q], steps@, t@, kv[q]),
            forall|q: int|
                0 <= q < k2 ==> step_for(#[trigger] out_steps@[kv.len() + q], steps@, t@, ev[q]),
        decreases extra@.len() - k2,
    {
        out_steps.push(diagram_step(steps, t, extra[k2].as_slice()));
        k2 += 1;
    }
    proof {
        assert forall|q: int| 0 <= q < names.len() implies step_for(
            #[trigger] out_steps@[q],
            steps@,
            t@,
            names[q],
        ) by {
            if q >= kv.len() {
                assert(out_steps@[kv.len() + (q - kv.len())] == out_steps@[q]);
            }
        }
    }
    let mut outs: Vec<EdgeSummary> = Vec::new();
    let mut j: usize = 0;
    while j < edges.len()
        invariant
            j <= edges@.len(),
            outs@.len() == edges_from_below(edges@, t@, j as int).len(),
            forall|q: int|
                0 <= q < outs@.len() ==> same_edge(
                    #[trigger] outs@[q],
                    edges@[edges_from_below(edges@, t@, j as int)[q]],
                ),
        decreases edges@.len() - j,
    {
        let ft = chars_of(edges[j].from_task.as_str());
        if eq_chars(ft.as_slice(), t) {
            outs.push(copy_edge(&edges[j]));
        }
        j += 1;
    }
    TaskDiagram { task_name: string_of(t), steps: out_steps, transitions: outs }
}

/// The diagrams of the flowchart: one per task the program or its state
/// machine knows, in name order.
pub fn assemble_task_diagrams(
    task_names: &Vec<String>,
    steps: &[StepSummary],
    states: &[(String, String)],
    edges: &[EdgeSummary],
) -> (r: Vec<TaskDiagram>)
    ensures
        r@.len() == diagram_names(task_names@, states@).len(),
        forall|i: int|
            0 <= i < r@.len() ==> diagram_for(
                #[trigger] r@[i],
                diagram_names(task_names@, states@)[i],
                steps@,
                states@,
                edges@,
            ),
{
    let mut all: Vec<String> = clone_strings(task_names);
    let mut i: usize = 0;
    let ghost start = strings_view(all@);
    while i < states.len()
        invariant
            i <= states@.len(),
            start == strings_view(task_names@),
            strings_view(all@) == start + states@.subrange(0, i as int).map_values(
                |p: (String, String)| p.0@,
            ),
        decreases states@.len() - i,
    {
        let ghost before = all@;
        all.push(clone_string(&states[i].0));
        assert(strings_view(all@) =~= strings_view(before).push(states@[i as int].0@));
        assert(states@.subrange(0, i + 1).map_values(|p: (String, String)| p.0@) =~= states@.subrange(
            0,
            i as int,
        ).map_values(|p: (String, String)| p.0@).push(states@[i as int].0@));
        i += 1;
    }
    assert(states@.subrange(0, i as int) =~= states@);
    assert(strings_view(all@) == all_task_names(task_names@, states@));
    let sorted = sorted_names(&all);
    let names = dedup_adjacent_exec(sorted);
    let ghost nv = names@.map_values(|x: Vec<char>| x@);
    let mut out: Vec<TaskDiagram> = Vec::new();
    let mut k: usize = 0;
    while k < names.len()
        invariant
            k <= names@.len(),
            nv == names@.map_values(|x: Vec<char>| x@),
            nv == diagram_names(task_names@, states@),
            out@.len() == k,
            forall|q: int| 0 <= q < k ==> diagram_for(#[trigger] out@[q], nv[q], steps@, states@, edges@),
        decreases names@.len() - k,
    {
        out.push(build_task_diagram(names[k].as_slice(), steps, states, edges));
        k += 1;
    }
    out
}

// ---------------------------------------------------------------------------
// The order of names
// ---------------------------------------------------------------------------

proof fn lemma_text_lt_irreflexive(a: Seq<char>)
    ensures
        !text_lt(a, a),
    decreases a.len(),
{
    if a.len() > 0 {
        lemma_text_lt_irreflexive(a.drop_first());
    }
}

proof fn lemma_text_lt_total(a: Seq<char>, b: Seq<char>)
    requires
        a != b,
    ensures
        text_lt(a, b) || text_lt(b, a),
    decreases a.len(),
{
    if a.len() == 0 && b.len() == 0 {
        assert(a =~= b);
    }
    if a.len() > 0 && b.len() > 0 && a[0] == b[0] {
        if a.drop_first() == b.drop_first() {
            assert(a =~= seq![a[0]] + a.drop_first());
            assert(b =~= seq![b[0]] + b.drop_first());
        }
        lemma_text_lt_total(a.drop_first(), b.drop_first());
    }
}

proof fn lemma_text_lt_transitive(a: Seq<char>, b: Seq<char>, c: Seq<char>)
    requires
        text_lt(a, b),
        text_lt(b, c),
    ensures
        text_lt(a, c),
    decreases a.len(),
{
    if a.len() > 0 && b.len() > 0 && c.len() > 0 && a[0] == b[0] && b[0] == c[0] {
        lemma_text_lt_transitive(a.drop_first(), b.drop_first(), c.drop_first());
    }
}

/// Ascending, repeats allowed: no name comes after a later one.
pub open spec fn ascending(s: Seq<Seq<char>>) -> bool {
    forall|i: int, j: int| 0 <= i < j < s.len() ==> !text_lt(#[trigger] s[j], #[trigger] s[i])
}

proof fn lemma_not_lt_trans(a: Seq<char>, b: Seq<char>, c: Seq<char>)
    requires
        !text_lt(b, a),
        !text_lt(c, b),
    ensures
        !text_lt(c, a),
{
    if text_lt(c, a) {
        if a != b {
            lemma_text_lt_total(a, b);
            lemma_text_lt_transitive(c, a, b);
            if b != c {
                lemma_text_lt_total(b, c);
                lemma_text_lt_transitive(b, c, a);
            } else {
                lemma_text_lt_irreflexive(b);
            }
        } else {
            if b != c {
                lemma_text_lt_total(b, c);
                lemma_text_lt_transitive(b, c, a);
                lemma_text_lt_irreflexive(a);
            } else {
                lemma_text_lt_irreflexive(a);
            }
        }
    }
}

proof fn lemma_insert_text(s: Seq<Seq<char>>, x: Seq<char>)
    requires
        ascending(s),
    ensures
        ascending(insert_text(s, x)),
        forall|y: Seq<char>| #[trigger] insert_text(s, x).contains(y) <==> (s.contains(y) || y == x),
    decreases s.len(),
{
    let r = insert_text(s, x);
    if s.len() == 0 {
        assert forall|y: Seq<char>| r.contains(y) <==> (s.contains(y) || y == x) by {
            if r.contains(y) {
                assert(r[0] == y);
            }
            if y == x {
                assert(r[0] == x);
            }
        }
    } else if text_lt(x, s.last()) {
        let d = s.drop_last();
        assert(ascending(d)) by {
            assert forall|i: int, j: int| 0 <= i < j < d.len() implies !text_lt(#[trigger] d[j], #[trigger] d[i]) by {
                assert(d[i] == s[i] && d[j] == s[j]);
            }
        }
        lemma_insert_text(d, x);
        let inner = insert_text(d, x);
        assert(r == inner.push(s.last()));
        assert(s =~= d.push(s.last()));
        assert forall|y: Seq<char>| r.contains(y) <==> (s.contains(y) || y == x) by {
            if r.contains(y) {
                let k = choose|k: int| 0 <= k < r.len() && r[k] == y;
                if k < inner.len() {
                    assert(inner.contains(y));
                    if d.contains(y) {
                        let j = choose|j: int| 0 <= j < d.len() && d[j] == y;
                        assert(s[j] == y);
                    }
                } else {
                    assert(s[s.len() - 1] == y);
                }
            }
            if s.contains(y) {
                let j = choose|j: int| 0 <= j < s.len() && s[j] == y;
                if j < d.len() {
                    assert(d[j] == y);
                    assert(inner.contains(y));
                    let k = choose|k: int| 0 <= k < inner.len() && inner[k] == y;
                    assert(r[k] == y);
                } else {
                    assert(r[r.len() - 1] == y);
                }
            }
            if y == x {
                assert(inner.contains(x));
                let k = choose|k: int| 0 <= k < inner.len() && inner[k] == x;
                assert(r[k] == x);
            }
        }
        assert forall|i: int, j: int| 0 <= i < j < r.len() implies !text_lt(#[trigger] r[j], #[trigger] r[i]) by {
            if j == r.len() - 1 {
                assert(inner.contains(r[i]));
                if d.contains(r[i]) {
                    let k = choose|k: int| 0 <= k < d.len() && d[k] == r[i];
                    assert(s[k] == r[i]);
                    assert(!text_lt(s[s.len() - 1], s[k]));
                } else {
                    assert(r[i] == x);
                    if text_lt(s.last(), x) {
                        lemma_text_lt_transitive(x, s.last(), x);
                        lemma_text_lt_irreflexive(x);
                    }
                }
            } else {
                assert(r[i] == inner[i] && r[j] == inner[j]);
            }
        }
    } else {
        assert forall|y: Seq<char>| r.contains(y) <==> (s.contains(y) || y == x) by {
            if r.contains(y) {
                let k = choose|k: int| 0 <= k < r.len() && r[k] == y;
                if k < s.len() {
                    assert(s[k] == y);
                }
            }
            if s.contains(y) {
                let j = choose|j: int| 0 <= j < s.len() && s[j] == y;
                assert(r[j] == y);
            }
            if y == x {
                assert(r[s.len() as int] == x);
            }
        }
        assert forall|i: int, j: int| 0 <= i < j < r.len() implies !text_lt(#[trigger] r[j], #[trigger] r[i]) by {
            if j == r.len() - 1 {
                assert(r[j] == x);
                assert(r[i] == s[i]);
                if i < s.len() - 1 {
                    assert(!text_lt(s[s.len() - 1], s[i]));
                } else {
                    lemma_text_lt_irreflexive(s[i]);
                }
                lemma_not_lt_trans(s[i], s.last(), x);
            } else {
                assert(r[i] == s[i] && r[j] == s[j]);
            }
        }
    }
}

proof fn lemma_sort_texts(s: Seq<Seq<char>>)
    ensures
        ascending(sort_texts(s)),
        forall|y: Seq<char>| #[trigger] sort_texts(s).contains(y) <==> s.contains(y),
    decreases s.len(),
{
    if s.len() > 0 {
        let d = s.drop_last();
        lemma_sort_texts(d);
        lemma_insert_text(sort_texts(d), s.last());
        assert(s =~= d.push(s.last()));
        assert forall|y: Seq<char>| #[trigger] sort_texts(s).contains(y) <==> s.contains(y) by {
            if d.contains(y) {
                let j = choose|j: int| 0 <= j < d.len() && d[j] == y;
                assert(s[j] == y);
            }
            if s.contains(y) && y != s.last() {
                let j = choose|j: int| 0 <= j < s.len() && s[j] == y;
                assert(d[j] == y);
            }
            if y == s.last() {
                assert(s[s.len() - 1] == y);
            }
        }
    }
}

proof fn lemma_dedup_ascending(s: Seq<Seq<char>>)
    requires
        ascending(s),
    ensures
        forall|i: int, j: int|
            0 <= i < j < dedup_adjacent(s).len() ==> text_lt(
                #[trigger] dedup_adjacent(s)[i],
                #[trigger] dedup_adjacent(s)[j],
            ),
        forall|y: Seq<char>| #[trigger] dedup_adjacent(s).contains(y) <==> s.contains(y),
        s.len() > 0 ==> dedup_adjacent(s).len() > 0 && dedup_adjacent(s).last() == s.last(),
    decreases s.len(),
{
    if s.len() > 0 {
        let d = s.drop_last();
        assert(ascending(d)) by {
            assert forall|i: int, j: int| 0 <= i < j < d.len() implies !text_lt(#[trigger] d[j], #[trigger] d[i]) by {
                assert(d[i] == s[i] && d[j] == s[j]);
            }
        }
        lemma_dedup_ascending(d);
        let rd = dedup_adjacent(d);
        let r = dedup_adjacent(s);
        assert(s =~= d.push(s.last()));
        if s.len() >= 2 && s[s.len() - 1] == s[s.len() - 2] {
            assert(r == rd);
            assert forall|y: Seq<char>| #[trigger] r.contains(y) <==> s.contains(y) by {
                if d.contains(y) {
                    let j = choose|j: int| 0 <= j < d.len() && d[j] == y;
                    assert(s[j] == y);
                }
                if s.contains(y) {
                    let j = choose|j: int| 0 <= j < s.len() && s[j] == y;
                    if j < d.len() {
                        assert(d[j] == y);
                    } else {
                        assert(d[d.len() - 1] == y);
                    }
                }
            }
        } else {
            assert(r == rd.push(s.last()));
            assert forall|y: Seq<char>| #[trigger] r.contains(y) <==> s.contains(y) by {
                if r.contains(y) {
                    let k = choose|k: int| 0 <= k < r.len() && r[k] == y;
                    if k < rd.len() {
                        assert(rd.contains(y));
                        let j = choose|j: int| 0 <= j < d.len() && d[j] == y;
                        assert(s[j] == y);
                    } else {
                        assert(s[s.len() - 1] == y);
                    }
                }
                if s.contains(y) {
                    let j = choose|j: int| 0 <= j < s.len() && s[j] == y;
                    if j < d.len() {
                        assert(d[j] == y);
                        assert(d.contains(y));
                        assert(rd.contains(y));
                        let k = choose|k: int| 0 <= k < rd.len() && rd[k] == y;
                        assert(r[k] == y);
                    } else {
                        assert(r[r.len() - 1] == y);
                    }
                }
            }
            assert forall|i: int, j: int| 0 <= i < j < r.len() implies text_lt(#[trigger] r[i], #[trigger] r[j]) by {
                if j == r.len() - 1 {
                    let y = r[i];
                    assert(rd.contains(y));
                    let k = choose|k: int| 0 <= k < d.len() && d[k] == y;
                    assert(s[k] == y);
                    assert(!text_lt(s[s.len() - 1], s[k]));
                    if y == s.last() {
                        assert(s.len() >= 2);
                        if k < s.len() - 2 {
                            assert(!text_lt(s[s.len() - 2], s[k]));
                        }
                        assert(!text_lt(s[s.len() - 1], s[s.len() - 2]));
                        lemma_text_lt_total(s[s.len() - 2], s[s.len() - 1]);
                    } else {
                        lemma_text_lt_total(y, s.last());
                    }
                } else {
                    assert(r[i] == rd[i] && r[j] == rd[j]);
                }
            }
        }
    }
}

/// The diagram tasks come in ascending name order, each once, and they are
/// exactly the tasks the program or its state machine names.
pub proof fn law_diagram_names_ascending_once(task_names: Seq<String>, states: Seq<(String, String)>)
    ensures
        ({
            let names = diagram_names(task_names, states);
            &&& forall|i: int, j: int|
                0 <= i < j < names.len() ==> text_lt(#[trigger] names[i], #[trigger] names[j])
            &&& forall|t: Seq<char>|
                #[trigger] names.contains(t) <==> all_task_names(task_names, states).contains(t)
        }),
{
    let all = all_task_names(task_names, states);
    lemma_sort_texts(all);
    lemma_dedup_ascending(sort_texts(all));
}

// ---------------------------------------------------------------------------
// Topology summary
// ---------------------------------------------------------------------------

pub open spec fn var_type_debug(t: VariableType) -> Seq<char> {
    match t {
        VariableType::Float => "Float"@,
        VariableType::Int => "Int"@,
        VariableType::Bool => "Bool"@,
    }
}

pub open spec fn site_kind_debug(k: WorkpieceSiteKind) -> Seq<char> {
    match k {
        WorkpieceSiteKind::WorkpieceLocation => "WorkpieceLocation"@,
        WorkpieceSiteKind::CarrierLocation => "CarrierLocation"@,
    }
}

pub open spec fn variable_line(v: VariableDeclaration) -> Seq<char> {
    v.name@ + ":"@ + var_type_debug(v.var_type) + "="@ + v.initial_value@
}

pub open spec fn site_line(s: WorkpieceSiteDeclaration) -> Seq<char> {
    s.name@ + ":"@ + site_kind_debug(s.kind) + ":capacity="@ + decimal(s.capacity as nat)
}

pub open spec fn holder_line(h: WorkpieceHolderDeclaration) -> Seq<char> {
    h.name@ + ":capacity="@ + decimal(h.capacity as nat)
}

/// The topology summary: the device count; the links, sorted, each once;
/// a line per variable, workpiece site and holder; and the workpiece type
/// names.
pub fn summarize_topology(
    device_count: usize,
    links: &Vec<String>,
    variables: &[VariableDeclaration],
    sites: &[WorkpieceSiteDeclaration],
    holders: &[WorkpieceHolderDeclaration],
    types: &[WorkpieceTypeDeclaration],
) -> (r: TopologySummary)
    ensures
        r.device_count == device_count,
        strings_view(r.links@) == sorted_unique(strings_view(links@)),
        r.link_count == r.links@.len(),
        strings_view(r.variables@) == variables@.map_values(|v: VariableDeclaration| variable_line(v)),
        strings_view(r.workpiece_sites@) == sites@.map_values(
            |s: WorkpieceSiteDeclaration| site_line(s),
        ),
        strings_view(r.workpiece_holders@) == holders@.map_values(
            |h: WorkpieceHolderDeclaration| holder_line(h),
        ),
        strings_view(r.workpiece_types@) == types@.map_values(|t: WorkpieceTypeDeclaration| t.name@),
{
    let sorted = sorted_names(links);
    let unique = dedup_adjacent_exec(sorted);
    let ghost uv = unique@.map_values(|x: Vec<char>| x@);
    let mut out_links: Vec<String> = Vec::new();
    let mut i: usize = 0;
    while i < unique.len()
        invariant
            i <= unique@.len(),
            uv == unique@.map_values(|x: Vec<char>| x@),
            strings_view(out_links@) == uv.take(i as int),
        decreases unique@.len() - i,
    {
        let ghost before = out_links@;
        out_links.push(string_of(unique[i].as_slice()));
        assert(strings_view(out_links@) =~= strings_view(before).push(uv[i as int]));
        assert(uv.take(i + 1) =~= uv.take(i as int).push(uv[i as int]));
        i += 1;
    }
    assert(uv.take(i as int) =~= uv);
    let mut vars: Vec<String> = Vec::new();
    let mut k: usize = 0;
    while k < variables.len()
        invariant
            k <= variables@.len(),
            vars@.len() == k,
            forall|q: int| 0 <= q < k ==> (#[trigger] vars@[q])@ == variable_line(variables@[q]),
        decreases variables@.len() - k,
    {
        let v = &variables[k];
        let mut line = clone_string(&v.name);
        push_str(&mut line, ":");
        let t: &str = match v.var_type {
            VariableType::Float => "Float",
            VariableType::Int => "Int",
            VariableType::Bool => "Bool",
        };
        push_str(&mut line, t);
        push_str(&mut line, "=");
        push_str(&mut line, v.initial_value.as_str());
        vars.push(line);
        k += 1;
    }
    assert(strings_view(vars@) =~= variables@.map_values(|v: VariableDeclaration| variable_line(v)));
    let mut site_lines: Vec<String> = Vec::new();
    let mut k: usize = 0;
    while k < sites.len()
        invariant
            k <= sites@.len(),
            site_lines@.len() == k,
            forall|q: int| 0 <= q < k ==> (#[trigger] site_lines@[q])@ == site_line(sites@[q]),
        decreases sites@.len() - k,
    {
        let st = &sites[k];
        let mut line = clone_string(&st.name);
        push_str(&mut line, ":");
        let kd: &str = match st.kind {
            WorkpieceSiteKind::WorkpieceLocation => "WorkpieceLocation",
            WorkpieceSiteKind::CarrierLocation => "CarrierLocation",
        };
        push_str(&mut line, kd);
        push_str(&mut line, ":capacity=");
        let c = format_u64(st.capacity as u64);
        push_str(&mut line, c.as_str());
        site_lines.push(line);
        k += 1;
    }
    assert(strings_view(site_lines@) =~= sites@.map_values(|s: WorkpieceSiteDeclaration| site_line(s)));
    let mut holder_lines: Vec<String> = Vec::new();
    let mut k: usize = 0;
    while k < holders.len()
        invariant
            k <= holders@.len(),
            holder_lines@.len() == k,
            forall|q: int| 0 <= q < k ==> (#[trigger] holder_lines@[q])@ == holder_line(holders@[q]),
        decreases holders@.len() - k,
    {
        let h = &holders[k];
        let mut line = clone_string(&h.name);
        push_str(&mut line, ":capacity=");
        let c = format_u64(h.capacity as u64);
        push_str(&mut line, c.as_str());
        holder_lines.push(line);
        k += 1;
    }
    assert(strings_view(holder_lines@) =~= holders@.map_values(
        |h: WorkpieceHolderDeclaration| holder_line(h),
    ));
    let mut type_names: Vec<String> = Vec::new();
    let mut k: usize = 0;
    while k < types.len()
        invariant
            k <= types@.len(),
            type_names@.len() == k,
            forall|q: int| 0 <= q < k ==> (#[trigger] type_names@[q])@ == types@[q].name@,
        decreases types@.len() - k,
    {
        type_names.push(clone_string(&types[k].name));
        k += 1;
    }
    assert(strings_view(type_names@) =~= types@.map_values(|t: WorkpieceTypeDeclaration| t.name@));
    let link_count = out_links.len();
    TopologySummary {
        device_count,
        link_count,
        variables: vars,
        workpiece_sites: site_lines,
        workpiece_holders: holder_lines,
        workpiece_types: type_names,
        links: out_links,
    }
}

/// The flowchart model of a program: schema 1, its source and title, its
/// task diagrams (see `assemble_task_diagrams`) and its topology summary.
pub fn build_flowchart_artifact(
    source_plc: String,
    title: String,
    task_names: &Vec<String>,
    steps: &[StepSummary],
    states: &[(String, String)],
    edges: &[EdgeSummary],
    topology: TopologySummary,
) -> (r: FlowchartArtifact)
    ensures
        r.schema_version == 1,
        r.source_plc == source_plc,
        r.title == title,
        r.topology == topology,
        r.tasks@.len() == diagram_names(task_names@, states@).len(),
        forall|i: int|
            0 <= i < r.tasks@.len() ==> diagram_for(
                #[trigger] r.tasks@[i],
                diagram_names(task_names@, states@)[i],
                steps@,
                states@,
                edges@,
            ),
{
    let tasks = assemble_task_diagrams(task_names, steps, states, edges);
    FlowchartArtifact { schema_version: 1, source_plc, title, tasks, topology }
}

} // verus!
