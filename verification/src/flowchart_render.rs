//! The drawn parts of the flowchart report: the model it is drawn from, the
//! notes beside transitions, the SVG text primitives, and the detail tables.
use vstd::prelude::*;
use crate::flowchart_text::{
    canonicalize_flowchart_compare_key, html_escape, lines_view, render_compact_list,
    spec_compare_key, spec_html_escape, spec_render_compact_list, spec_truncate_label,
    spec_wrap_text_lines, truncate_label, wrap_text_lines,
};
use crate::text::{
    chars_of, contains, contains_exec, decimal, format_i32, format_usize, int_decimal, owned,
    push_str,
};

verus! {

// ---------------------------------------------------------------------------
// The flowchart model
// ---------------------------------------------------------------------------

/// A step of a task, with the summaries of its statements.
pub struct StepSummary {
    pub task_name: String,
    pub step_name: String,
    pub source: Option<String>,
    pub line: Option<usize>,
    pub generated: bool,
    pub statements: Vec<String>,
}

/// A transition between two steps, possibly of different tasks.
pub struct EdgeSummary {
    pub from_task: String,
    pub from_step: String,
    pub to_task: String,
    pub to_step: String,
    pub label: String,
    pub guard: String,
    pub actions: Vec<String>,
    pub effects: Vec<String>,
}

/// One task's steps and the transitions that leave them.
pub struct TaskDiagram {
    pub task_name: String,
    pub steps: Vec<StepSummary>,
    pub transitions: Vec<EdgeSummary>,
}

/// Everything the flowchart report shows.
pub struct FlowchartArtifact {
    pub schema_version: u32,
    pub source_plc: String,
    pub title: String,
    pub tasks: Vec<TaskDiagram>,
    pub topology: TopologySummary,
}

/// The counts and names of the program's topology.
pub struct TopologySummary {
    pub device_count: usize,
    pub link_count: usize,
    pub variables: Vec<String>,
    pub workpiece_sites: Vec<String>,
    pub workpiece_holders: Vec<String>,
    pub workpiece_types: Vec<String>,
    pub links: Vec<String>,
}

// ---------------------------------------------------------------------------
// Transition notes
// ---------------------------------------------------------------------------

/// The facts of a transition: its actions, then its effects, each with its
/// kind.
pub open spec fn edge_facts(e: EdgeSummary) -> Seq<(Seq<char>, Seq<char>)> {
    lines_view(e.actions@).map_values(|a: Seq<char>| ("action"@, a)) + lines_view(
        e.effects@,
    ).map_values(|f: Seq<char>| ("effect"@, f))
}

/// Whether one of the step's statement keys already shows a fact.
pub open spec fn fact_is_shown(keys: Seq<Seq<char>>, fact_key: Seq<char>) -> bool {
    exists|i: int| 0 <= i < keys.len() && contains(keys[i], fact_key)
}

/// The wrapped `kind: fact` lines of the facts not already shown by a step
/// statement.
pub open spec fn fact_lines(facts: Seq<(Seq<char>, Seq<char>)>, keys: Seq<Seq<char>>) -> Seq<
    Seq<char>,
>
    decreases facts.len(),
{
    if facts.len() == 0 {
        seq![]
    } else {
        let prev = fact_lines(facts.drop_last(), keys);
        let (kind, fact) = facts.last();
        if fact_is_shown(keys, spec_compare_key(fact)) {
            prev
        } else {
            prev + spec_wrap_text_lines(kind + ": "@ + fact, 34, 3)
        }
    }
}

pub open spec fn spec_transition_fact_lines(e: EdgeSummary, statements: Seq<Seq<char>>) -> Seq<
    Seq<char>,
> {
    fact_lines(edge_facts(e), statements.map_values(|s: Seq<char>| spec_compare_key(s)))
}

fn keys_of(statements: &Vec<String>) -> (r: Vec<String>)
    ensures
        lines_view(r@) == lines_view(statements@).map_values(|s: Seq<char>| spec_compare_key(s)),
{
    let mut out: Vec<String> = Vec::new();
    let mut i: usize = 0;
    while i < statements.len()
        invariant
            i <= statements@.len(),
            out@.len() == i,
            forall|j: int| 0 <= j < i ==> (#[trigger] out@[j])@ == spec_compare_key(statements@[j]@),
        decreases statements@.len() - i,
    {
        out.push(canonicalize_flowchart_compare_key(statements[i].as_str()));
        i += 1;
    }
    assert(lines_view(out@) =~= lines_view(statements@).map_values(
        |s: Seq<char>| spec_compare_key(s),
    ));
    out
}

fn shown_by_any(keys: &Vec<String>, fact_key: &String) -> (r: bool)
    ensures
        r == fact_is_shown(lines_view(keys@), fact_key@),
{
    let fk = chars_of(fact_key.as_str());
    let mut i: usize = 0;
    while i < keys.len()
        invariant
            i <= keys@.len(),
            fk@ == fact_key@,
            forall|j: int| 0 <= j < i ==> !contains(#[trigger] lines_view(keys@)[j], fact_key@),
        decreases keys@.len() - i,
    {
        let k = chars_of(keys[i].as_str());
        if contains_exec(k.as_slice(), fk.as_slice()) {
            assert(contains(lines_view(keys@)[i as int], fact_key@));
            return true;
        }
        i += 1;
    }
    false
}

fn push_fact_lines(
    lines: &mut Vec<String>,
    keys: &Vec<String>,
    kind: &str,
    fact: &String,
    Ghost(facts): Ghost<Seq<(Seq<char>, Seq<char>)>>,
)
    requires
        facts.len() > 0,
        facts.last() == (kind@, fact@),
        lines_view(old(lines)@) == fact_lines(facts.drop_last(), lines_view(keys@)),
    ensures
        lines_view(final(lines)@) == fact_lines(facts, lines_view(keys@)),
{
    let key = canonicalize_flowchart_compare_key(fact.as_str());
    if shown_by_any(keys, &key) {
        return;
    }
    let mut text = owned(kind);
    push_str(&mut text, ": ");
    push_str(&mut text, fact.as_str());
    let wrapped = wrap_text_lines(text.as_str(), 34, 3);
    append_copies(lines, &wrapped);
}

/// The note lines of a transition: each action and effect that no
/// statement of the source step already shows, as wrapped `kind: fact`
/// lines.
pub fn transition_fact_lines(edge: &EdgeSummary, step_statements: &Vec<String>) -> (r: Vec<String>)
    ensures
        lines_view(r@) == spec_transition_fact_lines(*edge, lines_view(step_statements@)),
{
    let keys = keys_of(step_statements);
    let ghost facts = edge_facts(*edge);
    let ghost kv = lines_view(keys@);
    let na = edge.actions.len();
    let mut lines: Vec<String> = Vec::new();
    let mut i: usize = 0;
    while i < na
        invariant
            na == edge.actions@.len(),
            i <= na,
            facts == edge_facts(*edge),
            kv == lines_view(keys@),
            lines_view(lines@) == fact_lines(facts.subrange(0, i as int), kv),
        decreases na - i,
    {
        assert(facts.subrange(0, i + 1).drop_last() =~= facts.subrange(0, i as int));
        push_fact_lines(&mut lines, &keys, "action", &edge.actions[i], Ghost(facts.subrange(0, i + 1)));
        i += 1;
    }
    let mut k: usize = 0;
    while k < edge.effects.len()
        invariant
            na == edge.actions@.len(),
            k <= edge.effects@.len(),
            facts == edge_facts(*edge),
            facts.len() == na + edge.effects@.len(),
            kv == lines_view(keys@),
            lines_view(lines@) == fact_lines(facts.subrange(0, na + k), kv),
        decreases edge.effects@.len() - k,
    {
        assert(facts.subrange(0, na + k + 1).drop_last() =~= facts.subrange(0, na + k));
        push_fact_lines(&mut lines, &keys, "effect", &edge.effects[k], Ghost(facts.subrange(0, na + k + 1)));
        k += 1;
    }
    assert(facts.subrange(0, facts.len() as int) =~= facts);
    lines
}

// ---------------------------------------------------------------------------
// SVG text primitives
// ---------------------------------------------------------------------------

/// One `<text>` element.
pub open spec fn svg_line(x: int, y: int, line: Seq<char>, class_name: Seq<char>, anchor: Seq<char>) -> Seq<char> {
    "<text class=\""@ + class_name + "\" text-anchor=\""@ + anchor + "\" x=\""@ + int_decimal(x)
        + "\" y=\""@ + int_decimal(y) + "\">"@ + spec_html_escape(line) + "</text>\n"@
}

/// One `<text>` element per line, `line_height` apart, starting at `y`.
pub open spec fn svg_lines(
    x: int,
    y: int,
    lines: Seq<Seq<char>>,
    class_name: Seq<char>,
    line_height: int,
    anchor: Seq<char>,
) -> Seq<char>
    decreases lines.len(),
{
    if lines.len() == 0 {
        seq![]
    } else {
        svg_lines(x, y, lines.drop_last(), class_name, line_height, anchor) + svg_line(
            x,
            y + (lines.len() - 1) * line_height,
            lines.last(),
            class_name,
            anchor,
        )
    }
}

fn svg_line_string(x: i32, y: i32, line: &str, class_name: &str, anchor: &str) -> (r: String)
    ensures
        r@ == svg_line(x as int, y as int, line@, class_name@, anchor@),
{
    let mut out = owned("<text class=\"");
    push_str(&mut out, class_name);
    push_str(&mut out, "\" text-anchor=\"");
    push_str(&mut out, anchor);
    push_str(&mut out, "\" x=\"");
    let xs = format_i32(x);
    push_str(&mut out, xs.as_str());
    push_str(&mut out, "\" y=\"");
    let ys = format_i32(y);
    push_str(&mut out, ys.as_str());
    push_str(&mut out, "\">");
    let e = html_escape(line);
    push_str(&mut out, e.as_str());
    push_str(&mut out, "</text>\n");
    out
}

pub fn render_svg_lines(
    out: &mut String,
    x: i32,
    y: i32,
    lines: &Vec<String>,
    class_name: &str,
    line_height: i32,
    anchor: &str,
)
    requires
        0 <= line_height,
        0 <= y,
        lines@.len() <= i32::MAX,
        y + lines@.len() * line_height <= i32::MAX,
    ensures
        final(out)@ == old(out)@ + svg_lines(
            x as int,
            y as int,
            lines_view(lines@),
            class_name@,
            line_height as int,
            anchor@,
        ),
{
    let ghost lv = lines_view(lines@);
    let mut acc = String::new();
    let mut idx: usize = 0;
    while idx < lines.len()
        invariant
            idx <= lines@.len(),
            lv == lines_view(lines@),
            0 <= line_height,
            0 <= y,
            lines@.len() <= i32::MAX,
            y + lines@.len() * line_height <= i32::MAX,
            acc@ == svg_lines(
                x as int,
                y as int,
                lv.subrange(0, idx as int),
                class_name@,
                line_height as int,
                anchor@,
            ),
        decreases lines@.len() - idx,
    {
        assert(lv.subrange(0, idx + 1).drop_last() =~= lv.subrange(0, idx as int));
        assert(idx * line_height <= lines@.len() * line_height) by (nonlinear_arith)
            requires
                idx < lines@.len(),
                0 <= line_height,
        ;
        let yy: i32 = y + (idx as i32) * line_height;
        let piece = svg_line_string(x, yy, lines[idx].as_str(), class_name, anchor);
        push_str(&mut acc, piece.as_str());
        idx += 1;
    }
    assert(lv.subrange(0, lv.len() as int) =~= lv);
    push_str(out, acc.as_str());
}

/// A rounded box with a centred title and subtitle.
pub open spec fn svg_node(
    x: int,
    y: int,
    width: int,
    height: int,
    title: Seq<char>,
    subtitle: Seq<char>,
    class_suffix: Option<Seq<char>>,
) -> Seq<char> {
    let class = match class_suffix {
        Some(suffix) => if suffix.len() > 0 {
            "flow-node "@ + suffix
        } else {
            "flow-node"@
        },
        None => "flow-node"@,
    };
    let text_x = x + width / 2;
    "<g><rect class=\""@ + class + "\" x=\""@ + int_decimal(x) + "\" y=\""@ + int_decimal(y)
        + "\" width=\""@ + int_decimal(width) + "\" height=\""@ + int_decimal(height)
        + "\" rx=\"16\" ry=\"16\"/>\n"@ + "<text text-anchor=\"middle\" x=\""@ + int_decimal(
        text_x,
    ) + "\" y=\""@ + int_decimal(y + 23) + "\"><tspan class=\"flow-title\" x=\""@ + int_decimal(
        text_x,
    ) + "\" dy=\"0\">"@ + spec_html_escape(title) + "</tspan><tspan class=\"flow-subtitle\" x=\""@
        + int_decimal(text_x) + "\" dy=\"20\">"@ + spec_html_escape(subtitle)
        + "</tspan></text></g>\n"@
}

pub open spec fn opt_str_view(o: Option<&str>) -> Option<Seq<char>> {
    match o {
        Some(s) => Some(s@),
        None => None,
    }
}

fn push_i32(out: &mut String, n: i32)
    ensures
        final(out)@ == old(out)@ + int_decimal(n as int),
{
    let s = format_i32(n);
    push_str(out, s.as_str());
}

pub fn render_svg_node(
    out: &mut String,
    x: i32,
    y: i32,
    width: i32,
    height: i32,
    title: &str,
    subtitle: &str,
    class_suffix: Option<&str>,
)
    requires
        0 <= width,
        x + width / 2 <= i32::MAX,
        y + 23 <= i32::MAX,
    ensures
        final(out)@ == old(out)@ + svg_node(
            x as int,
            y as int,
            width as int,
            height as int,
            title@,
            subtitle@,
            opt_str_view(class_suffix),
        ),
{
    let cls = match class_suffix {
        Some(suffix) => {
            let sv = chars_of(suffix);
            if sv.len() > 0 {
                let mut c = owned("flow-node ");
                push_str(&mut c, suffix);
                c
            } else {
                owned("flow-node")
            }
        },
        None => owned("flow-node"),
    };
    let text_x: i32 = x + width / 2;
    let title_y: i32 = y + 23;
    let xs = format_i32(x);
    let ys = format_i32(y);
    let ws = format_i32(width);
    let hs = format_i32(height);
    let txs = format_i32(text_x);
    let tys = format_i32(title_y);
    let t = html_escape(title);
    let st = html_escape(subtitle);
    let mut piece = owned("<g><rect class=\"");
    push_str(&mut piece, cls.as_str());
    push_str(&mut piece, "\" x=\"");
    push_str(&mut piece, xs.as_str());
    push_str(&mut piece, "\" y=\"");
    push_str(&mut piece, ys.as_str());
    push_str(&mut piece, "\" width=\"");
    push_str(&mut piece, ws.as_str());
    push_str(&mut piece, "\" height=\"");
    push_str(&mut piece, hs.as_str());
    push_str(&mut piece, "\" rx=\"16\" ry=\"16\"/>\n");
    push_str(&mut piece, "<text text-anchor=\"middle\" x=\"");
    push_str(&mut piece, txs.as_str());
    push_str(&mut piece, "\" y=\"");
    push_str(&mut piece, tys.as_str());
    push_str(&mut piece, "\"><tspan class=\"flow-title\" x=\"");
    push_str(&mut piece, txs.as_str());
    push_str(&mut piece, "\" dy=\"0\">");
    push_str(&mut piece, t.as_str());
    push_str(&mut piece, "</tspan><tspan class=\"flow-subtitle\" x=\"");
    push_str(&mut piece, txs.as_str());
    push_str(&mut piece, "\" dy=\"20\">");
    push_str(&mut piece, st.as_str());
    push_str(&mut piece, "</tspan></text></g>\n");
    push_str(out, piece.as_str());
}

/// The width of an edge label's background: seven units per character plus
/// a margin, kept between 90 and 360.
pub open spec fn label_width(text_len: int) -> int {
    let w = text_len * 7 + 18;
    if w < 90 {
        90
    } else if w > 360 {
        360
    } else {
        w
    }
}

/// An edge label: its text clipped to 62 characters on a rounded
/// background centred at (`x`, `y`).
pub open spec fn svg_label(x: int, y: int, label: Seq<char>) -> Seq<char> {
    let clipped = spec_truncate_label(label, 62);
    let w = label_width(clipped.len() as int);
    "<g><rect class=\"flow-label-bg\" x=\""@ + int_decimal(x - w / 2) + "\" y=\""@ + int_decimal(
        y - 12,
    ) + "\" width=\""@ + int_decimal(w) + "\" height=\"24\" rx=\"10\" ry=\"10\"/><text class=\"flow-label\" text-anchor=\"middle\" x=\""@
        + int_decimal(x) + "\" y=\""@ + int_decimal(y) + "\">"@ + spec_html_escape(clipped)
        + "</text></g>\n"@
}

pub fn render_svg_label(out: &mut String, x: i32, y: i32, label: &str)
    requires
        x - 180 >= i32::MIN,
        y - 12 >= i32::MIN,
    ensures
        final(out)@ == old(out)@ + svg_label(x as int, y as int, label@),
{
    let clipped = truncate_label(label, 62);
    let cv = chars_of(clipped.as_str());
    let n = cv.len();
    let w: i32 = if n >= 49 {
        360
    } else {
        let raw: i32 = (n as i32) * 7 + 18;
        if raw < 90 {
            90
        } else {
            raw
        }
    };
    assert(w == label_width(clipped@.len() as int));
    let left: i32 = x - w / 2;
    let top: i32 = y - 12;
    let ls = format_i32(left);
    let ts = format_i32(top);
    let ws = format_i32(w);
    let xs = format_i32(x);
    let ys = format_i32(y);
    let e = html_escape(clipped.as_str());
    let mut piece = owned("<g><rect class=\"flow-label-bg\" x=\"");
    push_str(&mut piece, ls.as_str());
    push_str(&mut piece, "\" y=\"");
    push_str(&mut piece, ts.as_str());
    push_str(&mut piece, "\" width=\"");
    push_str(&mut piece, ws.as_str());
    push_str(
        &mut piece,
        "\" height=\"24\" rx=\"10\" ry=\"10\"/><text class=\"flow-label\" text-anchor=\"middle\" x=\"",
    );
    push_str(&mut piece, xs.as_str());
    push_str(&mut piece, "\" y=\"");
    push_str(&mut piece, ys.as_str());
    push_str(&mut piece, "\">");
    push_str(&mut piece, e.as_str());
    push_str(&mut piece, "</text></g>\n");
    push_str(out, piece.as_str());
}

// ---------------------------------------------------------------------------
// Detail tables
// ---------------------------------------------------------------------------

/// Where a step comes from, as the step table shows it.
pub open spec fn step_source_text(s: StepSummary) -> Seq<char> {
    match (s.source, s.line) {
        (Some(src), Some(line)) => src@ + ":"@ + decimal(line as nat),
        _ => if s.generated {
            "generated semantic state"@
        } else {
            "-"@
        },
    }
}

/// Each item as an escaped pill.
pub open spec fn pills(items: Seq<Seq<char>>) -> Seq<char>
    decreases items.len(),
{
    if items.len() == 0 {
        seq![]
    } else {
        pills(items.drop_last()) + "<span class=\"pill\">"@ + spec_html_escape(items.last())
            + "</span>"@
    }
}

pub open spec fn pills_or_dash(items: Seq<Seq<char>>) -> Seq<char> {
    if items.len() == 0 {
        "-"@
    } else {
        pills(items)
    }
}

pub open spec fn step_rows(task_name: Seq<char>, steps: Seq<StepSummary>) -> Seq<char>
    decreases steps.len(),
{
    if steps.len() == 0 {
        seq![]
    } else {
        step_rows(task_name, steps.drop_last()) + "<tr><td><code>"@ + spec_html_escape(task_name)
            + "."@ + spec_html_escape(steps.last().step_name@) + "</code></td><td>"@
            + spec_html_escape(step_source_text(steps.last())) + "</td><td>"@ + pills_or_dash(
            lines_view(steps.last().statements@),
        ) + "</td></tr>"@
    }
}

pub open spec fn edge_rows(edges: Seq<EdgeSummary>) -> Seq<char>
    decreases edges.len(),
{
    if edges.len() == 0 {
        seq![]
    } else {
        edge_rows(edges.drop_last()) + "<tr><td><code>"@ + spec_html_escape(edges.last().from_task@)
            + "."@ + spec_html_escape(edges.last().from_step@) + "</code></td><td><code>"@
            + spec_html_escape(edges.last().to_task@) + "."@ + spec_html_escape(
            edges.last().to_step@,
        ) + "</code></td><td>"@ + spec_html_escape(edges.last().guard@) + "</td><td>"@
            + pills_or_dash(lines_view(edges.last().actions@) + lines_view(edges.last().effects@))
            + "</td></tr>"@
    }
}

pub const STEP_TABLE_HEAD: &'static str = "<h3>Step 明细</h3><table><thead><tr><th>Step</th><th>Source</th><th>Statements</th></tr></thead><tbody>";

pub const EDGE_TABLE_HEAD: &'static str = "</tbody></table><h3>Transition 明细</h3><table><thead><tr><th>From</th><th>To</th><th>Guard</th><th>Actions / Effects</th></tr></thead><tbody>";

/// The step table and the transition table of a task.
pub open spec fn spec_render_task_table(task: TaskDiagram) -> Seq<char> {
    STEP_TABLE_HEAD@ + step_rows(task.task_name@, task.steps@) + EDGE_TABLE_HEAD@ + edge_rows(
        task.transitions@,
    ) + "</tbody></table>"@
}

proof fn lemma_pills_append(a: Seq<Seq<char>>, b: Seq<Seq<char>>)
    ensures
        pills(a + b) == pills(a) + pills(b),
    decreases b.len(),
{
    if b.len() == 0 {
        assert(a + b =~= a);
    } else {
        assert((a + b).drop_last() =~= a + b.drop_last());
        lemma_pills_append(a, b.drop_last());
    }
}

fn pills_string(items: &Vec<String>) -> (r: String)
    ensures
        r@ == pills(lines_view(items@)),
{
    let ghost iv = lines_view(items@);
    let mut out = String::new();
    let mut i: usize = 0;
    while i < items.len()
        invariant
            i <= items@.len(),
            iv == lines_view(items@),
            out@ == pills(iv.subrange(0, i as int)),
        decreases items@.len() - i,
    {
        assert(iv.subrange(0, i + 1).drop_last() =~= iv.subrange(0, i as int));
        push_str(&mut out, "<span class=\"pill\">");
        let e = html_escape(items[i].as_str());
        push_str(&mut out, e.as_str());
        push_str(&mut out, "</span>");
        i += 1;
    }
    assert(iv.subrange(0, iv.len() as int) =~= iv);
    out
}

fn step_source_string(s: &StepSummary) -> (r: String)
    ensures
        r@ == step_source_text(*s),
{
    match (&s.source, s.line) {
        (Some(src), Some(line)) => {
            let mut out = owned(src.as_str());
            push_str(&mut out, ":");
            let d = format_usize(line);
            push_str(&mut out, d.as_str());
            out
        },
        _ => if s.generated {
            owned("generated semantic state")
        } else {
            owned("-")
        },
    }
}

fn step_rows_string(task: &TaskDiagram) -> (r: String)
    ensures
        r@ == step_rows(task.task_name@, task.steps@),
{
    let mut rows = String::new();
    let mut i: usize = 0;
    while i < task.steps.len()
        invariant
            i <= task.steps@.len(),
            rows@ == step_rows(task.task_name@, task.steps@.subrange(0, i as int)),
        decreases task.steps@.len() - i,
    {
        assert(task.steps@.subrange(0, i + 1).drop_last() =~= task.steps@.subrange(0, i as int));
        let step = &task.steps[i];
        let a = html_escape(task.task_name.as_str());
        let b = html_escape(step.step_name.as_str());
        let src = step_source_string(step);
        let c = html_escape(src.as_str());
        let stmts = if step.statements.len() == 0 {
            owned("-")
        } else {
            pills_string(&step.statements)
        };
        push_str(&mut rows, "<tr><td><code>");
        push_str(&mut rows, a.as_str());
        push_str(&mut rows, ".");
        push_str(&mut rows, b.as_str());
        push_str(&mut rows, "</code></td><td>");
        push_str(&mut rows, c.as_str());
        push_str(&mut rows, "</td><td>");
        push_str(&mut rows, stmts.as_str());
        push_str(&mut rows, "</td></tr>");
        i += 1;
    }
    assert(task.steps@.subrange(0, task.steps@.len() as int) =~= task.steps@);
    rows
}

fn facts_pills(e: &EdgeSummary) -> (r: String)
    ensures
        r@ == pills_or_dash(lines_view(e.actions@) + lines_view(e.effects@)),
{
    if e.actions.len() == 0 && e.effects.len() == 0 {
        assert(lines_view(e.actions@) + lines_view(e.effects@) =~= Seq::<Seq<char>>::empty());
        return owned("-");
    }
    let a = pills_string(&e.actions);
    let b = pills_string(&e.effects);
    let mut out = String::new();
    push_str(&mut out, a.as_str());
    push_str(&mut out, b.as_str());
    proof {
        lemma_pills_append(lines_view(e.actions@), lines_view(e.effects@));
    }
    assert(out@ =~= pills(lines_view(e.actions@) + lines_view(e.effects@)));
    out
}

fn edge_rows_string(task: &TaskDiagram) -> (r: String)
    ensures
        r@ == edge_rows(task.transitions@),
{
    let mut rows = String::new();
    let mut k: usize = 0;
    while k < task.transitions.len()
        invariant
            k <= task.transitions@.len(),
            rows@ == edge_rows(task.transitions@.subrange(0, k as int)),
        decreases task.transitions@.len() - k,
    {
        assert(task.transitions@.subrange(0, k + 1).drop_last() =~= task.transitions@.subrange(
            0,
            k as int,
        ));
        let e = &task.transitions[k];
        let t1 = html_escape(e.from_task.as_str());
        let t2 = html_escape(e.from_step.as_str());
        let t3 = html_escape(e.to_task.as_str());
        let t4 = html_escape(e.to_step.as_str());
        let t5 = html_escape(e.guard.as_str());
        let f = facts_pills(e);
        push_str(&mut rows, "<tr><td><code>");
        push_str(&mut rows, t1.as_str());
        push_str(&mut rows, ".");
        push_str(&mut rows, t2.as_str());
        push_str(&mut rows, "</code></td><td><code>");
        push_str(&mut rows, t3.as_str());
        push_str(&mut rows, ".");
        push_str(&mut rows, t4.as_str());
        push_str(&mut rows, "</code></td><td>");
        push_str(&mut rows, t5.as_str());
        push_str(&mut rows, "</td><td>");
        push_str(&mut rows, f.as_str());
        push_str(&mut rows, "</td></tr>");
        k += 1;
    }
    assert(task.transitions@.subrange(0, task.transitions@.len() as int) =~= task.transitions@);
    rows
}

/// The step table and the transition table of a task, as the report's
/// detail view shows them.
pub fn render_task_table(task: &TaskDiagram) -> (r: String)
    ensures
        r@ == spec_render_task_table(*task),
{
    let srows = step_rows_string(task);
    let erows = edge_rows_string(task);
    let mut out = owned(STEP_TABLE_HEAD);
    push_str(&mut out, srows.as_str());
    push_str(&mut out, EDGE_TABLE_HEAD);
    push_str(&mut out, erows.as_str());
    push_str(&mut out, "</tbody></table>");
    out
}

/// The topology cards: the counts, the variables, the workpiece types,
/// sites and holders, and the links.
pub open spec fn spec_render_topology_html(t: TopologySummary) -> Seq<char> {
    "<div class=\"topology-grid\"><div class=\"card\"><h3>Counts</h3><p>devices: <code>"@
        + decimal(t.device_count as nat) + "</code></p><p>links: <code>"@ + decimal(
        t.link_count as nat,
    ) + "</code></p></div><div class=\"card\"><h3>Variables</h3>"@ + spec_render_compact_list(
        lines_view(t.variables@),
    ) + "</div><div class=\"card\"><h3>Workpieces</h3>"@ + spec_render_compact_list(
        lines_view(t.workpiece_types@) + lines_view(t.workpiece_sites@) + lines_view(
            t.workpiece_holders@,
        ),
    ) + "</div><div class=\"card\"><h3>Links</h3>"@ + spec_render_compact_list(
        lines_view(t.links@),
    ) + "</div></div>"@
}

fn append_copies(dst: &mut Vec<String>, src: &Vec<String>)
    ensures
        lines_view(final(dst)@) == lines_view(old(dst)@) + lines_view(src@),
{
    let ghost d0 = dst@;
    let mut i: usize = 0;
    while i < src.len()
        invariant
            i <= src@.len(),
            dst@.len() == d0.len() + i,
            forall|j: int| 0 <= j < d0.len() ==> (#[trigger] dst@[j])@ == d0[j]@,
            forall|j: int| 0 <= j < i ==> (#[trigger] dst@[d0.len() + j])@ == src@[j]@,
        decreases src@.len() - i,
    {
        dst.push(owned(src[i].as_str()));
        i += 1;
    }
    assert forall|j: int| 0 <= j < dst@.len() implies lines_view(dst@)[j] == (lines_view(d0) + lines_view(src@))[j] by {
        if j >= d0.len() {
            assert(dst@[d0.len() + (j - d0.len())]@ == src@[j - d0.len()]@);
        }
    }
    assert(lines_view(dst@) =~= lines_view(d0) + lines_view(src@));
}

pub fn render_topology_html(topology: &TopologySummary) -> (r: String)
    ensures
        r@ == spec_render_topology_html(*topology),
{
    let d = format_usize(topology.device_count);
    let l = format_usize(topology.link_count);
    let v = render_compact_list(&topology.variables);
    let mut wp: Vec<String> = Vec::new();
    append_copies(&mut wp, &topology.workpiece_types);
    append_copies(&mut wp, &topology.workpiece_sites);
    append_copies(&mut wp, &topology.workpiece_holders);
    let w = render_compact_list(&wp);
    let k = render_compact_list(&topology.links);
    let mut out = owned(
        "<div class=\"topology-grid\"><div class=\"card\"><h3>Counts</h3><p>devices: <code>",
    );
    push_str(&mut out, d.as_str());
    push_str(&mut out, "</code></p><p>links: <code>");
    push_str(&mut out, l.as_str());
    push_str(&mut out, "</code></p></div><div class=\"card\"><h3>Variables</h3>");
    push_str(&mut out, v.as_str());
    push_str(&mut out, "</div><div class=\"card\"><h3>Workpieces</h3>");
    push_str(&mut out, w.as_str());
    push_str(&mut out, "</div><div class=\"card\"><h3>Links</h3>");
    push_str(&mut out, k.as_str());
    push_str(&mut out, "</div></div>");
    out
}

} // verus!
