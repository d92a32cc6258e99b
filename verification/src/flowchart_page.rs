//! The flowchart report page: the overview of tasks and the HTML document
//! that holds the charts, tables and model.
use vstd::prelude::*;
use crate::flowchart_assets::{
    PAGE_HEAD, PAGE_NAV_OPEN, PAGE_SCENES, page_script, page_style, push_page_script,
    push_page_style,
};
use crate::flowchart_render::{
    FlowchartArtifact, TaskDiagram, opt_str_view, render_svg_label, render_svg_node,
    render_topology_html, spec_render_topology_html, svg_label, svg_node,
};
use crate::flowchart_text::{html_escape, spec_html_escape, spec_task_role, task_role_label};
use crate::task_svg::{render_task_svg, spec_render_task_svg, svg_fits_i32};
use crate::text::{
    chars_of, decimal, eq_chars, format_i32, format_usize, int_decimal, owned, push_str,
    replace_all, replace_all_exec, string_of,
};

verus! {

// ---------------------------------------------------------------------------
// The overview
// ---------------------------------------------------------------------------

/// The top-left corner of the `idx`-th task's box: two columns, rows of 100.
pub open spec fn node_x(idx: int) -> int {
    if idx % 2 == 0 {
        52
    } else {
        420
    }
}

pub open spec fn node_y(idx: int) -> int {
    44 + (idx / 2) * 100
}

/// The box of the last task with the given name.
pub open spec fn task_pos_below(tasks: Seq<TaskDiagram>, name: Seq<char>, m: int) -> Option<int>
    decreases m,
{
    if m <= 0 {
        None
    } else if tasks[m - 1].task_name@ == name {
        Some(m - 1)
    } else {
        task_pos_below(tasks, name, m - 1)
    }
}

pub open spec fn task_pos(tasks: Seq<TaskDiagram>, name: Seq<char>) -> Option<int> {
    task_pos_below(tasks, name, tasks.len() as int)
}

/// The (from task, to task) pair of every transition of every task, in
/// order.
pub open spec fn task_pairs(tasks: Seq<TaskDiagram>) -> Seq<(Seq<char>, Seq<char>)>
    decreases tasks.len(),
{
    if tasks.len() == 0 {
        seq![]
    } else {
        task_pairs(tasks.drop_last()) + tasks.last().transitions@.map_values(
            |e: crate::flowchart_render::EdgeSummary| (e.from_task@, e.to_task@),
        )
    }
}

/// The curve of an edge between two task boxes: through a side lane when
/// both are in one column, across the middle otherwise.
pub open spec fn overview_path(fx: int, fy: int, tx: int, ty: int) -> Seq<char> {
    let from_cy = fy + 31;
    let to_cy = ty + 31;
    if fx == tx {
        let lane_x = if fx == 52 {
            20
        } else {
            712
        };
        "M "@ + int_decimal(fx + 130) + " "@ + int_decimal(from_cy) + " C "@ + int_decimal(lane_x)
            + " "@ + int_decimal(from_cy) + ", "@ + int_decimal(lane_x) + " "@ + int_decimal(to_cy)
            + ", "@ + int_decimal(tx + 130) + " "@ + int_decimal(to_cy)
    } else {
        let from_cx = fx + 260;
        let mid = (from_cx + tx) / 2;
        "M "@ + int_decimal(from_cx) + " "@ + int_decimal(from_cy) + " C "@ + int_decimal(mid) + " "@
            + int_decimal(from_cy) + ", "@ + int_decimal(mid) + " "@ + int_decimal(to_cy) + ", "@
            + int_decimal(tx) + " "@ + int_decimal(to_cy)
    }
}

/// The drawing of one edge between task boxes: its curve and its label.
pub open spec fn overview_edge(from: Seq<char>, to: Seq<char>, fx: int, fy: int, tx: int, ty: int) -> Seq<char> {
    let label_x = if fx == tx {
        fx + 130
    } else {
        (fx + 260 + tx) / 2
    };
    "<path class=\"flow-edge external\" d=\""@ + overview_path(fx, fy, tx, ty) + "\"/>\n"@ + svg_label(
        label_x,
        ((fy + 31 + ty + 31) / 2) - 10,
        from + " \u{2192} "@ + to,
    )
}

/// Whether the `k`-th pair is drawn: it joins two different tasks, is the
/// first of its kind, and both tasks have a box.
pub open spec fn pair_drawn(tasks: Seq<TaskDiagram>, pairs: Seq<(Seq<char>, Seq<char>)>, k: int) -> bool {
    &&& pairs[k].0 != pairs[k].1
    &&& !(exists|j: int| 0 <= j < k && #[trigger] pairs[j] == pairs[k])
    &&& task_pos(tasks, pairs[k].0) is Some
    &&& task_pos(tasks, pairs[k].1) is Some
}

pub open spec fn overview_edges(tasks: Seq<TaskDiagram>, pairs: Seq<(Seq<char>, Seq<char>)>, m: int) -> Seq<char>
    decreases m,
{
    if m <= 0 {
        seq![]
    } else {
        overview_edges(tasks, pairs, m - 1) + if pair_drawn(tasks, pairs, m - 1) {
            let f = task_pos(tasks, pairs[m - 1].0).unwrap();
            let t = task_pos(tasks, pairs[m - 1].1).unwrap();
            overview_edge(pairs[m - 1].0, pairs[m - 1].1, node_x(f), node_y(f), node_x(t), node_y(t))
        } else {
            seq![]
        }
    }
}

pub open spec fn overview_nodes(tasks: Seq<TaskDiagram>, m: int) -> Seq<char>
    decreases m,
{
    if m <= 0 {
        seq![]
    } else {
        overview_nodes(tasks, m - 1) + svg_node(
            node_x(m - 1),
            node_y(m - 1),
            260,
            62,
            tasks[m - 1].task_name@,
            "task"@,
            None,
        )
    }
}

pub const OVERVIEW_DEFS: &'static str = "<defs><marker id=\"arrow\" markerWidth=\"12\" markerHeight=\"12\" refX=\"10\" refY=\"6\" orient=\"auto\" markerUnits=\"strokeWidth\"><path d=\"M0,0 L12,6 L0,12 z\" fill=\"#64748b\"/></marker></defs>";

/// The overview of a project: a box per task, two per row, and one labelled
/// curve per pair of tasks that a transition joins.
/// The overview is laid out in `i32`: its height, and for every edge drawn
/// the sum of the two box centres that places the edge's label, fit in an
/// `i32`.
pub open spec fn overview_fits_i32(tasks: Seq<TaskDiagram>) -> bool {
    let rows = (tasks.len() + 1) / 2;
    &&& 44 + (if rows >= 1 {
        rows
    } else {
        1
    }) * 100 + 80 <= 2_147_483_647
    &&& forall|k: int|
        0 <= k < task_pairs(tasks).len() && #[trigger] pair_drawn(tasks, task_pairs(tasks), k)
            ==> node_y(task_pos(tasks, task_pairs(tasks)[k].0).unwrap()) + 31 + node_y(
            task_pos(tasks, task_pairs(tasks)[k].1).unwrap(),
        ) + 31 <= 2_147_483_647
}

pub open spec fn spec_render_overview_svg(model: FlowchartArtifact) -> Seq<char> {
    let t = model.tasks@;
    let rows = (t.len() + 1) / 2;
    let height = 44 + (if rows >= 1 {
        rows
    } else {
        1
    }) * 100 + 80;
    "<svg class=\"flow-svg\" viewBox=\"0 0 760 "@ + int_decimal(height as int)
        + "\" role=\"img\" aria-label=\"project overview flowchart\" xmlns=\"http://www.w3.org/2000/svg\">"@
        + OVERVIEW_DEFS@ + overview_nodes(t, t.len() as int) + overview_edges(
        t,
        task_pairs(t),
        task_pairs(t).len() as int,
    ) + "</svg>"@
}

pub open spec fn pairs_view(v: Seq<(String, String)>) -> Seq<(Seq<char>, Seq<char>)> {
    v.map_values(|p: (String, String)| (p.0@, p.1@))
}

fn collect_pairs(tasks: &Vec<TaskDiagram>) -> (r: Vec<(String, String)>)
    ensures
        pairs_view(r@) == task_pairs(tasks@),
{
    let mut out: Vec<(String, String)> = Vec::new();
    let mut t: usize = 0;
    while t < tasks.len()
        invariant
            t <= tasks@.len(),
            pairs_view(out@) == task_pairs(tasks@.subrange(0, t as int)),
        decreases tasks@.len() - t,
    {
        let ghost base = pairs_view(out@);
        let trs = &tasks[t].transitions;
        let mut k: usize = 0;
        while k < trs.len()
            invariant
                k <= trs@.len(),
                out@.len() == base.len() + k,
                forall|i: int| 0 <= i < base.len() ==> (#[trigger] out@[i]).0@ == base[i].0 && out@[i].1@ == base[i].1,
                forall|i: int| 0 <= i < k ==> (#[trigger] out@[base.len() + i]).0@ == trs@[i].from_task@ && out@[base.len() + i].1@ == trs@[i].to_task@,
            decreases trs@.len() - k,
        {
            out.push((owned(trs[k].from_task.as_str()), owned(trs[k].to_task.as_str())));
            k += 1;
        }
        assert(tasks@.subrange(0, t + 1).drop_last() =~= tasks@.subrange(0, t as int));
        assert(tasks@.subrange(0, t + 1).last() == tasks@[t as int]);
        let ghost added = trs@.map_values(
            |e: crate::flowchart_render::EdgeSummary| (e.from_task@, e.to_task@),
        );
        assert forall|i: int| 0 <= i < out@.len() implies #[trigger] pairs_view(out@)[i] == (base + added)[i] by {
            if i >= base.len() {
                assert(out@[base.len() + (i - base.len())] == out@[i]);
            }
        }
        assert(pairs_view(out@) =~= base + added);
        assert(pairs_view(out@) =~= task_pairs(tasks@.subrange(0, t + 1)));
        t += 1;
    }
    assert(tasks@.subrange(0, tasks@.len() as int) =~= tasks@);
    out
}

fn find_task(tasks: &Vec<TaskDiagram>, name: &String) -> (r: Option<usize>)
    ensures
        match r {
            Some(k) => task_pos(tasks@, name@) == Some(k as int) && k < tasks@.len(),
            None => task_pos(tasks@, name@) is None,
        },
{
    let nv = chars_of(name.as_str());
    let mut m: usize = tasks.len();
    while m > 0
        invariant
            m <= tasks@.len(),
            nv@ == name@,
            task_pos(tasks@, name@) == task_pos_below(tasks@, name@, m as int),
        decreases m,
    {
        let tv = chars_of(tasks[m - 1].task_name.as_str());
        if eq_chars(tv.as_slice(), nv.as_slice()) {
            return Some(m - 1);
        }
        m -= 1;
    }
    None
}

fn push_num(out: &mut String, n: i32)
    ensures
        final(out)@ == old(out)@ + int_decimal(n as int),
{
    let s = format_i32(n);
    push_str(out, s.as_str());
}

fn overview_path_string(fx: i32, fy: i32, tx: i32, ty: i32) -> (r: String)
    requires
        0 <= fx <= 420,
        0 <= tx <= 420,
        0 <= fy,
        0 <= ty,
        fy + 31 + ty + 31 <= 2_147_483_647,
    ensures
        r@ == overview_path(fx as int, fy as int, tx as int, ty as int),
{
    let from_cy: i32 = fy + 31;
    let to_cy: i32 = ty + 31;
    let mut out = owned("M ");
    if fx == tx {
        let lane_x: i32 = if fx == 52 {
            20
        } else {
            712
        };
        push_num(&mut out, fx + 130);
        push_str(&mut out, " ");
        push_num(&mut out, from_cy);
        push_str(&mut out, " C ");
        push_num(&mut out, lane_x);
        push_str(&mut out, " ");
        push_num(&mut out, from_cy);
        push_str(&mut out, ", ");
        push_num(&mut out, lane_x);
        push_str(&mut out, " ");
        push_num(&mut out, to_cy);
        push_str(&mut out, ", ");
        push_num(&mut out, tx + 130);
        push_str(&mut out, " ");
        push_num(&mut out, to_cy);
    } else {
        let from_cx: i32 = fx + 260;
        let mid: i32 = (from_cx + tx) / 2;
        push_num(&mut out, from_cx);
        push_str(&mut out, " ");
        push_num(&mut out, from_cy);
        push_str(&mut out, " C ");
        push_num(&mut out, mid);
        push_str(&mut out, " ");
        push_num(&mut out, from_cy);
        push_str(&mut out, ", ");
        push_num(&mut out, mid);
        push_str(&mut out, " ");
        push_num(&mut out, to_cy);
        push_str(&mut out, ", ");
        push_num(&mut out, tx);
        push_str(&mut out, " ");
        push_num(&mut out, to_cy);
    }
    out
}

fn overview_edge_string(from: &String, to: &String, fx: i32, fy: i32, tx: i32, ty: i32) -> (r: String)
    requires
        0 <= fx <= 420,
        0 <= tx <= 420,
        0 <= fy,
        0 <= ty,
        fy + 31 + ty + 31 <= 2_147_483_647,
    ensures
        r@ == overview_edge(from@, to@, fx as int, fy as int, tx as int, ty as int),
{
    let path = overview_path_string(fx, fy, tx, ty);
    let label_x: i32 = if fx == tx {
        fx + 130
    } else {
        (fx + 260 + tx) / 2
    };
    let ly: i32 = ((fy / 2 + ty / 2) + ((fy % 2 + ty % 2 + 62) / 2)) - 10;
    assert(ly as int == ((fy + 31 + ty + 31) / 2) - 10) by (nonlinear_arith)
        requires
            0 <= fy,
            0 <= ty,
            ly as int == ((fy / 2 + ty / 2) + ((fy % 2 + ty % 2 + 62) / 2)) - 10,
    ;
    let mut text = owned(from.as_str());
    push_str(&mut text, " \u{2192} ");
    push_str(&mut text, to.as_str());
    let mut label = String::new();
    render_svg_label(&mut label, label_x, ly, text.as_str());
    let mut out = owned("<path class=\"flow-edge external\" d=\"");
    push_str(&mut out, path.as_str());
    push_str(&mut out, "\"/>\n");
    push_str(&mut out, label.as_str());
    assert(out@ =~= overview_edge(from@, to@, fx as int, fy as int, tx as int, ty as int));
    out
}

fn pair_seen_before(pairs: &Vec<(String, String)>, k: usize) -> (r: bool)
    requires
        k < pairs@.len(),
    ensures
        r == (exists|j: int| 0 <= j < k && #[trigger] pairs_view(pairs@)[j] == pairs_view(pairs@)[k as int]),
{
    let ghost pv = pairs_view(pairs@);
    let a0 = chars_of(pairs[k].0.as_str());
    let a1 = chars_of(pairs[k].1.as_str());
    let mut j: usize = 0;
    while j < k
        invariant
            j <= k < pairs@.len(),
            pv == pairs_view(pairs@),
            a0@ == pv[k as int].0,
            a1@ == pv[k as int].1,
            forall|i: int| 0 <= i < j ==> #[trigger] pv[i] != pv[k as int],
        decreases k - j,
    {
        let b0 = chars_of(pairs[j].0.as_str());
        let b1 = chars_of(pairs[j].1.as_str());
        if eq_chars(b0.as_slice(), a0.as_slice()) && eq_chars(b1.as_slice(), a1.as_slice()) {
            assert(pv[j as int] == pv[k as int]);
            return true;
        }
        j += 1;
    }
    false
}

/// The overview of the project's tasks.
pub fn render_overview_svg(model: &FlowchartArtifact) -> (r: String)
    requires
        overview_fits_i32(model.tasks@),
    ensures
        r@ == spec_render_overview_svg(*model),
{
    let tasks = &model.tasks;
    let nt = tasks.len();
    let rows: usize = (nt + 1) / 2;
    let rows_or_one: usize = if rows >= 1 {
        rows
    } else {
        1
    };
    let height: i32 = 44 + (rows_or_one as i32) * 100 + 80;
    let mut nodes = String::new();
    let mut i: usize = 0;
    while i < nt
        invariant
            i <= nt == tasks@.len(),
            overview_fits_i32(tasks@),
            nodes@ == overview_nodes(tasks@, i as int),
        decreases nt - i,
    {
        let x: i32 = if i % 2 == 0 {
            52
        } else {
            420
        };
        let y: i32 = 44 + ((i / 2) as i32) * 100;
        render_svg_node(&mut nodes, x, y, 260, 62, tasks[i].task_name.as_str(), "task", None);
        proof {
            reveal_strlit("task");
            assert(opt_str_view(None) == None::<Seq<char>>);
        }
        i += 1;
    }
    let pairs = collect_pairs(tasks);
    let ghost pv = pairs_view(pairs@);
    let mut edges = String::new();
    let mut k: usize = 0;
    while k < pairs.len()
        invariant
            k <= pairs@.len(),
            pv == pairs_view(pairs@),
            pv == task_pairs(tasks@),
            overview_fits_i32(tasks@),
            edges@ == overview_edges(tasks@, pv, k as int),
        decreases pairs@.len() - k,
    {
        let f = chars_of(pairs[k].0.as_str());
        let t = chars_of(pairs[k].1.as_str());
        let mut piece = String::new();
        if !eq_chars(f.as_slice(), t.as_slice()) && !pair_seen_before(&pairs, k) {
            match (find_task(tasks, &pairs[k].0), find_task(tasks, &pairs[k].1)) {
                (Some(fi), Some(ti)) => {
                    let fx: i32 = if fi % 2 == 0 {
                        52
                    } else {
                        420
                    };
                    let fy: i32 = 44 + ((fi / 2) as i32) * 100;
                    let tx: i32 = if ti % 2 == 0 {
                        52
                    } else {
                        420
                    };
                    let ty: i32 = 44 + ((ti / 2) as i32) * 100;
                    assert(pair_drawn(tasks@, pv, k as int));
                    piece = overview_edge_string(&pairs[k].0, &pairs[k].1, fx, fy, tx, ty);
                },
                _ => {},
            }
        }
        push_str(&mut edges, piece.as_str());
        k += 1;
    }
    let mut out = owned("<svg class=\"flow-svg\" viewBox=\"0 0 760 ");
    push_num(&mut out, height);
    push_str(
        &mut out,
        "\" role=\"img\" aria-label=\"project overview flowchart\" xmlns=\"http://www.w3.org/2000/svg\">",
    );
    push_str(&mut out, OVERVIEW_DEFS);
    push_str(&mut out, nodes.as_str());
    push_str(&mut out, edges.as_str());
    push_str(&mut out, "</svg>");
    out
}

// ---------------------------------------------------------------------------
// The page
// ---------------------------------------------------------------------------

/// The model's JSON made safe inside a `<script>` element: `<`, `>` and `&`
/// written as JSON unicode escapes.
pub open spec fn spec_escape_json_for_html(json: Seq<char>) -> Seq<char> {
    replace_all(replace_all(replace_all(json, "<"@, "\\u003c"@), ">"@, "\\u003e"@), "&"@, "\\u0026"@)
}

pub fn escape_json_for_html(json: &str) -> (r: String)
    ensures
        r@ == spec_escape_json_for_html(json@),
{
    let v = chars_of(json);
    let lt = chars_of("<");
    let gt = chars_of(">");
    let amp = chars_of("&");
    let e1 = chars_of("\\u003c");
    let e2 = chars_of("\\u003e");
    let e3 = chars_of("\\u0026");
    proof {
        reveal_strlit("<");
        reveal_strlit(">");
        reveal_strlit("&");
    }
    let a = replace_all_exec(v.as_slice(), lt.as_slice(), e1.as_slice());
    let b = replace_all_exec(a.as_slice(), gt.as_slice(), e2.as_slice());
    let c = replace_all_exec(b.as_slice(), amp.as_slice(), e3.as_slice());
    string_of(c.as_slice())
}

pub open spec fn task_nav(tasks: Seq<TaskDiagram>, m: int) -> Seq<char>
    decreases m,
{
    if m <= 0 {
        seq![]
    } else {
        task_nav(tasks, m - 1) + "<button class=\"task-button\" data-task=\""@ + spec_html_escape(
            tasks[m - 1].task_name@,
        ) + "\">"@ + spec_html_escape(tasks[m - 1].task_name@) + "<small>"@ + spec_html_escape(
            spec_task_role(tasks[m - 1].task_name@),
        ) + "</small></button>\n"@
    }
}

pub open spec fn task_templates(tasks: Seq<TaskDiagram>, m: int) -> Seq<char>
    decreases m,
{
    if m <= 0 {
        seq![]
    } else {
        task_templates(tasks, m - 1) + "<template data-task=\""@ + spec_html_escape(
            tasks[m - 1].task_name@,
        ) + "\">"@ + spec_render_task_svg(tasks[m - 1]) + "</template>\n"@
    }
}

pub open spec fn transitions_total(tasks: Seq<TaskDiagram>, m: int) -> nat
    decreases m,
{
    if m <= 0 {
        0
    } else {
        transitions_total(tasks, m - 1) + tasks[m - 1].transitions@.len()
    }
}

/// The report page: header with counts, navigation, the fixed scenes, the
/// topology ledger, the model's JSON, a chart template per task, and the
/// page's style and script.
pub open spec fn spec_render_html(model: FlowchartArtifact, model_json: Seq<char>) -> Seq<char> {
    let t = model.tasks@;
    PAGE_HEAD@ + spec_html_escape(model.title@) + "</title><style>"@ + page_style()
        + "</style></head><body><header class=\"hero\"><h1>"@ + spec_html_escape(model.title@)
        + "</h1><div class=\"hero-summary\"><span>source: <code>"@ + spec_html_escape(
        model.source_plc@,
    ) + "</code></span><span>tasks: "@ + decimal(t.len()) + "</span><span>transitions: "@
        + decimal(transitions_total(t, t.len() as int)) + "</span></div>"@ + PAGE_NAV_OPEN@
        + task_nav(t, t.len() as int) + PAGE_SCENES@ + spec_render_topology_html(model.topology)
        + "</section></div></main><script id=\"flowchart-model\" type=\"application/json\">"@
        + spec_escape_json_for_html(model_json)
        + "</script><div id=\"task-templates\" class=\"task-templates\">"@ + task_templates(
        t,
        t.len() as int,
    ) + "</div><script>"@ + page_script() + "</script></body></html>"@
}

/// The report page of a model; `model_json` is the model serialized as
/// JSON.
pub fn render_html(model: &FlowchartArtifact, model_json: &str) -> (r: String)
    requires
        forall|i: int| 0 <= i < model.tasks@.len() ==> svg_fits_i32(#[trigger] model.tasks@[i]),
        transitions_total(model.tasks@, model.tasks@.len() as int) <= usize::MAX,
    ensures
        r@ == spec_render_html(*model, model_json@),
{
    let tasks = &model.tasks;
    let nt = tasks.len();
    let mut nav = String::new();
    let mut i: usize = 0;
    while i < nt
        invariant
            i <= nt == tasks@.len(),
            nav@ == task_nav(tasks@, i as int),
        decreases nt - i,
    {
        let name = tasks[i].task_name.as_str();
        let e = html_escape(name);
        let role = html_escape(task_role_label(name));
        push_str(&mut nav, "<button class=\"task-button\" data-task=\"");
        push_str(&mut nav, e.as_str());
        push_str(&mut nav, "\">");
        push_str(&mut nav, e.as_str());
        push_str(&mut nav, "<small>");
        push_str(&mut nav, role.as_str());
        push_str(&mut nav, "</small></button>\n");
        i += 1;
    }
    let mut templates = String::new();
    let mut total: usize = 0;
    let mut k: usize = 0;
    while k < nt
        invariant
            k <= nt == tasks@.len(),
            forall|i: int| 0 <= i < tasks@.len() ==> svg_fits_i32(#[trigger] tasks@[i]),
            transitions_total(tasks@, nt as int) <= usize::MAX,
            templates@ == task_templates(tasks@, k as int),
            total as int == transitions_total(tasks@, k as int),
        decreases nt - k,
    {
        proof {
            lemma_total_mono(tasks@, k as int + 1, nt as int);
        }
        let e = html_escape(tasks[k].task_name.as_str());
        let svg = render_task_svg(&tasks[k]);
        push_str(&mut templates, "<template data-task=\"");
        push_str(&mut templates, e.as_str());
        push_str(&mut templates, "\">");
        push_str(&mut templates, svg.as_str());
        push_str(&mut templates, "</template>\n");
        total = total + tasks[k].transitions.len();
        k += 1;
    }
    let title = html_escape(model.title.as_str());
    let source = html_escape(model.source_plc.as_str());
    let count = format_usize(nt);
    let total_s = format_usize(total);
    let topo = render_topology_html(&model.topology);
    let json = escape_json_for_html(model_json);
    let mut out = owned(PAGE_HEAD);
    push_str(&mut out, title.as_str());
    push_str(&mut out, "</title><style>");
    push_page_style(&mut out);
    push_str(&mut out, "</style></head><body><header class=\"hero\"><h1>");
    push_str(&mut out, title.as_str());
    push_str(&mut out, "</h1><div class=\"hero-summary\"><span>source: <code>");
    push_str(&mut out, source.as_str());
    push_str(&mut out, "</code></span><span>tasks: ");
    push_str(&mut out, count.as_str());
    push_str(&mut out, "</span><span>transitions: ");
    push_str(&mut out, total_s.as_str());
    push_str(&mut out, "</span></div>");
    push_str(&mut out, PAGE_NAV_OPEN);
    push_str(&mut out, nav.as_str());
    push_str(&mut out, PAGE_SCENES);
    push_str(&mut out, topo.as_str());
    push_str(&mut out, "</section></div></main><script id=\"flowchart-model\" type=\"application/json\">");
    push_str(&mut out, json.as_str());
    push_str(&mut out, "</script><div id=\"task-templates\" class=\"task-templates\">");
    push_str(&mut out, templates.as_str());
    push_str(&mut out, "</div><script>");
    push_page_script(&mut out);
    push_str(&mut out, "</script></body></html>");
    out
}

proof fn lemma_total_mono(tasks: Seq<TaskDiagram>, a: int, b: int)
    requires
        0 <= a <= b,
    ensures
        transitions_total(tasks, a) <= transitions_total(tasks, b),
    decreases b - a,
{
    if a < b {
        lemma_total_mono(tasks, a, b - 1);
    }
}

} // verus!
