use rust_plc::flowchart_page::{escape_json_for_html, render_html, render_overview_svg};
use rust_plc::flowchart_render::{
    render_svg_label, render_svg_lines, render_svg_node, render_task_table, render_topology_html,
    transition_fact_lines, EdgeSummary, FlowchartArtifact, StepSummary, TaskDiagram,
    TopologySummary,
};
use rust_plc::flowchart_text::{
    canonicalize_flowchart_compare_key, html_escape, short_source, task_role_label,
    truncate_label, wrap_text_lines,
};
use rust_plc::task_svg::render_task_svg;

fn step(task: &str, name: &str) -> StepSummary {
    StepSummary {
        task_name: task.to_string(),
        step_name: name.to_string(),
        source: None,
        line: None,
        generated: false,
        statements: vec![],
    }
}

fn edge(from_task: &str, from: &str, to_task: &str, to: &str, guard: &str) -> EdgeSummary {
    EdgeSummary {
        from_task: from_task.to_string(),
        from_step: from.to_string(),
        to_task: to_task.to_string(),
        to_step: to.to_string(),
        label: String::new(),
        guard: guard.to_string(),
        actions: vec![],
        effects: vec![],
    }
}

fn empty_topology() -> TopologySummary {
    TopologySummary {
        device_count: 0,
        link_count: 0,
        variables: vec![],
        workpiece_sites: vec![],
        workpiece_holders: vec![],
        workpiece_types: vec![],
        links: vec![],
    }
}

#[test]
fn single_step_chart() {
    let task = TaskDiagram {
        task_name: "main".to_string(),
        steps: vec![step("main", "idle")],
        transitions: vec![],
    };
    let expected = [
        "<div class=\"sfc-review\"><svg class=\"task-sfc-svg\" viewBox=\"0 0 656 286\" role=\"img\" aria-label=\"main SFC chart\" xmlns=\"http://www.w3.org/2000/svg\">",
        "<rect class=\"task-step-initial\" x=\"64\" y=\"64\" width=\"236\" height=\"102\" rx=\"10\"/>\n",
        "<rect class=\"task-step\" x=\"72\" y=\"72\" width=\"220\" height=\"86\" rx=\"10\"/>\n",
        "<text class=\"task-step-index\" x=\"24\" y=\"119\">1</text>\n",
        "<text class=\"task-step-title\" text-anchor=\"start\" x=\"88\" y=\"100\">idle</text>\n",
        "<text class=\"task-step-source\" text-anchor=\"start\" x=\"88\" y=\"128\">source</text>\n",
        "<rect class=\"task-transition-note terminal\" x=\"320\" y=\"196\" width=\"280\" height=\"40\" rx=\"10\"/>\n",
        "<text class=\"task-transition-target terminal\" text-anchor=\"start\" x=\"336\" y=\"214\">END</text>\n",
        "</svg></div>",
    ]
    .concat();
    assert_eq!(render_task_svg(&task), expected);
}

#[test]
fn two_step_chart_joins_the_steps() {
    let task = TaskDiagram {
        task_name: "main".to_string(),
        steps: vec![step("main", "a"), step("main", "b")],
        transitions: vec![edge("main", "a", "main", "b", "always")],
    };
    let expected = [
        "<div class=\"sfc-review\"><svg class=\"task-sfc-svg\" viewBox=\"0 0 656 444\" role=\"img\" aria-label=\"main SFC chart\" xmlns=\"http://www.w3.org/2000/svg\">",
        "<line class=\"task-main-line\" x1=\"182\" y1=\"208\" x2=\"182\" y2=\"230\"/>\n",
        "<line class=\"task-main-line\" x1=\"182\" y1=\"158\" x2=\"182\" y2=\"188\"/>\n",
        "<line class=\"task-transition-bar\" x1=\"144\" y1=\"188\" x2=\"220\" y2=\"188\"/>\n",
        "<line class=\"task-main-line\" x1=\"182\" y1=\"188\" x2=\"182\" y2=\"208\"/>\n",
        "<rect class=\"task-step-initial\" x=\"64\" y=\"64\" width=\"236\" height=\"102\" rx=\"10\"/>\n",
        "<rect class=\"task-step\" x=\"72\" y=\"72\" width=\"220\" height=\"86\" rx=\"10\"/>\n",
        "<text class=\"task-step-index\" x=\"24\" y=\"119\">1</text>\n",
        "<text class=\"task-step-title\" text-anchor=\"start\" x=\"88\" y=\"100\">a</text>\n",
        "<text class=\"task-step-source\" text-anchor=\"start\" x=\"88\" y=\"128\">source</text>\n",
        "<rect class=\"task-step\" x=\"72\" y=\"230\" width=\"220\" height=\"86\" rx=\"10\"/>\n",
        "<text class=\"task-step-index\" x=\"24\" y=\"277\">2</text>\n",
        "<text class=\"task-step-title\" text-anchor=\"start\" x=\"88\" y=\"258\">b</text>\n",
        "<text class=\"task-step-source\" text-anchor=\"start\" x=\"88\" y=\"286\">source</text>\n",
        "<rect class=\"task-transition-note terminal\" x=\"320\" y=\"354\" width=\"280\" height=\"40\" rx=\"10\"/>\n",
        "<text class=\"task-transition-target terminal\" text-anchor=\"start\" x=\"336\" y=\"372\">END</text>\n",
        "</svg></div>",
    ]
    .concat();
    assert_eq!(render_task_svg(&task), expected);
}

#[test]
fn external_transitions_get_a_note() {
    let task = TaskDiagram {
        task_name: "main".to_string(),
        steps: vec![step("main", "a")],
        transitions: vec![edge("main", "a", "aux", "start", "x > 1")],
    };
    let svg = render_task_svg(&task);
    assert!(svg.contains("task-transition-note external"));
    assert!(svg.contains(">goto aux.start</text>"));
    assert!(svg.contains(">x &gt; 1</text>"));
    assert!(svg.contains("task-transition-link"));
}

#[test]
fn fact_lines_skip_facts_the_step_shows() {
    let mut e = edge("main", "a", "main", "b", "always");
    e.actions = vec!["set Y1 true".to_string(), "start motor".to_string()];
    e.effects = vec!["count +1".to_string()];
    let statements = vec!["set Y1 true".to_string()];
    assert_eq!(
        transition_fact_lines(&e, &statements),
        vec!["action: start motor".to_string(), "effect: count +1".to_string()]
    );
}

#[test]
fn svg_primitives() {
    let mut out = String::new();
    render_svg_lines(&mut out, 5, 10, &vec!["a<b".to_string(), "c".to_string()], "k", 16, "start");
    assert_eq!(
        out,
        "<text class=\"k\" text-anchor=\"start\" x=\"5\" y=\"10\">a&lt;b</text>\n<text class=\"k\" text-anchor=\"start\" x=\"5\" y=\"26\">c</text>\n"
    );
    let mut node = String::new();
    render_svg_node(&mut node, 52, 44, 260, 62, "main", "task", Some("hot"));
    assert_eq!(
        node,
        "<g><rect class=\"flow-node hot\" x=\"52\" y=\"44\" width=\"260\" height=\"62\" rx=\"16\" ry=\"16\"/>\n<text text-anchor=\"middle\" x=\"182\" y=\"67\"><tspan class=\"flow-title\" x=\"182\" dy=\"0\">main</tspan><tspan class=\"flow-subtitle\" x=\"182\" dy=\"20\">task</tspan></text></g>\n"
    );
    let mut label = String::new();
    render_svg_label(&mut label, 366, 65, "main \u{2192} aux");
    assert_eq!(
        label,
        "<g><rect class=\"flow-label-bg\" x=\"321\" y=\"53\" width=\"90\" height=\"24\" rx=\"10\" ry=\"10\"/><text class=\"flow-label\" text-anchor=\"middle\" x=\"366\" y=\"65\">main \u{2192} aux</text></g>\n"
    );
}

#[test]
fn overview_draws_boxes_and_edges() {
    let model = FlowchartArtifact {
        schema_version: 1,
        source_plc: "plc/main.plc".to_string(),
        title: "Demo".to_string(),
        tasks: vec![
            TaskDiagram {
                task_name: "main".to_string(),
                steps: vec![],
                transitions: vec![
                    edge("main", "a", "aux", "b", "always"),
                    edge("main", "c", "aux", "d", "always"),
                ],
            },
            TaskDiagram { task_name: "aux".to_string(), steps: vec![], transitions: vec![] },
        ],
        topology: empty_topology(),
    };
    let svg = render_overview_svg(&model);
    assert!(svg.starts_with("<svg class=\"flow-svg\" viewBox=\"0 0 760 224\""));
    assert!(svg.contains("<path class=\"flow-edge external\" d=\"M 312 75 C 366 75, 366 75, 420 75\"/>\n"));
    assert_eq!(svg.matches("flow-edge external").count(), 1);
    assert!(svg.ends_with("</svg>"));
}

#[test]
fn tables_and_topology() {
    let mut s = step("main", "a");
    s.source = Some("plc/main.plc".to_string());
    s.line = Some(12);
    s.statements = vec!["x < 1".to_string()];
    let task = TaskDiagram {
        task_name: "main".to_string(),
        steps: vec![s],
        transitions: vec![edge("main", "a", "main", "a", "always")],
    };
    let table = render_task_table(&task);
    assert!(table.contains("<tr><td><code>main.a</code></td><td>plc/main.plc:12</td><td><span class=\"pill\">x &lt; 1</span></td></tr>"));
    assert!(table.contains("<td>always</td><td>-</td></tr>"));
    let mut topo = empty_topology();
    topo.device_count = 3;
    topo.workpiece_types = vec!["box".to_string()];
    let html = render_topology_html(&topo);
    assert!(html.contains("devices: <code>3</code>"));
    assert!(html.contains("<h3>Workpieces</h3><ul class=\"compact\"><li>box</li></ul>"));
    assert!(html.contains("<h3>Variables</h3><p>-</p>"));
}

#[test]
fn page_embeds_model_and_templates() {
    let model = FlowchartArtifact {
        schema_version: 1,
        source_plc: "a<b".to_string(),
        title: "Demo".to_string(),
        tasks: vec![TaskDiagram {
            task_name: "main".to_string(),
            steps: vec![step("main", "idle")],
            transitions: vec![],
        }],
        topology: empty_topology(),
    };
    let page = render_html(&model, "{\"t\":\"<&>\"}");
    assert!(page.starts_with("<!doctype html>"));
    assert!(page.contains("<title>Demo</title>"));
    assert!(page.contains("source: <code>a&lt;b</code>"));
    assert!(page.contains("<span>tasks: 1</span><span>transitions: 0</span>"));
    assert!(page.contains("{\"t\":\"\\u003c\\u0026\\u003e\"}"));
    assert!(page.contains("<template data-task=\"main\"><div class=\"sfc-review\">"));
    assert!(page.ends_with("</script></body></html>"));
    assert_eq!(escape_json_for_html("<a&b>"), "\\u003ca\\u0026b\\u003e");
}

#[test]
fn text_helpers() {
    assert_eq!(html_escape("<a href=\"x\">'&'</a>"), "&lt;a href=&quot;x&quot;&gt;&#39;&amp;&#39;&lt;/a&gt;");
    assert_eq!(truncate_label("abcdef", 3), "abc...");
    assert_eq!(truncate_label("abc", 3), "abc");
    assert_eq!(short_source("C:\\proj\\plc\\main.plc"), "plc/main.plc");
    assert_eq!(short_source("main.plc"), "main.plc");
    assert_eq!(task_role_label("FaultHandler"), "fault / warning");
    assert_eq!(task_role_label("conveyor"), "process / motion");
    assert_eq!(wrap_text_lines("", 10, 2), vec!["-".to_string()]);
    assert_eq!(
        wrap_text_lines("abcdefghij", 4, 2),
        vec!["abcd".to_string(), "efgh...".to_string()]
    );
    assert_eq!(canonicalize_flowchart_compare_key("Some(x.0)"), canonicalize_flowchart_compare_key("some(x)"));
}
