use dpcs::report::format::ReportFormat;
use dpcs::model::contract::PipelineContract;
use dpcs::model::extension::ExtensionMap;
use dpcs::model::graph::{GraphEdge, PipelineGraph};
use dpcs::model::interface::PipelineInterface;
use dpcs::model::step::PipelineStep;
use dpcs::report::graph_export::{graph_to_dot, graph_to_mermaid, to_dot, to_mermaid};
use dpcs::report::views::{GraphEdgeView, GraphView};

#[test]
fn unique_sanitized_ids_disambiguate_collisions() {
    let view = GraphView {
        contract_id: None,
        entry_points: vec![],
        exit_points: vec![],
        step_ids: vec!["a.b".into(), "a_b".into()],
        edges: vec![GraphEdgeView { from: "a.b".into(), to: "a_b".into(), kind: Some("dependsOn".into()) }],
        step_order: None,
        planning_refused: false,
    };
    let mermaid = graph_to_mermaid(&view);
    assert!(mermaid.contains("a_b[\"a.b\"]"));
    assert!(mermaid.contains("a_b__2[\"a_b\"]") || mermaid.contains("a_b__2[\"a_b\"]"));
    assert!(!mermaid.lines().any(|l| l.contains("a_b --> a_b")));
    let dot = graph_to_dot(&view);
    assert!(dot.contains("a_b__2") || (dot.contains("a_b [") && dot.matches("a_b").count() > 1));
}

#[test]
fn mermaid_and_dot_render_exactly() {
    let view = GraphView {
        contract_id: None,
        entry_points: vec!["z".into()],
        exit_points: vec![],
        step_ids: vec!["b".into(), "1x".into()],
        edges: vec![GraphEdgeView { from: "b".into(), to: "1x".into(), kind: Some("a|[b]".into()) }],
        step_order: Some(vec!["b".into(), "1x".into()]),
        planning_refused: false,
    };
    assert_eq!(
        graph_to_mermaid(&view),
        "flowchart LR\n  n1x[\"1x\"]\n  b[\"b\"]\n  z[\"z\"]\n  b -->|a/(b)| n1x\n  %% stepOrder: b, 1x"
    );
    assert_eq!(
        graph_to_dot(&view),
        "digraph dpcs {\n  rankdir=LR;\n  node [shape=box];\n  n1x [label=\"1x\"];\n  b [label=\"b\"];\n  z [label=\"z\"];\n  b -> n1x [label=\"a|[b]\"];\n}"
    );
    let empty = GraphView {
        contract_id: None,
        entry_points: vec![],
        exit_points: vec![],
        step_ids: vec![],
        edges: vec![],
        step_order: None,
        planning_refused: true,
    };
    assert_eq!(graph_to_mermaid(&empty), "flowchart LR\n  %% no edges\n  %% planning refused");
    assert_eq!(graph_to_dot(&empty), "digraph dpcs {\n  rankdir=LR;\n  node [shape=box];\n  // planning refused\n}");
}

#[test]
fn report_formats_parse() {
    assert_eq!(ReportFormat::parse(" MD ").unwrap(), ReportFormat::Markdown);
    assert_eq!(ReportFormat::parse("graphviz").unwrap(), ReportFormat::Dot);
    assert!(ReportFormat::parse("dot").unwrap().is_graph_export());
    assert!(!ReportFormat::parse("json").unwrap().is_graph_export());
    let err = ReportFormat::parse("Yaml").unwrap_err();
    assert_eq!(err.message(), "unknown report format `yaml` (expected text|json|markdown|html|mermaid|dot)");
    assert_eq!(ReportFormat::default_format(), ReportFormat::Text);
}

fn no_ext() -> ExtensionMap {
    ExtensionMap { entries: vec![] }
}

fn two_step_contract() -> PipelineContract {
    let step = |id: &str| PipelineStep {
        id: id.to_owned(),
        step_type: "extension:noop".to_owned(),
        name: None,
        contract_ref: None,
        transform_ref: None,
        inputs: vec![],
        outputs: vec![],
        extensions: no_ext(),
    };
    PipelineContract {
        dpcs_version: "1.0.0".to_owned(),
        id: "p".to_owned(),
        name: None,
        version: "0.1.0".to_owned(),
        metadata: None,
        interface: PipelineInterface { inputs: vec![], outputs: vec![], metadata: None, extensions: no_ext() },
        graph: PipelineGraph {
            entry_points: vec!["in".to_owned()],
            exit_points: vec![],
            metadata: None,
            edges: vec![GraphEdge { from: "a".to_owned(), to: "b".to_owned(), kind: None, extensions: no_ext() }],
            extensions: no_ext(),
        },
        steps: vec![step("a"), step("b")],
        contract_references: vec![],
        data_flow: vec![],
        control_flow: vec![],
        execution: None,
        scheduling: vec![],
        quality_gates: vec![],
        failure_semantics: vec![],
        lineage: None,
        compatibility: None,
        security: None,
        governance: None,
        extensions: no_ext(),
    }
}

#[test]
fn contract_exports_follow_the_graph_view() {
    let c = two_step_contract();
    assert_eq!(
        to_mermaid(&c, Some(vec!["a".to_owned(), "b".to_owned()])),
        "flowchart LR\n  a[\"a\"]\n  b[\"b\"]\n  in[\"in\"]\n  a --> b\n  %% stepOrder: a, b"
    );
    assert_eq!(
        to_dot(&c, None),
        "digraph dpcs {\n  rankdir=LR;\n  node [shape=box];\n  a [label=\"a\"];\n  b [label=\"b\"];\n  in [label=\"in\"];\n  a -> b;\n  // planning refused\n}"
    );
}
