use dpcs::cli::output::{
    format_capability_text, format_compatibility_text, format_graph_text, format_inspect_text, format_validation_text, paint_severity, EmitOpts,
};
use dpcs::cli::tui::{InspectorKey, InspectorState, KeyOutcome, Pane};
use dpcs::cli::{exit_code_for_registry_error, exit_code_for_report, EXIT_FAILURE, EXIT_OK, EXIT_VALIDATION};
use dpcs::compatibility::compare::{CompatibilityCategory, CompatibilityReport};
use dpcs::diagnostics::{Diagnostic, DiagnosticStage, Severity, ValidationReport};
use dpcs::error::Error;
use dpcs::registry_net::client::RegistryClientError;
use dpcs::report::format::ReportFormat;
use dpcs::report::html::{
    capability_to_html, compatibility_to_html, diagnostic_to_html, graph_to_html, inspect_to_html, validation_to_html,
};
use dpcs::capabilities::evaluate::CapabilityReport;
use dpcs::diagnostics::report::DiagnosticReport;
use dpcs::report::markdown::{
    capability_to_markdown, compatibility_to_markdown, diagnostic_to_markdown, graph_to_markdown, inspect_to_markdown,
    validation_to_markdown,
};
use dpcs::report::views::{GraphEdgeView, GraphView, InspectView};

fn report() -> ValidationReport {
    let mut r = ValidationReport::new();
    r.push(
        Diagnostic::error("DPCS-X-001", "structural", "bad | step".to_owned())
            .with_object_ref("steps.a".to_owned())
            .with_remediation("fix it".to_owned()),
    );
    r.push(Diagnostic::warning("DPCS-X-002", "structural", "<odd>".to_owned()).with_source_location("line 3".to_owned()));
    r
}

fn inspect() -> InspectView {
    InspectView {
        id: "p".to_owned(),
        name: Some("Demo".to_owned()),
        version: "1.0.0".to_owned(),
        dpcs_version: "1.0.0".to_owned(),
        step_count: 2,
        edge_count: 1,
        input_count: 0,
        output_count: 1,
        contract_reference_count: 0,
        data_flow_count: 0,
        control_flow_count: 0,
        scheduling_count: 0,
        quality_gate_count: 0,
        failure_semantics_count: 0,
        has_execution: false,
        has_lineage: true,
        valid: true,
        planning_refused: false,
        step_order: Some(vec!["a".to_owned(), "b".to_owned()]),
        step_ids: vec!["a".to_owned(), "b".to_owned()],
    }
}

fn graph() -> GraphView {
    GraphView {
        contract_id: Some("p".to_owned()),
        entry_points: vec!["a".to_owned()],
        exit_points: vec![],
        step_ids: vec!["a".to_owned(), "b".to_owned()],
        edges: vec![
            GraphEdgeView { from: "a".to_owned(), to: "b".to_owned(), kind: Some("data".to_owned()) },
            GraphEdgeView { from: "b".to_owned(), to: "c".to_owned(), kind: None },
        ],
        step_order: None,
        planning_refused: true,
    }
}

#[test]
fn validation_text_lists_findings_and_summary() {
    assert_eq!(format_validation_text(&ValidationReport::new(), false), "valid: no diagnostics");
    assert_eq!(
        format_validation_text(&report(), false),
        "error DPCS-X-001: validation @ steps.a — bad | step\n  remediation: fix it\n\
         warning DPCS-X-002: validation — <odd> (line 3)\n\
         summary: 1 error(s), 1 warning(s), 0 information(s)"
    );
    assert_eq!(paint_severity(true, Severity::Error), "\u{1b}[31merror\u{1b}[0m");
    assert_eq!(paint_severity(true, Severity::Information), "\u{1b}[34minformation\u{1b}[0m");
    assert_eq!(paint_severity(false, Severity::Warning), "warning");
}

#[test]
fn inspect_and_graph_text() {
    assert_eq!(
        format_inspect_text(&inspect()),
        "id: p\nname: Demo\nversion: 1.0.0\ndpcsVersion: 1.0.0\nsteps: 2\nedges: 1\ninputs: 0\noutputs: 1\n\
         contractReferences: 0\ndataFlow: 0\ncontrolFlow: 0\nscheduling: 0\nqualityGates: 0\nfailureSemantics: 0\n\
         execution: false\nlineage: true\nvalid: true\nstepOrder: a, b"
    );
    assert_eq!(format_graph_text(&graph()), "entryPoints: a\na -> b (data)\nb -> c\nplanning: refused");
}

#[test]
fn compatibility_text_ends_with_verdict() {
    let mut ds = Vec::new();
    ds.push(Diagnostic::compatibility_error("DPCS-CMP-001", "compatibility", "step removed".to_owned()));
    let r = CompatibilityReport {
        baseline_id: "p".to_owned(),
        baseline_version: "1.0.0".to_owned(),
        candidate_id: "p".to_owned(),
        candidate_version: "2.0.0".to_owned(),
        category: CompatibilityCategory::Incompatible,
        diagnostics: ds,
    };
    assert_eq!(
        format_compatibility_text(&r, false),
        "baseline: p@1.0.0\ncandidate: p@2.0.0\ncategory: incompatible\n\
         error DPCS-CMP-001: compatibilityAnalysis — step removed\ncompatibility: incompatible"
    );
}

#[test]
fn emit_options_from_flags() {
    assert_eq!(EmitOpts::from_flags(true, None, None).unwrap().format, ReportFormat::Json);
    assert_eq!(EmitOpts::from_flags(false, None, None).unwrap().format, ReportFormat::Text);
    let o = EmitOpts::from_flags(true, Some(" MD "), Some("out.md".to_owned())).unwrap();
    assert_eq!((o.format, o.out.as_deref()), (ReportFormat::Markdown, Some("out.md")));
    match EmitOpts::from_flags(false, Some("pdf"), None) {
        Err(Error::Serialization(m)) => assert_eq!(m, "unknown report format `pdf` (expected text|json|markdown|html|mermaid|dot)"),
        other => panic!("unexpected {other:?}"),
    }
    let dot = EmitOpts::from_flags(false, Some("dot"), None).unwrap();
    match dot.require_formats(&[ReportFormat::Text, ReportFormat::Json]) {
        Err(Error::Serialization(m)) => assert_eq!(m, "format `dot` is not supported here (allowed: text|json)"),
        other => panic!("unexpected {other:?}"),
    }
    assert!(dot.require_formats(&[ReportFormat::Dot]).is_ok());
    assert_eq!(dot.for_diagnostics().format, ReportFormat::Text);
}

#[test]
fn exit_codes() {
    assert_eq!(exit_code_for_report(&ValidationReport::new(), true), EXIT_OK);
    let mut w = ValidationReport::new();
    w.push(Diagnostic::warning("W", "structural", "w".to_owned()));
    assert_eq!(exit_code_for_report(&w, false), EXIT_OK);
    assert_eq!(exit_code_for_report(&w, true), EXIT_VALIDATION);
    assert_eq!(exit_code_for_report(&report(), false), EXIT_VALIDATION);
    assert_eq!(exit_code_for_registry_error(&RegistryClientError::Transport("x".to_owned())), EXIT_FAILURE);
    let http = RegistryClientError::Http { status: 404, message: "x".to_owned(), report: None };
    assert_eq!(exit_code_for_registry_error(&http), EXIT_VALIDATION);
    let down = RegistryClientError::Http { status: 500, message: "x".to_owned(), report: None };
    assert_eq!(exit_code_for_registry_error(&down), EXIT_FAILURE);
}

#[test]
fn markdown_and_html_validation_reports() {
    let md = validation_to_markdown(&report());
    assert_eq!(
        md,
        "# Validation Report\n\n**Summary:** 1 error(s), 1 warning(s), 0 information(s)\n\n## Diagnostics\n\n\
         | Severity | Id | Stage | Object | Message |\n| --- | --- | --- | --- | --- |\n\
         | error | `DPCS-X-001` | validation | steps.a | bad \\| step |\n\
         | warning | `DPCS-X-002` | validation |  | <odd> |\n"
    );
    let html = validation_to_html(&report());
    assert!(html.starts_with("<!DOCTYPE html>\n<html lang=\"en\">\n<head>\n<meta charset=\"utf-8\"/>"));
    assert!(html.contains("<title>Validation Report</title>"));
    assert!(html.contains("<h1>Validation Report</h1><p class=\"meta\">1 error(s), 1 warning(s), 0 information(s)</p>"));
    assert!(html.contains("<td class=\"warning\">warning</td><td><code>DPCS-X-002</code></td><td>validation</td><td></td><td>&lt;odd&gt;</td>"));
    assert!(html.ends_with("</body>\n</html>\n"));
    let empty = validation_to_markdown(&ValidationReport::new());
    assert!(empty.ends_with("## Diagnostics\n\n_No diagnostics._\n"));
    let _ = DiagnosticStage::Validation;
}

#[test]
fn inspector_panes_and_keys() {
    let mut s = InspectorState::new("contract.yaml".to_owned(), inspect(), graph(), report());
    assert_eq!(s.status, "loaded contract.yaml");
    assert_eq!(s.lines_for_pane()[0], "id: p");
    assert_eq!(s.lines_for_pane()[1], "name: Demo");
    assert_eq!(s.lines_for_pane().last().unwrap(), "path: contract.yaml");
    assert_eq!(s.handle_key(InspectorKey::Char('j')), KeyOutcome::Continue);
    assert_eq!(s.selected, Some(1));
    assert_eq!(s.handle_key(InspectorKey::Up), KeyOutcome::Continue);
    assert_eq!(s.handle_key(InspectorKey::Up), KeyOutcome::Continue);
    assert_eq!(s.selected, Some(8));
    s.handle_key(InspectorKey::Tab);
    assert_eq!((s.pane, s.selected), (Pane::Steps, Some(0)));
    assert_eq!(s.lines_for_pane(), vec!["a".to_owned(), "b".to_owned()]);
    s.handle_key(InspectorKey::Char('3'));
    assert_eq!(s.lines_for_pane(), vec!["a -> b (data)".to_owned(), "b -> c".to_owned()]);
    s.handle_key(InspectorKey::Char('4'));
    assert_eq!(s.lines_for_pane()[0], "error DPCS-X-001: validation — bad | step");
    s.handle_key(InspectorKey::Right);
    assert_eq!(s.pane, Pane::Plan);
    assert_eq!(s.lines_for_pane(), vec!["a".to_owned(), "b".to_owned()]);
    s.handle_key(InspectorKey::Right);
    assert_eq!(s.pane, Pane::Overview);
    s.handle_key(InspectorKey::Left);
    assert_eq!(s.pane, Pane::Plan);
    assert_eq!(s.handle_key(InspectorKey::Char('r')), KeyOutcome::Reload);
    assert_eq!(s.handle_key(InspectorKey::Esc), KeyOutcome::Quit);
    s.reload_failed("failed to read `contract.yaml`: gone");
    assert_eq!(s.status, "reload failed: failed to read `contract.yaml`: gone");
    s.reloaded(inspect(), graph(), ValidationReport::new());
    assert_eq!(s.status, "reloaded contract.yaml");
    s.set_pane(Pane::Diagnostics);
    assert_eq!(s.lines_for_pane(), vec!["valid: no diagnostics".to_owned()]);
    assert_eq!(Pane::from_index(7), Pane::Edges);
    assert_eq!(Pane::Plan.title(), "Plan");
}

#[test]
fn other_markdown_reports() {
    assert_eq!(
        inspect_to_markdown(&inspect()),
        "# Pipeline Inspect\n\n- **Id:** `p`\n- **Name:** Demo\n- **Version:** 1.0.0\n- **DPCS version:** 1.0.0\n\
         - **Valid:** true\n- **Steps:** 2\n- **Edges:** 1\n- **Inputs:** 0\n- **Outputs:** 1\n\
         - **Contract references:** 0\n- **Data flow:** 0\n- **Control flow:** 0\n- **Scheduling:** 0\n\
         - **Quality gates:** 0\n- **Failure semantics:** 0\n- **Execution:** false\n- **Lineage:** true\n\
         - **Step order:** a, b\n\n## Steps\n\n- `a`\n- `b`\n"
    );
    assert_eq!(
        graph_to_markdown(&graph()),
        "# Pipeline Graph\n\nContract: `p`\n\n**Entry points:** a\n\n```mermaid\nflowchart LR\n  a[\"a\"]\n  b[\"b\"]\n\
         \x20 c[\"c\"]\n  a -->|data| b\n  b --> c\n  %% planning refused\n```\n\n**Planning:** refused\n"
    );
    let cap = CapabilityReport {
        profile_identity: "airflow".to_owned(),
        plan_contract_id: Some("p".to_owned()),
        satisfied: vec!["cron".to_owned()],
        missing_mandatory: vec![],
        unsupported_optional: vec!["gpu".to_owned(), "k8s".to_owned()],
        diagnostics: vec![],
    };
    assert_eq!(
        capability_to_markdown(&cap),
        "# Capability Report\n\n- **Profile:** `airflow`\n- **Contract:** `p`\n- **Satisfied:** cron\n\
         - **Missing mandatory:** _(none)_\n- **Unsupported optional:** gpu, k8s\n\n"
    );
    let compat = CompatibilityReport {
        baseline_id: "p".to_owned(),
        baseline_version: "1.0.0".to_owned(),
        candidate_id: "p".to_owned(),
        candidate_version: "2.0.0".to_owned(),
        category: CompatibilityCategory::Incompatible,
        diagnostics: vec![Diagnostic::compatibility_error("DPCS-CMP-001", "compatibility", "step removed".to_owned())],
    };
    assert_eq!(
        compatibility_to_markdown(&compat),
        "# Compatibility Report\n\n- **Baseline:** `p@1.0.0`\n- **Candidate:** `p@2.0.0`\n- **Category:** incompatible\n\n\
         ## Diagnostics\n\n| Severity | Id | Stage | Object | Message |\n| --- | --- | --- | --- | --- |\n\
         | error | `DPCS-CMP-001` | compatibilityAnalysis |  | step removed |\n"
    );
    let wrapped = DiagnosticReport::from_validation(ValidationReport::new(), Some("p".to_owned()));
    assert_eq!(
        diagnostic_to_markdown(&wrapped),
        "# Diagnostic Report\n\n- **Processing result:** valid\n- **Artifact:** `p`\n\
         - **Implementation:** dpcs 0.1.0\n\n## Diagnostics\n\n_No diagnostics._\n"
    );
}

fn html_body(html: &str) -> &str {
    let start = html.find("<body>\n").expect("body") + "<body>\n".len();
    let end = html.rfind("\n</body>").expect("end of body");
    &html[start..end]
}

#[test]
fn other_html_reports() {
    assert_eq!(
        html_body(&inspect_to_html(&inspect())),
        "<h1>Pipeline Inspect</h1><ul><li>Id: <code>p</code></li><li>Version: 1.0.0</li><li>DPCS version: 1.0.0</li>\
         <li>Valid: true</li><li>Steps: 2</li><li>Edges: 1</li><li>Inputs: 0 / Outputs: 1</li><li>Name: Demo</li>\
         <li>Step order: a, b</li></ul><h2>Steps</h2><ul><li><code>a</code></li><li><code>b</code></li></ul>"
    );
    let g = graph_to_html(&graph());
    assert!(g.contains("<title>Graph — p</title>"));
    let escaped = "flowchart LR\n  a[&quot;a&quot;]\n  b[&quot;b&quot;]\n  c[&quot;c&quot;]\n  a --&gt;|data| b\n\
                   \x20 b --&gt; c\n  %% planning refused";
    assert_eq!(
        html_body(&g),
        format!(
            "<h1>Graph — p</h1><p class=\"meta\">Mermaid source is embedded for offline use. Rendering below requires \
             network access to the Mermaid CDN.</p><h2>Mermaid source</h2><pre><code>{escaped}</code></pre>\
             <h2>Rendered graph</h2><div class=\"mermaid\">\n{escaped}\n</div><script type=\"module\">import mermaid \
             from 'https://cdn.jsdelivr.net/npm/mermaid@11/dist/mermaid.esm.min.mjs';mermaid.initialize({{ startOnLoad: \
             true }});</script>"
        )
    );
    let cap = CapabilityReport {
        profile_identity: "airflow".to_owned(),
        plan_contract_id: Some("p".to_owned()),
        satisfied: vec!["cron".to_owned()],
        missing_mandatory: vec![],
        unsupported_optional: vec!["gpu".to_owned(), "k8s".to_owned()],
        diagnostics: vec![],
    };
    assert_eq!(
        html_body(&capability_to_html(&cap)),
        "<h1>Capability Report</h1><ul><li>Profile: <code>airflow</code></li><li>Contract: <code>p</code></li>\
         <li>Satisfied: cron</li><li>Missing mandatory: </li><li>Unsupported optional: gpu, k8s</li></ul>\
         <p><em>No diagnostics.</em></p>"
    );
    let compat = CompatibilityReport {
        baseline_id: "p".to_owned(),
        baseline_version: "1.0.0".to_owned(),
        candidate_id: "p".to_owned(),
        candidate_version: "2.0.0".to_owned(),
        category: CompatibilityCategory::Incompatible,
        diagnostics: vec![Diagnostic::compatibility_error("DPCS-CMP-001", "compatibility", "step removed".to_owned())],
    };
    assert_eq!(
        html_body(&compatibility_to_html(&compat)),
        "<h1>Compatibility Report</h1><ul><li>Baseline: <code>p@1.0.0</code></li><li>Candidate: <code>p@2.0.0</code></li>\
         <li>Category: <code>incompatible</code></li></ul><table><thead><tr><th>Severity</th><th>Id</th><th>Stage</th>\
         <th>Object</th><th>Message</th></tr></thead><tbody><tr><td class=\"error\">error</td><td><code>DPCS-CMP-001</code>\
         </td><td>compatibilityAnalysis</td><td></td><td>step removed</td></tr></tbody></table>"
    );
    let wrapped = DiagnosticReport::from_validation(ValidationReport::new(), Some("p".to_owned()));
    assert_eq!(
        html_body(&diagnostic_to_html(&wrapped)),
        "<h1>Diagnostic Report</h1><ul><li>Processing result: <code>valid</code></li><li>Artifact: <code>p</code></li>\
         <li>Implementation: dpcs 0.1.0</li></ul><p><em>No diagnostics.</em></p>"
    );
}

#[test]
fn capability_text_lists_what_matched() {
    let cap = CapabilityReport {
        profile_identity: "airflow".to_owned(),
        plan_contract_id: Some("p".to_owned()),
        satisfied: vec!["cron".to_owned(), "retry".to_owned()],
        missing_mandatory: vec!["gpu".to_owned()],
        unsupported_optional: vec![],
        diagnostics: vec![Diagnostic::warning("DPCS-CAP-009", "capability", "old profile".to_owned())],
    };
    assert_eq!(
        format_capability_text(&cap, false, false),
        "profile: airflow\ncontractId: p\nsatisfied: cron, retry\nmissingMandatory: gpu\n\
         warning DPCS-CAP-009: validation — old profile"
    );
    let ok = CapabilityReport { missing_mandatory: vec![], diagnostics: vec![], ..cap };
    assert_eq!(
        format_capability_text(&ok, true, false),
        "profile: airflow\ncontractId: p\nsatisfied: cron, retry\nmatch: ok"
    );
}

#[test]
fn html_escapes_markup_in_messages() {
    let mut r = ValidationReport::new();
    r.push(Diagnostic::error("DPCS-X-003", "structural", "a \"q\" & <b>".to_owned()));
    let html = validation_to_html(&r);
    assert!(html.contains("<td>a &quot;q&quot; &amp; &lt;b&gt;</td>"));
    assert!(!html.contains("<b>"));
}
