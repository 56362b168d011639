use dpcs::binding::artifact::{BindingFile, BindingTarget};
use dpcs::binding::common::{validate_relative_path, PlanView};
use dpcs::binding::framework::{bind, bind_plan, parse_target, translate, BindContext, BindingFramework, BindingResult};
use dpcs::binding::names::unique_sanitized;
use dpcs::capabilities::evaluate::CapabilityReport;
use dpcs::capabilities::{CapabilityDecl, CapabilityProfile};
use dpcs::diagnostics::ValidationReport;
use dpcs::model::execution::{ExecutionRequirements, SchedulingIntent, SchedulingMode};
use dpcs::model::extension::ExtensionMap;
use dpcs::model::graph::PipelineGraph;
use dpcs::plan::{PipelinePlan, PlanDependencyEdge};

fn no_ext() -> ExtensionMap {
    ExtensionMap { entries: vec![] }
}

fn plan(step_order: &[&str], edges: &[(&str, &str)]) -> PipelinePlan {
    PipelinePlan {
        contract_id: "p".to_owned(),
        contract_version: "1.0.0".to_owned(),
        dpcs_version: "1.0.0".to_owned(),
        version: None,
        steps: vec![],
        graph: PipelineGraph { entry_points: vec![], exit_points: vec![], metadata: None, edges: vec![], extensions: no_ext() },
        contract_references: vec![],
        dependency_edges: edges
            .iter()
            .map(|(f, t)| PlanDependencyEdge { from: (*f).to_owned(), to: (*t).to_owned() })
            .collect(),
        step_order: step_order.iter().map(|s| (*s).to_owned()).collect(),
        execution: None,
        scheduling: vec![],
        quality_gates: vec![],
        failure_semantics: vec![],
        lineage: None,
        nested: vec![],
    }
}

fn empty_capability() -> CapabilityReport {
    CapabilityReport {
        profile_identity: "prof".to_owned(),
        plan_contract_id: None,
        satisfied: vec![],
        missing_mandatory: vec![],
        unsupported_optional: vec![],
        diagnostics: vec![],
    }
}

#[test]
fn unique_sanitized_disambiguates_collisions() {
    let ids = vec!["a.b".to_owned(), "a_b".to_owned()];
    let map = unique_sanitized(&ids, PlanView::python_ident);
    assert_ne!(map.get("a.b"), map.get("a_b"));
    assert!(map.entries.iter().all(|(_, v)| v.starts_with("a_b")));
}

#[test]
fn validate_relative_path_rejects_escape() {
    assert!(validate_relative_path("../etc/passwd").is_err());
    assert!(validate_relative_path("/etc/passwd").is_err());
    assert!(validate_relative_path("dags/ok.py").is_ok());
}

#[test]
fn python_class_name_is_pascal_case() {
    assert_eq!(
        PlanView::python_class_name("valid.execution.model"),
        "ValidExecutionModelWorkflow"
    );
}

#[test]
fn relative_path_errors_name_the_problem() {
    let empty = validate_relative_path("").unwrap_err();
    assert_eq!(empty.diagnostics[0].id, "DPCS-BIND-004");
    assert_eq!(empty.diagnostics[0].message, "binding file relative_path must not be empty");
    let nul = validate_relative_path("a\0b").unwrap_err();
    assert_eq!(nul.diagnostics[0].message, "binding file relative_path must not contain NUL");
    let abs = validate_relative_path("/x").unwrap_err();
    assert_eq!(abs.diagnostics[0].message, "binding file relative_path must be relative, got `/x`");
    let up = validate_relative_path("a/../b").unwrap_err();
    assert_eq!(up.diagnostics[0].message, "binding file relative_path must not contain `..`: `a/../b`");
    assert!(validate_relative_path("a/..b/c").is_ok());
    assert!(validate_relative_path("./a").is_ok());
}

#[test]
fn python_identifiers_and_k8s_names() {
    assert_eq!(PlanView::python_ident("1st-step"), "_1st_step");
    assert_eq!(PlanView::python_ident(""), "_unnamed");
    assert_eq!(PlanView::k8s_name("My__Step..One"), "my-step-one");
    assert_eq!(PlanView::k8s_name("---"), "pipeline");
    assert_eq!(PlanView::python_class_name("2fast"), "_2fastWorkflow");
    assert_eq!(PlanView::python_class_name("order-workflow"), "OrderWorkflow");
    assert_eq!(PlanView::py_string("a\"b\\c\n"), "a\\\"b\\\\c\\n");
    assert_eq!(PlanView::yaml_string("\u{1}"), "\\u0001");
    assert_eq!(PlanView::py_string("\u{1}"), "\\u0001");
}

#[test]
fn parse_target_accepts_names_and_alias() {
    assert_eq!(parse_target("airflow").unwrap(), BindingTarget::Airflow);
    assert_eq!(parse_target("k8s").unwrap(), BindingTarget::Kubernetes);
    let err = parse_target("argo").unwrap_err();
    assert_eq!(err.diagnostics[0].id, "DPCS-BIND-002");
    assert_eq!(err.diagnostics[0].message, "unknown binding target `argo`");
    assert_eq!(BindingTarget::from_name("nope").unwrap_err(),
        "unknown binding target `nope`; expected one of: airflow, dagster, prefect, temporal, kubernetes");
    assert!(BindingTarget::Temporal.is_experimental());
    assert!(!BindingTarget::Dagster.is_experimental());
    assert_eq!(BindingTarget::Prefect.as_str(), "prefect");
    assert!(BindingFramework::is_available());
    assert_eq!(BindingFramework::supported_targets().len(), 5);
}

#[test]
fn predecessors_are_sorted_and_unique() {
    let p = plan(&["a", "b", "c"], &[("b", "c"), ("a", "c"), ("b", "c"), ("a", "b")]);
    let cap = empty_capability();
    let ctx = BindContext { profile_identity: "prof", capability: &cap };
    let view = PlanView::new(&p, &ctx);
    assert_eq!(view.predecessors("c"), vec!["a".to_owned(), "b".to_owned()]);
    assert!(view.predecessors("a").is_empty());
    let idents = view.unique_python_idents(&["p", "a"]);
    assert_eq!(idents.entries.len(), 4);
    assert_eq!(idents.get("p").unwrap(), "p");
}

#[test]
fn header_comment_documents_plan() {
    let mut p = plan(&["a", "b"], &[("a", "b")]);
    p.scheduling.push(SchedulingIntent {
        id: None,
        mode: SchedulingMode::Scheduled,
        cron: Some("0 * * * *".to_owned()),
        timezone: Some("UTC".to_owned()),
        frequency: None,
        windows: vec![],
        blackouts: vec![],
        deadlines: vec![],
        events: vec![],
        constraints: None,
        policies: vec![],
        extensions: no_ext(),
    });
    let cap = empty_capability();
    let ctx = BindContext { profile_identity: "prof", capability: &cap };
    let view = PlanView::new(&p, &ctx);
    assert_eq!(view.primary_cron(), Some("0 * * * *"));
    assert_eq!(view.primary_timezone(), Some("UTC"));
    let header = view.header_comment("Airflow");
    let lines: Vec<&str> = header.lines().collect();
    assert_eq!(lines[0], "# DPCS orchestrator binding scaffold (Airflow)");
    assert_eq!(lines[3], "# profileIdentity: prof");
    assert_eq!(lines[5], "# stepOrder: a, b");
    assert_eq!(lines[6], "# schedulingModes: scheduled");
    assert_eq!(lines[7], "# scheduleCron: 0 * * * *");
    assert_eq!(lines[8], "# scheduleTimezone: UTC");
    assert_eq!(lines[9], "# dependency a -> b");
    assert_eq!(lines.len(), 12);
}

fn profile(caps: &[&str]) -> CapabilityProfile {
    CapabilityProfile {
        identity: "prof".to_owned(),
        dpcs_version: "1.0.0".to_owned(),
        capabilities: caps.iter().map(|c| CapabilityDecl { id: (*c).to_owned(), optional: false }).collect(),
    }
}

fn file(path: &str) -> BindingFile {
    BindingFile::new(path, "text/x-python", "print()".to_owned())
}

#[test]
fn bind_gates_on_capabilities_and_paths() {
    let mut p = plan(&["a"], &[]);
    p.execution = Some(ExecutionRequirements {
        required_capabilities: vec!["retry".to_owned()],
        isolation: vec![],
        external_dependencies: vec![],
        resources: None,
        environment: None,
        extensions: no_ext(),
    });
    let refused = bind(&p, &profile(&[]), ValidationReport::new(), BindingTarget::Airflow, Ok(vec![file("dags/a.py")]));
    match &refused {
        BindingResult::Failure { diagnostics, capability } => {
            assert!(capability.is_some());
            assert!(diagnostics.diagnostics.iter().any(|d| d.id == "DPCS-BIND-001"));
            assert!(diagnostics.diagnostics.iter().any(|d| d.id == "DPCS-CAP-005"));
        }
        BindingResult::Success(_) => panic!("expected refusal"),
    }
    let empty = bind(&p, &profile(&["retry"]), ValidationReport::new(), BindingTarget::Airflow, Ok(vec![]));
    assert_eq!(empty.report().unwrap().diagnostics[0].id, "DPCS-BIND-003");
    let unsafe_path = bind(&p, &profile(&["retry"]), ValidationReport::new(), BindingTarget::Airflow, Ok(vec![file("../x.py")]));
    assert_eq!(unsafe_path.report().unwrap().diagnostics[0].id, "DPCS-BIND-004");
    let ok = bind(&p, &profile(&["retry"]), ValidationReport::new(), BindingTarget::Dagster, Ok(vec![file("definitions.py")]));
    assert!(ok.is_ok());
    let bundle = ok.bundle().unwrap();
    assert_eq!(bundle.target, BindingTarget::Dagster);
    assert_eq!(bundle.profile_identity, "prof");
    assert_eq!(bundle.capability.satisfied, vec!["retry".to_owned()]);
}

#[test]
fn translate_picks_the_adapter_of_each_target() {
    let p = plan(&["extract", "load"], &[("extract", "load")]);
    let cap = empty_capability();
    let paths = |t: BindingTarget| -> Vec<String> {
        translate(&p, "prof", &cap, t).unwrap().iter().map(|f| f.relative_path.clone()).collect()
    };
    assert_eq!(paths(BindingTarget::Airflow), vec!["dags/p.py".to_owned()]);
    assert_eq!(paths(BindingTarget::Dagster), vec!["definitions.py".to_owned()]);
    assert_eq!(paths(BindingTarget::Temporal), vec!["workflow.py".to_owned()]);
    assert_eq!(
        paths(BindingTarget::Kubernetes),
        vec!["pipeline-configmap.yaml".to_owned(), "job.yaml".to_owned()]
    );
    let files = translate(&p, "prof", &cap, BindingTarget::Dagster).unwrap();
    assert!(files[0].content.contains("    load_result = load_op(extract_result)\n"));
    assert!(files[0].content.contains("# profileIdentity: prof\n"));
}

#[test]
fn translate_refuses_prefect() {
    let p = plan(&["a"], &[]);
    let report = translate(&p, "prof", &empty_capability(), BindingTarget::Prefect).unwrap_err();
    assert_eq!(report.diagnostics.len(), 1);
    assert_eq!(report.diagnostics[0].id, "DPCS-BIND-003");
    assert_eq!(report.diagnostics[0].message, "no binding adapter is available for target `prefect`");
}

#[test]
fn bind_plan_produces_the_adapter_bundle() {
    let mut p = plan(&["a", "b"], &[("a", "b")]);
    p.execution = Some(ExecutionRequirements {
        required_capabilities: vec!["retry".to_owned()],
        isolation: vec![],
        external_dependencies: vec![],
        resources: None,
        environment: None,
        extensions: no_ext(),
    });
    let ok = bind_plan(&p, &profile(&["retry"]), ValidationReport::new(), BindingTarget::Temporal);
    let bundle = ok.bundle().unwrap();
    assert_eq!(bundle.target, BindingTarget::Temporal);
    assert_eq!(bundle.contract_id, "p");
    assert_eq!(bundle.files.len(), 1);
    assert_eq!(bundle.files[0].relative_path, "workflow.py");
    assert_eq!(bundle.capability.satisfied, vec!["retry".to_owned()]);

    let refused = bind_plan(&p, &profile(&[]), ValidationReport::new(), BindingTarget::Temporal);
    match &refused {
        BindingResult::Failure { diagnostics, capability } => {
            assert_eq!(capability.as_ref().unwrap().missing_mandatory, vec!["retry".to_owned()]);
            let ids: Vec<&str> = diagnostics.diagnostics.iter().map(|d| d.id.as_str()).collect();
            assert_eq!(ids, vec!["DPCS-BIND-001", "DPCS-CAP-005"]);
        }
        BindingResult::Success(_) => panic!("expected refusal"),
    }

    let prefect = bind_plan(&p, &profile(&["retry"]), ValidationReport::new(), BindingTarget::Prefect);
    match &prefect {
        BindingResult::Failure { diagnostics, capability } => {
            assert!(capability.is_none());
            assert_eq!(diagnostics.diagnostics[0].id, "DPCS-BIND-003");
        }
        BindingResult::Success(_) => panic!("expected refusal"),
    }
}

#[test]
fn sanitized_names_keep_their_shape() {
    for raw in ["1st-step", "", "a.b", "__x", "Été"] {
        let ident = PlanView::python_ident(raw);
        assert!(!ident.is_empty());
        assert!(ident.chars().all(|c| c.is_ascii_alphanumeric() || c == '_'));
        assert!(!ident.starts_with(|c: char| c.is_ascii_digit()));
        assert_eq!(PlanView::python_ident(&ident), ident);
    }
    let long = "A-".repeat(40);
    for raw in ["--A__b--", "---", "x", long.as_str()] {
        let name = PlanView::k8s_name(raw);
        assert!(!name.is_empty() && name.len() <= 63);
        assert!(name.chars().all(|c| c.is_ascii_lowercase() || c.is_ascii_digit() || c == '-'));
        assert!(!name.contains("--"));
        assert!(!name.starts_with('-') && !name.ends_with('-'));
        assert_eq!(PlanView::k8s_name(&name), name);
    }
    assert_eq!(PlanView::k8s_name("--A__b--"), "a-b");
}

#[test]
fn header_lines_are_all_comments() {
    let p = plan(&["a", "b"], &[("a", "b")]);
    let cap = empty_capability();
    let ctx = BindContext { profile_identity: "prof", capability: &cap };
    let view = PlanView::new(&p, &ctx);
    let header = view.header_comment("Kubernetes");
    assert!(header.lines().all(|l| l.starts_with("# ")));
}

#[test]
fn disambiguated_names_are_base_or_numbered_base() {
    let ids = vec!["a-b".to_owned(), "a_b".to_owned(), "a.b".to_owned(), "a_b__2".to_owned()];
    let map = unique_sanitized(&ids, PlanView::python_ident);
    let names: Vec<&str> = ids.iter().map(|id| map.get(id).unwrap().as_str()).collect();
    assert_eq!(names, vec!["a_b", "a_b__2", "a_b__3", "a_b__2__2"]);
}

#[test]
fn header_keeps_line_breaks_in_values_inside_comments() {
    let p = plan(&["a\nimport os", "b\r"], &[("a\nimport os", "b\r")]);
    let cap = empty_capability();
    let ctx = BindContext { profile_identity: "prof", capability: &cap };
    let view = PlanView::new(&p, &ctx);
    let header = view.header_comment("Airflow");
    assert!(header.split('\n').all(|l| l.starts_with('#')));
    assert!(!header.contains('\r'));
    assert!(header.contains("# stepOrder: a\\nimport os, b\\r\n"));
    assert!(header.contains("# dependency a\\nimport os -> b\\r\n"));
}

#[test]
fn plan_identifiers_name_steps_and_extras_once() {
    let p = plan(&["load-1", "load.1", "2x"], &[]);
    let cap = empty_capability();
    let ctx = BindContext { profile_identity: "prof", capability: &cap };
    let view = PlanView::new(&p, &ctx);
    let idents = view.unique_python_idents(&["p", "load-1"]);
    let keys: Vec<&str> = idents.entries.iter().map(|(k, _)| k.as_str()).collect();
    assert_eq!(keys, vec!["load-1", "load.1", "2x", "p"]);
    let names: Vec<&str> = idents.entries.iter().map(|(_, v)| v.as_str()).collect();
    assert_eq!(names, vec!["load_1", "load_1__2", "_2x", "p"]);
    let k8s = view.unique_k8s_names(&[]);
    let names: Vec<&str> = k8s.entries.iter().map(|(_, v)| v.as_str()).collect();
    assert_eq!(names, vec!["load-1", "load-1__2", "2x"]);
}

#[test]
fn relative_path_check_agrees_with_path_safety() {
    for p in ["a/b.py", "a/./b", "", "/abs", "a/../b", "a\0b", "..", "x/.."] {
        assert_eq!(validate_relative_path(p).is_ok(), dpcs::paths::is_safe_relative(p), "{p:?}");
    }
}
