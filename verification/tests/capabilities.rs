use dpcs::capabilities::evaluate::{evaluate, evaluate_many, evaluate_requirements, CapabilityResult};
use dpcs::capabilities::{CapabilityDecl, CapabilityProfile};
use dpcs::diagnostics::{Diagnostic, Severity, ValidationReport};
use dpcs::model::execution::{ExecutionRequirements, ExternalDependency};
use dpcs::model::extension::ExtensionMap;
use dpcs::model::graph::PipelineGraph;
use dpcs::plan::PipelinePlan;

fn no_ext() -> ExtensionMap {
    ExtensionMap { entries: vec![] }
}

fn requirements(caps: &[&str], deps: &[&str]) -> ExecutionRequirements {
    ExecutionRequirements {
        required_capabilities: caps.iter().map(|c| (*c).to_owned()).collect(),
        isolation: vec![],
        external_dependencies: deps
            .iter()
            .map(|d| ExternalDependency { id: format!("dep-{d}"), capability: (*d).to_owned() })
            .collect(),
        resources: None,
        environment: None,
        extensions: no_ext(),
    }
}

fn profile(id: &str, version: &str, caps: &[(&str, bool)]) -> CapabilityProfile {
    CapabilityProfile {
        identity: id.to_owned(),
        dpcs_version: version.to_owned(),
        capabilities: caps.iter().map(|(c, o)| CapabilityDecl { id: (*c).to_owned(), optional: *o }).collect(),
    }
}

fn plan(exec: Option<ExecutionRequirements>) -> PipelinePlan {
    PipelinePlan {
        contract_id: "p".to_owned(),
        contract_version: "1.0.0".to_owned(),
        dpcs_version: "1.0.0".to_owned(),
        version: None,
        steps: vec![],
        graph: PipelineGraph { entry_points: vec![], exit_points: vec![], metadata: None, edges: vec![], extensions: no_ext() },
        contract_references: vec![],
        dependency_edges: vec![],
        step_order: vec![],
        execution: exec,
        scheduling: vec![],
        quality_gates: vec![],
        failure_semantics: vec![],
        lineage: None,
        nested: vec![],
    }
}

#[test]
fn demand_is_split_sorted_and_trimmed() {
    let req = requirements(&[" retry ", "cron", "", "retry"], &["http", "cron"]);
    let prof = profile("orch", "1.0.0", &[("retry", false), ("  http", true), ("gpu", true), ("", true)]);
    let r = evaluate_requirements(&req, &prof, ValidationReport::new());
    let report = r.as_capability_report();
    assert_eq!(report.satisfied, vec!["http".to_owned(), "retry".to_owned()]);
    assert_eq!(report.missing_mandatory, vec!["cron".to_owned()]);
    assert_eq!(report.unsupported_optional, vec!["gpu".to_owned()]);
    match &r {
        CapabilityResult::Failure { diagnostics, .. } => {
            assert_eq!(diagnostics.diagnostics.len(), 1);
            let d = &diagnostics.diagnostics[0];
            assert_eq!(d.id, "DPCS-CAP-005");
            assert_eq!(d.object_ref.as_deref(), Some("execution.requiredCapabilities:cron"));
            assert_eq!(d.message, "unsupported mandatory capability `cron`");
        }
        CapabilityResult::Success(_) => panic!("expected failure"),
    }
}

#[test]
fn dependency_demand_and_success() {
    let req = requirements(&[], &["s3"]);
    let missing = evaluate_requirements(&req, &profile("o", "1.0", &[]), ValidationReport::new());
    match &missing {
        CapabilityResult::Failure { diagnostics, .. } => {
            assert_eq!(diagnostics.diagnostics[0].object_ref.as_deref(), Some("execution.externalDependencies.capability:s3"));
        }
        _ => panic!("expected failure"),
    }
    let ok = evaluate_requirements(&req, &profile("o", "1.0", &[("s3", false)]), ValidationReport::new());
    assert!(ok.is_ok());
    assert_eq!(ok.report().unwrap().satisfied, vec!["s3".to_owned()]);
}

#[test]
fn version_mismatch_warns_without_failing() {
    let p = plan(None);
    let r = evaluate(&p, &profile("o", "2.0.0", &[]), ValidationReport::new());
    assert!(r.is_ok());
    let report = r.as_capability_report();
    assert_eq!(report.diagnostics.len(), 1);
    assert_eq!(report.diagnostics[0].id, "DPCS-CAP-006");
    assert_eq!(
        report.diagnostics[0].message,
        "profile dpcsVersion `2.0.0` differs from plan/contract dpcsVersion `1.0.0` (toolkit `1.0.0-draft`)"
    );
    assert_eq!(report.plan_contract_id.as_deref(), Some("p"));
}

#[test]
fn invalid_profile_fails_first() {
    let mut findings = ValidationReport::new();
    findings.push(Diagnostic::capability_error("DPCS-CAP-001", "capability", "profile identity must not be empty".to_owned()));
    let r = evaluate(&plan(Some(requirements(&["x"], &[]))), &profile("", "1.0.0", &[]), findings);
    assert!(!r.is_ok());
    assert!(r.as_capability_report().missing_mandatory.is_empty());
    assert_eq!(r.diagnostics().unwrap().diagnostics[0].id, "DPCS-CAP-001");
    assert_eq!(r.diagnostics().unwrap().diagnostics[0].severity, Severity::Error);
}

#[test]
fn evaluate_many_ranks_best_first() {
    let p = plan(Some(requirements(&["a", "b"], &[])));
    let profiles = vec![
        profile("none", "1.0.0", &[]),
        profile("all", "1.0.0", &[("a", false), ("b", false)]),
        profile("half", "1.0.0", &[("a", false)]),
        profile("all2", "1.0.0", &[("b", false), ("a", false)]),
    ];
    let mut bad = ValidationReport::new();
    bad.push(Diagnostic::capability_error("DPCS-CAP-002", "capability", "bad".to_owned()));
    let findings = vec![ValidationReport::new(), ValidationReport::new(), ValidationReport::new(), bad];
    let ranked = evaluate_many(&p, &profiles, findings);
    let ids: Vec<&str> = ranked.iter().map(|(id, _)| id.as_str()).collect();
    // `all2` fails on its profile findings with nothing matched, so among the
    // failures it has the fewest missing mandatories.
    assert_eq!(ids, vec!["all", "all2", "half", "none"]);
}

#[test]
fn evaluate_many_keeps_profile_order_among_equals() {
    let p = plan(Some(requirements(&["cron"], &[])));
    let first = profile("same", "1.0.0", &[("cron", false), ("gpu", true)]);
    let second = profile("same", "1.0.0", &[("cron", false), ("k8s", true)]);
    let ranked = evaluate_many(&p, &vec![first, second], vec![ValidationReport::new(), ValidationReport::new()]);
    assert_eq!(ranked.len(), 2);
    assert_eq!(ranked[0].1.as_capability_report().unsupported_optional, vec!["gpu".to_owned()]);
    assert_eq!(ranked[1].1.as_capability_report().unsupported_optional, vec!["k8s".to_owned()]);
}

#[test]
fn plan_and_requirement_evaluations_agree() {
    let prof = profile("o", "1.0.0", &[("retry", false), ("gpu", true)]);
    let by_plan = evaluate(&plan(Some(requirements(&["retry", "cron"], &[]))), &prof, ValidationReport::new());
    let by_req = evaluate_requirements(&requirements(&["retry", "cron"], &[]), &prof, ValidationReport::new());
    assert_eq!(by_plan.is_ok(), by_req.is_ok());
    let (a, b) = (by_plan.as_capability_report(), by_req.as_capability_report());
    assert_eq!(a.satisfied, b.satisfied);
    assert_eq!(a.missing_mandatory, b.missing_mandatory);
    assert_eq!(a.unsupported_optional, b.unsupported_optional);
    assert_eq!(a.plan_contract_id.as_deref(), Some("p"));
    assert_eq!(b.plan_contract_id, None);
}
