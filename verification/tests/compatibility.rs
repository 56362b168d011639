use dpcs::compatibility::compare::{compare_contracts, compare_plans, CompatibilityCategory};
use dpcs::model::contract::PipelineContract;
use dpcs::model::extension::{ExtensionEntry, ExtensionMap, ExtensionValue};
use dpcs::model::graph::{ControlFlow, PipelineGraph};
use dpcs::model::interface::{InterfacePort, PipelineInterface};
use dpcs::model::step::{PipelineStep, StepPort};
use dpcs::plan::PipelinePlan;

fn no_ext() -> ExtensionMap {
    ExtensionMap { entries: vec![] }
}

fn step(id: &str, inputs: &[&str]) -> PipelineStep {
    PipelineStep {
        id: id.to_owned(),
        step_type: "extension:noop".to_owned(),
        name: None,
        contract_ref: None,
        transform_ref: None,
        inputs: inputs.iter().map(|p| StepPort { id: (*p).to_owned(), contract_ref: None, extensions: no_ext() }).collect(),
        outputs: vec![],
        extensions: no_ext(),
    }
}

fn contract(version: &str, steps: Vec<PipelineStep>) -> PipelineContract {
    PipelineContract {
        dpcs_version: "1.0.0".to_owned(),
        id: "p".to_owned(),
        name: None,
        version: version.to_owned(),
        metadata: None,
        interface: PipelineInterface { inputs: vec![], outputs: vec![], metadata: None, extensions: no_ext() },
        graph: PipelineGraph { entry_points: vec![], exit_points: vec![], metadata: None, edges: vec![], extensions: no_ext() },
        steps,
        contract_references: vec![],
        data_flow: vec![],
        control_flow: vec![],
        execution: None,
        scheduling: vec![],
        quality_gates: vec![],
        failure_semantics: vec![],
        lineage: None,
        compatibility: None,
        security: None,
        governance: None,
        extensions: no_ext(),
    }
}

fn plan_of(c: &PipelineContract, order: &[&str]) -> PipelinePlan {
    PipelinePlan {
        contract_id: c.id.clone(),
        contract_version: c.version.clone(),
        dpcs_version: c.dpcs_version.clone(),
        version: None,
        steps: c.steps.iter().map(|s| step(&s.id, &[])).collect(),
        graph: PipelineGraph { entry_points: vec![], exit_points: vec![], metadata: None, edges: vec![], extensions: no_ext() },
        contract_references: vec![],
        dependency_edges: vec![],
        step_order: order.iter().map(|s| (*s).to_owned()).collect(),
        execution: None,
        scheduling: vec![],
        quality_gates: vec![],
        failure_semantics: vec![],
        lineage: None,
        nested: vec![],
    }
}

#[test]
fn additive_step_is_backward_compatible() {
    let baseline = contract("1.0.0", vec![step("a", &[])]);
    let candidate = contract("1.1.0", vec![step("a", &[]), step("b", &[])]);
    let result = compare_contracts(&baseline, &candidate);
    assert!(result.is_ok());
    assert_eq!(result.report().category, CompatibilityCategory::BackwardCompatible);
}

#[test]
fn step_port_removal_is_breaking() {
    let baseline = contract("1.0.0", vec![step("a", &["in"])]);
    let candidate = contract("1.1.0", vec![step("a", &[])]);
    let result = compare_contracts(&baseline, &candidate);
    assert!(!result.is_ok());
    assert!(result.report().diagnostics.iter().any(|d| d.id == "DPCS-COMPAT-017"));
}

#[test]
fn control_flow_kind_change_is_breaking() {
    let mut baseline = contract("1.0.0", vec![step("a", &[]), step("b", &[])]);
    baseline.control_flow.push(ControlFlow { from: "a".into(), to: "b".into(), kind: Some("success".into()), extensions: no_ext() });
    let mut candidate = contract("1.1.0", vec![step("a", &[]), step("b", &[])]);
    candidate.control_flow.push(ControlFlow { from: "a".into(), to: "b".into(), kind: Some("failure".into()), extensions: no_ext() });
    let result = compare_contracts(&baseline, &candidate);
    assert!(!result.is_ok());
}

#[test]
fn extension_removal_is_forward_compatible() {
    let mut baseline = contract("1.0.0", vec![step("a", &[])]);
    baseline.extensions.entries.push(ExtensionEntry {
        key: "x-vendor".to_owned(),
        value: ExtensionValue { json: "{\"team\":\"data\"}".to_owned() },
    });
    let candidate = contract("1.1.0", vec![step("a", &[])]);
    let result = compare_contracts(&baseline, &candidate);
    assert!(result.is_ok());
    assert_eq!(result.report().category, CompatibilityCategory::ForwardCompatible);
}

#[test]
fn compare_plans_additive_is_backward_compatible() {
    let baseline = contract("1.0.0", vec![step("a", &[])]);
    let candidate = contract("1.1.0", vec![step("a", &[]), step("b", &[])]);
    let base_plan = plan_of(&baseline, &["a"]);
    let cand_plan = plan_of(&candidate, &["a", "b"]);
    let result = compare_plans(&base_plan, &cand_plan);
    assert!(result.is_ok());
    assert_eq!(result.report().category, CompatibilityCategory::BackwardCompatible);
}

#[test]
fn self_comparison_is_fully_compatible() {
    let c = contract("1.0.0", vec![step("a", &["x"]), step("b", &[])]);
    let result = compare_contracts(&c, &c);
    assert_eq!(result.report().category, CompatibilityCategory::FullyCompatible);
    assert!(result.report().diagnostics.is_empty());
    let p = plan_of(&c, &["a", "b"]);
    let plans = compare_plans(&p, &p);
    assert_eq!(plans.report().category, CompatibilityCategory::FullyCompatible);
}

#[test]
fn version_change_alone_changes_nothing() {
    let a = contract("1.0.0", vec![step("a", &[])]);
    let b = contract("9.9.9", vec![step("a", &[])]);
    let result = compare_contracts(&a, &b);
    assert_eq!(result.report().category, CompatibilityCategory::FullyCompatible);
    assert_eq!(result.report().baseline_version, "1.0.0");
    assert_eq!(result.report().candidate_version, "9.9.9");
}

#[test]
fn identity_change_is_conditional_and_errors_mean_incompatible() {
    let a = contract("1.0.0", vec![step("a", &[])]);
    let mut b = contract("1.0.0", vec![step("a", &[])]);
    b.id = "q".to_owned();
    let result = compare_contracts(&a, &b);
    assert!(result.is_ok());
    assert_eq!(result.report().category, CompatibilityCategory::ConditionallyCompatible);
    let d = &result.report().diagnostics[0];
    assert_eq!(d.id, "DPCS-COMPAT-001");
    assert_eq!(d.message, "pipeline identity differs (`p` vs `q`); comparison continues on structure");

    let removed = compare_contracts(&contract("1", vec![step("a", &[]), step("b", &[])]), &contract("1", vec![step("a", &[])]));
    assert_eq!(removed.report().category, CompatibilityCategory::Incompatible);
    assert!(removed.report().diagnostics.iter().any(|d| d.id == "DPCS-COMPAT-005" && d.message == "step `b` removed"
        && d.object_ref.as_deref() == Some("steps.b")));
}

#[test]
fn duplicate_ports_break_and_port_changes_are_named() {
    let mut a = contract("1", vec![]);
    let port = |id: &str, name: Option<&str>| InterfacePort {
        id: id.to_owned(),
        name: name.map(|s| s.to_owned()),
        contract_ref: None,
        purpose: None,
        extensions: no_ext(),
    };
    a.interface.inputs = vec![port("x", Some("one"))];
    let mut b = contract("1", vec![]);
    b.interface.inputs = vec![port("x", Some("two")), port("y", None)];
    let result = compare_contracts(&a, &b);
    let ids: Vec<&str> = result.report().diagnostics.iter().map(|d| d.id.as_str()).collect();
    assert_eq!(ids, vec!["DPCS-COMPAT-004", "DPCS-COMPAT-013"]);
    assert_eq!(result.report().diagnostics[1].object_ref.as_deref(), Some("interface.inputs.x.name"));
    let mut dup = contract("1", vec![]);
    dup.interface.outputs = vec![port("o", None), port("o", None)];
    let r = compare_contracts(&dup, &dup);
    assert_eq!(r.report().category, CompatibilityCategory::Incompatible);
    assert_eq!(CompatibilityCategory::Incompatible.as_str(), "incompatible");
    assert!(!CompatibilityCategory::Incompatible.is_compatible());
}

#[test]
fn plan_reorder_is_conditional() {
    let c = contract("1", vec![step("a", &[]), step("b", &[])]);
    let p1 = plan_of(&c, &["a", "b"]);
    let p2 = plan_of(&c, &["b", "a"]);
    let r = compare_plans(&p1, &p2);
    assert_eq!(r.report().category, CompatibilityCategory::ConditionallyCompatible);
    assert_eq!(r.report().diagnostics[0].id, "DPCS-COMPAT-044");
}

#[test]
fn plan_reorder_only_warns_once() {
    let c = contract("1", vec![step("a", &[]), step("b", &[]), step("c", &[])]);
    let r = compare_plans(&plan_of(&c, &["a", "b", "c"]), &plan_of(&c, &["c", "a", "b"]));
    assert!(r.is_ok());
    assert_eq!(r.report().diagnostics.len(), 1);
    assert_eq!(r.report().diagnostics[0].severity, dpcs::diagnostics::Severity::Warning);
}
