use dpcs::diagnostics::{Diagnostic, ValidationReport};
use dpcs::model::contract::PipelineContract;
use dpcs::model::extension::ExtensionMap;
use dpcs::model::graph::PipelineGraph;
use dpcs::model::interface::{InterfacePort, PipelineInterface};
use dpcs::model::step::PipelineStep;
use dpcs::plan::assemble::{assemble_plan, nested_pipeline_to_plan};
use dpcs::plan::{PlanDependencyEdge, PlanResult};
use dpcs::resolve::{NestedPipeline, ResolutionResult};

fn no_ext() -> ExtensionMap {
    ExtensionMap { entries: vec![] }
}

fn step(id: &str) -> PipelineStep {
    PipelineStep {
        id: id.to_owned(),
        step_type: "extension:noop".to_owned(),
        name: None,
        contract_ref: None,
        transform_ref: None,
        inputs: vec![],
        outputs: vec![],
        extensions: no_ext(),
    }
}

fn contract(id: &str, steps: &[&str]) -> PipelineContract {
    PipelineContract {
        dpcs_version: "1.0.0".to_owned(),
        id: id.to_owned(),
        name: None,
        version: "0.1.0".to_owned(),
        metadata: None,
        interface: PipelineInterface { inputs: vec![], outputs: vec![], metadata: None, extensions: no_ext() },
        graph: PipelineGraph { entry_points: vec![], exit_points: vec![], metadata: None, edges: vec![], extensions: no_ext() },
        steps: steps.iter().map(|s| step(s)).collect(),
        contract_references: vec![],
        data_flow: vec![],
        control_flow: vec![],
        execution: None,
        scheduling: vec![],
        quality_gates: vec![],
        failure_semantics: vec![],
        lineage: None,
        compatibility: None,
        security: None,
        governance: None,
        extensions: no_ext(),
    }
}

fn resolved(nested: Vec<NestedPipeline>) -> ResolutionResult {
    ResolutionResult { locations: vec![], nested, report: ValidationReport::new() }
}

fn edge(from: &str, to: &str) -> PlanDependencyEdge {
    PlanDependencyEdge { from: from.to_owned(), to: to.to_owned() }
}

#[test]
fn refuses_invalid_contract_with_pln_001() {
    // The validation findings of a contract whose only step has an empty id.
    let mut validation = ValidationReport::new();
    validation.push(Diagnostic::error("DPCS-COM-004", "canonicalObjectModel", "step id must not be empty".to_owned()));
    let c = contract("test", &[""]);
    let PlanResult::Failure(report) = assemble_plan(c, validation, resolved(vec![]), Ok(vec!["".to_owned()]), vec![], vec![]) else {
        panic!("expected planning refusal");
    };
    assert!(report.diagnostics.iter().any(|d| d.id == "DPCS-PLN-001"));
    assert!(report.diagnostics.iter().any(|d| d.id == "DPCS-COM-004"));
    let pln = report.diagnostics.iter().find(|d| d.id == "DPCS-PLN-001").unwrap();
    assert_eq!(pln.related_diagnostics, vec!["DPCS-COM-004".to_owned()]);
    assert_eq!(pln.message, "pipeline plan requires a successfully validated contract");
}

#[test]
fn plans_valid_minimal_contract() {
    let c = contract("test", &["a", "b"]);
    let order = Ok(vec!["a".to_owned(), "b".to_owned()]);
    let PlanResult::Success(plan) = assemble_plan(c, ValidationReport::new(), resolved(vec![]), order, vec![edge("a", "b")], vec![])
    else {
        panic!("expected successful plan");
    };
    assert_eq!(plan.step_order, vec!["a", "b"]);
    assert_eq!(plan.dependency_edges.len(), 1);
    assert_eq!(plan.dependency_edges[0].from, "a");
    assert_eq!(plan.dependency_edges[0].to, "b");
    assert_eq!(plan.contract_id, "test");
    assert!(plan.lineage.is_none());
}

#[test]
fn cyclic_dependencies_refuse_the_plan() {
    let c = contract("test", &["a", "b"]);
    let cycle = Err(vec!["a".to_owned(), "b".to_owned(), "a".to_owned()]);
    let PlanResult::Failure(report) = assemble_plan(c, ValidationReport::new(), resolved(vec![]), cycle, vec![], vec![]) else {
        panic!("expected planning refusal");
    };
    assert_eq!(report.diagnostics.len(), 1);
    assert_eq!(report.diagnostics[0].id, "DPCS-PLN-002");
    assert_eq!(report.diagnostics[0].message, "pipeline dependency graph contains a cycle: a -> b -> a");
}

#[test]
fn nested_pipelines_reach_plan_and_lineage() {
    let mut child = contract("child", &["x"]);
    child.interface.inputs.push(InterfacePort { id: "in".to_owned(), name: None, contract_ref: None, purpose: None, extensions: no_ext() });
    let n = NestedPipeline { parent_step_id: "a".to_owned(), contract_ref: "child.yaml".to_owned(), contract: child, children: vec![] };
    let as_plan = nested_pipeline_to_plan(
        NestedPipeline {
            parent_step_id: "a".to_owned(),
            contract_ref: "child.yaml".to_owned(),
            contract: contract("child", &["x"]),
            children: vec![],
        },
        vec!["x".to_owned()],
        vec![],
    );
    assert_eq!(as_plan.contract_id, "child");
    assert!(as_plan.input_ports.is_empty());
    let c = contract("parent", &["a"]);
    let PlanResult::Success(plan) =
        assemble_plan(c, ValidationReport::new(), resolved(vec![n]), Ok(vec!["a".to_owned()]), vec![], vec![as_plan])
    else {
        panic!("expected successful plan");
    };
    assert_eq!(plan.nested.len(), 1);
    assert_eq!(plan.nested[0].step_order, vec!["x".to_owned()]);
    let p = plan.lineage.as_ref().unwrap().provenance.as_ref().unwrap();
    assert_eq!(p.originating.as_deref(), Some("parent"));
    assert_eq!(p.nested, vec!["child".to_owned()]);
}
