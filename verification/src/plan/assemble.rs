//! Building a Pipeline Plan from a contract and the results of analysing it.
//!
//! Validation, reference resolution and the dependency analysis (the
//! topological step order and the dependency edges) come in as arguments;
//! deciding whether a plan can be built, what a refused plan reports, and
//! what a plan holds is done here.
use vstd::prelude::*;

use super::{NestedPlanPipeline, PipelinePlan, PlanDependencyEdge, PlanResult};
use crate::diagnostics::report::{diagnostics_sorted, law_sort_is_sorted_permutation, no_errors, sort_diagnostics};
use crate::diagnostics::{categories, owned, texts, Diagnostic, DiagnosticStage, DiagnosticView, Severity, ValidationReport};
use crate::model::contract::PipelineContract;
use crate::model::interface::InterfacePort;
use crate::resolve::nesting::{apply_nested_provenance, error_ids, error_ids_exec, provenance_applied};
use crate::resolve::{NestedPipeline, ResolutionResult};
use crate::text::{join, join_strings, push_str};

verus! {

/// The refusal of a plan for a contract with errors, naming them.
pub open spec fn unvalidated_view(findings: Seq<DiagnosticView>) -> DiagnosticView {
    DiagnosticView {
        remediation: Some("Resolve validation errors before planning"@),
        related_diagnostics: error_ids(findings),
        ..Diagnostic::fresh("DPCS-PLN-001"@, Severity::Error, DiagnosticStage::Planning, "planning"@,
            "pipeline plan requires a successfully validated contract"@)
    }
}

/// A plan refused for errors reports every finding once more than it was
/// given: all the findings and one `DPCS-PLN-001` error naming the errors,
/// in deterministic order.
pub proof fn law_plan_refusal_report(findings: Seq<DiagnosticView>)
    ensures
        ({
            let rep = sort_diagnostics(seq![unvalidated_view(findings)] + findings);
            &&& rep.len() == findings.len() + 1
            &&& rep.to_multiset() == findings.to_multiset().insert(unvalidated_view(findings))
            &&& diagnostics_sorted(rep)
            &&& unvalidated_view(findings).severity == Severity::Error
            &&& unvalidated_view(findings).related_diagnostics == error_ids(findings)
        }),
{
    broadcast use vstd::seq_lib::group_to_multiset_ensures;
    let all = seq![unvalidated_view(findings)] + findings;
    law_sort_is_sorted_permutation(all);
    assert(all.to_multiset() =~= findings.to_multiset().insert(unvalidated_view(findings))) by {
        let one = seq![unvalidated_view(findings)];
        vstd::seq_lib::lemma_multiset_commutative(one, findings);
        assert(one =~= Seq::<DiagnosticView>::empty().push(unvalidated_view(findings)));
        assert(Seq::<DiagnosticView>::empty().to_multiset().len() == 0);
    }
    assert(sort_diagnostics(all).len() == sort_diagnostics(all).to_multiset().len());
    assert(all.len() == all.to_multiset().len());
}

/// The refusal of a plan whose dependencies form a cycle.
pub open spec fn cycle_view(cycle: Seq<Seq<char>>) -> DiagnosticView {
    DiagnosticView {
        remediation: Some("Remove cyclic graph / control-flow / data-flow dependencies"@),
        ..Diagnostic::fresh("DPCS-PLN-002"@, Severity::Error, DiagnosticStage::Planning, "planning"@,
            "pipeline dependency graph contains a cycle: "@ + join(cycle, " -> "@))
    }
}

/// Identifiers of ports.
pub open spec fn port_ids(ports: Seq<InterfacePort>) -> Seq<Seq<char>> {
    ports.map_values(|p: InterfacePort| p.id@)
}

fn port_ids_exec(ports: &Vec<InterfacePort>) -> (r: Vec<String>)
    ensures
        texts(r@) == port_ids(ports@),
{
    let mut out: Vec<String> = Vec::new();
    let mut i: usize = 0;
    while i < ports.len()
        invariant
            i <= ports@.len(),
            texts(out@) == port_ids(ports@.take(i as int)),
        decreases ports.len() - i,
    {
        let ghost before = out@;
        out.push(ports[i].id.clone());
        assert(texts(out@) =~= texts(before).push(ports@[i as int].id@));
        assert(port_ids(ports@.take(i + 1)) =~= port_ids(ports@.take(i as int)).push(ports@[i as int].id@));
        i += 1;
    }
    assert(ports@.take(ports@.len() as int) =~= ports@);
    out
}

/// A nested pipeline as it appears in a plan, given its own step order and
/// its children already converted.
pub fn nested_pipeline_to_plan(n: NestedPipeline, step_order: Vec<String>, children: Vec<NestedPlanPipeline>) -> (r: NestedPlanPipeline)
    ensures
        r.parent_step_id == n.parent_step_id,
        r.contract_ref == n.contract_ref,
        r.contract_id == n.contract.id,
        r.contract_version == n.contract.version,
        r.dpcs_version == n.contract.dpcs_version,
        texts(r.input_ports@) == port_ids(n.contract.interface.inputs@),
        texts(r.output_ports@) == port_ids(n.contract.interface.outputs@),
        r.step_order == step_order,
        r.children == children,
{
    let input_ports = port_ids_exec(&n.contract.interface.inputs);
    let output_ports = port_ids_exec(&n.contract.interface.outputs);
    let NestedPipeline { parent_step_id, contract_ref, contract, children: _ } = n;
    NestedPlanPipeline {
        parent_step_id,
        contract_ref,
        contract_id: contract.id,
        contract_version: contract.version,
        dpcs_version: contract.dpcs_version,
        input_ports,
        output_ports,
        step_order,
        children,
    }
}

/// Build the Pipeline Plan of `contract`. `validation` is the contract's
/// validation report and `resolution` the outcome of resolving its
/// references; `order` is the topological step order of its dependency graph
/// (or the steps of a cycle), `edges` the dependency edges, and
/// `nested_plans` the nested pipelines of the resolution as plans.
///
/// Any error among the validation and resolution findings refuses the plan
/// with `DPCS-PLN-001` naming the errors, followed by all the findings; a
/// cycle refuses it with `DPCS-PLN-002`. Otherwise the plan carries the
/// contract's identity, steps, graph, references and intents, the given
/// order, edges and nested plans, and the contract's lineage with the nested
/// pipelines recorded in its provenance.
pub fn assemble_plan(
    contract: PipelineContract,
    validation: ValidationReport,
    resolution: ResolutionResult,
    order: Result<Vec<String>, Vec<String>>,
    edges: Vec<PlanDependencyEdge>,
    nested_plans: Vec<NestedPlanPipeline>,
) -> (r: PlanResult)
    ensures
        !no_errors(validation@ + resolution.report@) ==> (r matches PlanResult::Failure(rep)
            && rep@ == sort_diagnostics(seq![unvalidated_view(validation@ + resolution.report@)] + validation@ + resolution.report@)),
        no_errors(validation@ + resolution.report@) ==> match order {
            Err(cycle) => r matches PlanResult::Failure(rep) && rep@ == sort_diagnostics(seq![cycle_view(texts(cycle@))]),
            Ok(o) => r matches PlanResult::Success(p) && {
                &&& p.contract_id == contract.id
                &&& p.contract_version == contract.version
                &&& p.dpcs_version == contract.dpcs_version
                &&& p.version is None
                &&& p.steps == contract.steps
                &&& p.graph == contract.graph
                &&& p.contract_references == contract.contract_references
                &&& p.dependency_edges == edges
                &&& p.step_order == o
                &&& p.execution == contract.execution
                &&& p.scheduling == contract.scheduling
                &&& p.quality_gates == contract.quality_gates
                &&& p.failure_semantics == contract.failure_semantics
                &&& p.nested == nested_plans
                &&& if resolution.nested@.len() == 0 {
                    p.lineage == contract.lineage
                } else {
                    p.lineage matches Some(l) && provenance_applied(contract.lineage, l, contract.id@, resolution.nested@)
                }
            },
        },
{
    let mut report = validation;
    let ghost v = report@;
    let ResolutionResult { locations: _, nested, report: resolution_report } = resolution;
    report.extend(resolution_report);
    if !report.is_valid() {
        let related = error_ids_exec(&report);
        let d = Diagnostic::planning_error("DPCS-PLN-001", categories::PLANNING,
            owned("pipeline plan requires a successfully validated contract"))
            .with_remediation(owned("Resolve validation errors before planning"))
            .with_related(related);
        let ghost dv = d@;
        let mut planning = ValidationReport::new();
        planning.push(d);
        planning.extend(report);
        proof { reveal_strlit("planning"); }
        assert(planning@ =~= seq![dv] + v + resolution.report@);
        planning.sort_deterministic();
        return PlanResult::Failure(planning);
    }
    let step_order = match order {
        Ok(o) => o,
        Err(cycle) => {
            let mut m = String::from_str("pipeline dependency graph contains a cycle: ");
            let path = join_strings(&cycle, " -> ");
            assert(texts(cycle@) =~= cycle@.map_values(|s: String| s@));
            push_str(&mut m, path.as_str());
            let d = Diagnostic::planning_error("DPCS-PLN-002", categories::PLANNING, m)
                .with_remediation(owned("Remove cyclic graph / control-flow / data-flow dependencies"));
            let ghost dv = d@;
            let mut planning = ValidationReport::new();
            planning.push(d);
            proof { reveal_strlit("planning"); }
            assert(planning@ =~= seq![dv]);
            planning.sort_deterministic();
            return PlanResult::Failure(planning);
        },
    };
    let PipelineContract {
        dpcs_version, id, name: _, version, metadata: _, interface: _, graph, steps, contract_references,
        data_flow: _, control_flow: _, execution, scheduling, quality_gates, failure_semantics, lineage,
        compatibility: _, security: _, governance: _, extensions: _,
    } = contract;
    let mut lineage = lineage;
    apply_nested_provenance(&mut lineage, id.as_str(), &nested);
    PlanResult::Success(Box::new(PipelinePlan {
        contract_id: id,
        contract_version: version,
        dpcs_version,
        version: None,
        steps,
        graph,
        contract_references,
        dependency_edges: edges,
        step_order,
        execution,
        scheduling,
        quality_gates,
        failure_semantics,
        lineage,
        nested: nested_plans,
    }))
}

} // verus!
