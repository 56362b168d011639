//! Stable inspect / graph view models for reports.
use vstd::prelude::*;

use crate::diagnostics::{clone_opt, clone_strings, texts};
use crate::model::contract::PipelineContract;
use crate::model::graph::GraphEdge;
use crate::model::step::PipelineStep;

verus! {

/// Summary view of a pipeline contract.
#[derive(Debug)]
pub struct InspectView {
    /// Contract id.
    pub id: String,
    /// Optional display name.
    pub name: Option<String>,
    /// Contract version.
    pub version: String,
    /// Declared DPCS specification version.
    pub dpcs_version: String,
    /// Number of steps.
    pub step_count: usize,
    /// Number of graph edges.
    pub edge_count: usize,
    /// Interface input count.
    pub input_count: usize,
    /// Interface output count.
    pub output_count: usize,
    /// Contract reference count.
    pub contract_reference_count: usize,
    /// Data-flow edge count.
    pub data_flow_count: usize,
    /// Control-flow edge count.
    pub control_flow_count: usize,
    /// Scheduling intent count.
    pub scheduling_count: usize,
    /// Quality gate count.
    pub quality_gate_count: usize,
    /// Failure semantics count.
    pub failure_semantics_count: usize,
    /// Whether execution requirements are present.
    pub has_execution: bool,
    /// Whether lineage is present.
    pub has_lineage: bool,
    /// Whether structural validation currently reports no errors.
    pub valid: bool,
    /// Whether planning was refused.
    pub planning_refused: bool,
    /// Planned step order when planning succeeds.
    pub step_order: Option<Vec<String>>,
    /// Step ids.
    pub step_ids: Vec<String>,
}

/// Graph topology view for exports.
#[derive(Debug)]
pub struct GraphView {
    /// Contract id when known.
    pub contract_id: Option<String>,
    /// Declared entry points.
    pub entry_points: Vec<String>,
    /// Declared exit points.
    pub exit_points: Vec<String>,
    /// Step identifiers.
    pub step_ids: Vec<String>,
    /// Graph edges.
    pub edges: Vec<GraphEdgeView>,
    /// Planned step order when available.
    pub step_order: Option<Vec<String>>,
    /// Whether planning was refused.
    pub planning_refused: bool,
}

/// A single directed edge in a [`GraphView`].
#[derive(Debug)]
pub struct GraphEdgeView {
    /// Source node.
    pub from: String,
    /// Destination node.
    pub to: String,
    /// Optional edge kind.
    pub kind: Option<String>,
}

/// Step identifiers of a contract, in declaration order.
pub open spec fn step_id_texts(c: PipelineContract) -> Seq<Seq<char>> {
    c.steps@.map_values(|s: PipelineStep| s.id@)
}

fn step_id_strings(c: &PipelineContract) -> (r: Vec<String>)
    ensures
        texts(r@) == step_id_texts(*c),
{
    let mut out: Vec<String> = Vec::new();
    let mut i: usize = 0;
    while i < c.steps.len()
        invariant
            i <= c.steps@.len(),
            out@.len() == i,
            forall|k: int| 0 <= k < i ==> (#[trigger] out@[k])@ == c.steps@[k].id@,
        decreases c.steps.len() - i,
    {
        out.push(c.steps[i].id.clone());
        i += 1;
    }
    assert(texts(out@) =~= step_id_texts(*c));
    out
}

/// Build an [`InspectView`] from a contract, whether it validated, and the
/// planned step order (`None` when planning was refused).
pub fn inspect_view_from_contract(contract: &PipelineContract, valid: bool, planned: Option<Vec<String>>) -> (r: InspectView)
    ensures
        r.id@ == contract.id@,
        r.name == contract.name,
        r.version@ == contract.version@,
        r.dpcs_version@ == contract.dpcs_version@,
        r.step_count == contract.steps@.len(),
        r.edge_count == contract.graph.edges@.len(),
        r.input_count == contract.interface.inputs@.len(),
        r.output_count == contract.interface.outputs@.len(),
        r.contract_reference_count == contract.contract_references@.len(),
        r.data_flow_count == contract.data_flow@.len(),
        r.control_flow_count == contract.control_flow@.len(),
        r.scheduling_count == contract.scheduling@.len(),
        r.quality_gate_count == contract.quality_gates@.len(),
        r.failure_semantics_count == contract.failure_semantics@.len(),
        r.has_execution == contract.execution is Some,
        r.has_lineage == contract.lineage is Some,
        r.valid == valid,
        r.planning_refused == planned is None,
        r.step_order == planned,
        texts(r.step_ids@) == step_id_texts(*contract),
{
    let refused = planned.is_none();
    InspectView {
        id: contract.id.clone(),
        name: clone_opt(&contract.name),
        version: contract.version.clone(),
        dpcs_version: contract.dpcs_version.clone(),
        step_count: contract.steps.len(),
        edge_count: contract.graph.edges.len(),
        input_count: contract.interface.inputs.len(),
        output_count: contract.interface.outputs.len(),
        contract_reference_count: contract.contract_references.len(),
        data_flow_count: contract.data_flow.len(),
        control_flow_count: contract.control_flow.len(),
        scheduling_count: contract.scheduling.len(),
        quality_gate_count: contract.quality_gates.len(),
        failure_semantics_count: contract.failure_semantics.len(),
        has_execution: contract.execution.is_some(),
        has_lineage: contract.lineage.is_some(),
        valid,
        planning_refused: refused,
        step_order: planned,
        step_ids: step_id_strings(contract),
    }
}

/// `v` is the graph view of contract `c` with planned step order `planned`:
/// the contract's id, entry and exit points, step ids in declaration order,
/// its graph edges one for one, and the plan outcome.
pub open spec fn graph_view_of(v: GraphView, c: PipelineContract, planned: Option<Vec<String>>) -> bool {
    &&& v.contract_id == Some(c.id)
    &&& v.entry_points@ == c.graph.entry_points@
    &&& v.exit_points@ == c.graph.exit_points@
    &&& texts(v.step_ids@) == step_id_texts(c)
    &&& v.edges@.len() == c.graph.edges@.len()
    &&& forall|i: int| 0 <= i < v.edges@.len() ==> (#[trigger] v.edges@[i]).from == c.graph.edges@[i].from
            && v.edges@[i].to == c.graph.edges@[i].to && v.edges@[i].kind == c.graph.edges@[i].kind
    &&& v.step_order == planned
    &&& v.planning_refused == planned is None
}

/// Build a [`GraphView`] from a contract and its planned step order (`None`
/// when planning was refused).
pub fn graph_view_from_contract(contract: &PipelineContract, planned: Option<Vec<String>>) -> (r: GraphView)
    ensures
        graph_view_of(r, *contract, planned),
{
    let mut edges: Vec<GraphEdgeView> = Vec::new();
    let mut i: usize = 0;
    while i < contract.graph.edges.len()
        invariant
            i <= contract.graph.edges@.len(),
            edges@.len() == i,
            forall|k: int| 0 <= k < i ==> (#[trigger] edges@[k]).from == contract.graph.edges@[k].from
                && edges@[k].to == contract.graph.edges@[k].to && edges@[k].kind == contract.graph.edges@[k].kind,
        decreases contract.graph.edges.len() - i,
    {
        let e = &contract.graph.edges[i];
        edges.push(GraphEdgeView { from: e.from.clone(), to: e.to.clone(), kind: clone_opt(&e.kind) });
        i += 1;
    }
    let refused = planned.is_none();
    GraphView {
        contract_id: Some(contract.id.clone()),
        entry_points: clone_strings(&contract.graph.entry_points),
        exit_points: clone_strings(&contract.graph.exit_points),
        step_ids: step_id_strings(contract),
        edges,
        step_order: planned,
        planning_refused: refused,
    }
}

} // verus!
