//! Pipeline Plans: the canonical intermediate representation of a validated contract.
use vstd::prelude::*;

pub mod assemble;

use crate::diagnostics::ValidationReport;
use crate::model::execution::{ExecutionRequirements, SchedulingIntent};
use crate::model::failure::FailureSemantics;
use crate::model::graph::PipelineGraph;
use crate::model::lineage::PipelineLineage;
use crate::model::quality_gate::QualityGate;
use crate::model::step::{ContractReference, PipelineStep};

verus! {

/// Directed dependency edge captured in a Pipeline Plan.
#[derive(Debug)]
pub struct PlanDependencyEdge {
    /// Source step identifier.
    pub from: String,
    /// Destination step identifier.
    pub to: String,
}

/// Canonical intermediate representation produced from a validated contract.
#[derive(Debug)]
pub struct PipelinePlan {
    /// Identity of the source pipeline contract.
    pub contract_id: String,
    /// Version of the source pipeline contract.
    pub contract_version: String,
    /// DPCS specification version declared by the source contract.
    pub dpcs_version: String,
    /// Optional independent Pipeline Plan version.
    pub version: Option<String>,
    /// Resolved pipeline steps.
    pub steps: Vec<PipelineStep>,
    /// Resolved pipeline graph.
    pub graph: PipelineGraph,
    /// Resolved contract references.
    pub contract_references: Vec<ContractReference>,
    /// Dependency edges derived from graph, control flow, and data flow.
    pub dependency_edges: Vec<PlanDependencyEdge>,
    /// Ordered step identifiers in plan order.
    ///
    /// Ordering is a deterministic topological sort over the dependency graph.
    /// Ready nodes are emitted in sorted step-id order (not declaration order).
    pub step_order: Vec<String>,
    /// Preserved execution requirements.
    pub execution: Option<ExecutionRequirements>,
    /// Preserved scheduling intents.
    pub scheduling: Vec<SchedulingIntent>,
    /// Preserved quality gates.
    pub quality_gates: Vec<QualityGate>,
    /// Preserved failure semantics.
    pub failure_semantics: Vec<FailureSemantics>,
    /// Preserved lineage.
    pub lineage: Option<PipelineLineage>,
    /// Nested Pipeline Contracts loaded during planning.
    pub nested: Vec<NestedPlanPipeline>,
}

/// Nested pipeline captured on a [`PipelinePlan`].
#[derive(Debug)]
pub struct NestedPlanPipeline {
    /// Parent step identifier.
    pub parent_step_id: String,
    /// Contract reference id or location used to load the nested contract.
    pub contract_ref: String,
    /// Nested contract identity.
    pub contract_id: String,
    /// Nested contract version.
    pub contract_version: String,
    /// Nested contract DPCS version.
    pub dpcs_version: String,
    /// Nested interface input port identifiers.
    pub input_ports: Vec<String>,
    /// Nested interface output port identifiers.
    pub output_ports: Vec<String>,
    /// Deterministic nested step order when the nested graph is acyclic.
    pub step_order: Vec<String>,
    /// Recursively nested children.
    pub children: Vec<NestedPlanPipeline>,
}

/// Result of attempting to produce a Pipeline Plan.
#[derive(Debug)]
pub enum PlanResult {
    /// Plan produced from a successfully validated contract.
    Success(Box<PipelinePlan>),
    /// Planning refused because the contract is invalid or incomplete.
    Failure(ValidationReport),
}

impl PlanResult {
    /// Returns the plan when planning succeeded.
    pub fn plan(self) -> (r: Option<PipelinePlan>)
        ensures
            match self {
                PlanResult::Success(p) => r == Some(*p),
                PlanResult::Failure(_) => r is None,
            },
    {
        match self {
            PlanResult::Success(plan) => Some(*plan),
            PlanResult::Failure(_) => None,
        }
    }

    /// Returns a reference to the plan when planning succeeded.
    pub fn as_plan(&self) -> (r: Option<&PipelinePlan>)
        ensures
            match self {
                PlanResult::Success(p) => r == Some(&**p),
                PlanResult::Failure(_) => r is None,
            },
    {
        match self {
            PlanResult::Success(plan) => Some(&**plan),
            PlanResult::Failure(_) => None,
        }
    }

    /// Returns whether planning succeeded.
    pub fn is_ok(&self) -> (r: bool)
        ensures
            r == (self is Success),
    {
        match self {
            PlanResult::Success(_) => true,
            PlanResult::Failure(_) => false,
        }
    }

    /// Returns planning/validation diagnostics when planning failed.
    pub fn report(&self) -> (r: Option<&ValidationReport>)
        ensures
            match self {
                PlanResult::Success(_) => r is None,
                PlanResult::Failure(rep) => r == Some(rep),
            },
    {
        match self {
            PlanResult::Success(_) => None,
            PlanResult::Failure(report) => Some(report),
        }
    }
}

} // verus!
