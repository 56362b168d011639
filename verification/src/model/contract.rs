//! Root Pipeline Contract object.
use vstd::prelude::*;

use super::execution::{ExecutionRequirements, SchedulingIntent};
use super::extension::ExtensionMap;
use super::failure::FailureSemantics;
use super::graph::{ControlFlow, DataFlow, PipelineGraph};
use super::interface::PipelineInterface;
use super::lineage::PipelineLineage;
use super::metadata::{CompatibilityPolicy, GovernanceMetadata, Metadata};
use super::quality_gate::QualityGate;
use super::security::SecurityMetadata;
use super::step::{ContractReference, PipelineStep};
use crate::text::{insert_sorted_unique, strictly_sorted};

verus! {

/// Root Canonical Object Model for a DPCS Pipeline Contract.
#[derive(Debug)]
pub struct PipelineContract {
    /// DPCS specification version this contract targets.
    pub dpcs_version: String,
    /// Stable pipeline identity.
    pub id: String,
    /// Human-readable pipeline name.
    pub name: Option<String>,
    /// Pipeline contract version.
    pub version: String,
    /// Optional descriptive metadata.
    pub metadata: Option<Metadata>,
    /// External pipeline interface.
    pub interface: PipelineInterface,
    /// Pipeline graph topology.
    pub graph: PipelineGraph,
    /// Ordered pipeline steps.
    pub steps: Vec<PipelineStep>,
    /// External contract references (ODCS, DTCS, and others).
    pub contract_references: Vec<ContractReference>,
    /// Declared data-flow relationships.
    pub data_flow: Vec<DataFlow>,
    /// Declared control-flow relationships.
    pub control_flow: Vec<ControlFlow>,
    /// Optional execution requirements.
    pub execution: Option<ExecutionRequirements>,
    /// Declared scheduling intents.
    pub scheduling: Vec<SchedulingIntent>,
    /// Quality gates attached to the pipeline.
    pub quality_gates: Vec<QualityGate>,
    /// Failure semantics attached to the pipeline.
    pub failure_semantics: Vec<FailureSemantics>,
    /// Optional lineage declarations.
    pub lineage: Option<PipelineLineage>,
    /// Optional compatibility policy.
    pub compatibility: Option<CompatibilityPolicy>,
    /// Optional security metadata.
    pub security: Option<SecurityMetadata>,
    /// Optional governance metadata.
    pub governance: Option<GovernanceMetadata>,
    /// Extension fields preserved from the source document.
    pub extensions: ExtensionMap,
}

impl PipelineContract {
    /// The set of declared step identifiers.
    pub open spec fn step_id_set(&self) -> Set<Seq<char>> {
        self.steps@.map_values(|s: PipelineStep| s.id@).to_set()
    }

    /// Returns the declared step identifiers, sorted and without repetition.
    pub fn step_ids(&self) -> (r: Vec<String>)
        ensures
            strictly_sorted(r@.map_values(|s: String| s@)),
            r@.map_values(|s: String| s@).to_set() == self.step_id_set(),
    {
        let mut out: Vec<String> = Vec::new();
        let mut i: usize = 0;
        let ghost ids = self.steps@.map_values(|s: PipelineStep| s.id@);
        assert(out@.map_values(|s: String| s@).to_set() =~= ids.take(0).to_set());
        while i < self.steps.len()
            invariant
                i <= self.steps@.len(),
                ids == self.steps@.map_values(|s: PipelineStep| s.id@),
                strictly_sorted(out@.map_values(|s: String| s@)),
                out@.map_values(|s: String| s@).to_set() == ids.take(i as int).to_set(),
            decreases self.steps.len() - i,
        {
            insert_sorted_unique(&mut out, self.steps[i].id.clone());
            assert(ids.take(i + 1) =~= ids.take(i as int).push(ids[i as int]));
            assert(ids.take(i + 1).to_set() =~= ids.take(i as int).to_set().insert(ids[i as int])) by {
                broadcast use vstd::seq_lib::group_seq_properties;
            }
            i += 1;
        }
        assert(ids.take(self.steps@.len() as int) =~= ids);
        out
    }
}

} // verus!
