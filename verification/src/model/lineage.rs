//! Pipeline lineage model.
use vstd::prelude::*;

use super::extension::ExtensionMap;

verus! {

/// Declared lineage information for a Pipeline Contract.
#[derive(Debug)]
pub struct PipelineLineage {
    /// Dataset provenance relationships.
    pub datasets: Vec<DatasetLineage>,
    /// Step provenance relationships.
    pub steps: Vec<StepLineage>,
    /// Pipeline contract provenance.
    pub provenance: Option<PipelineProvenance>,
    /// Optional audit metadata (non-semantic).
    pub audit: Option<LineageAudit>,
    /// Extension fields.
    pub extensions: ExtensionMap,
}

/// Dataset provenance within a pipeline.
#[derive(Debug)]
pub struct DatasetLineage {
    /// Dataset identity.
    pub dataset: String,
    /// Producing pipeline step identifier.
    pub produced_by: Option<String>,
    /// Consuming pipeline step identifiers.
    pub consumed_by: Vec<String>,
    /// Associated data contract reference id.
    pub contract_ref: Option<String>,
    /// Associated transformation contract reference id.
    pub transform_ref: Option<String>,
    /// Extension fields.
    pub extensions: ExtensionMap,
}

/// Step provenance within a pipeline.
#[derive(Debug)]
pub struct StepLineage {
    /// Step identity.
    pub step_id: String,
    /// Predecessor step identifiers.
    pub predecessors: Vec<String>,
    /// Successor step identifiers.
    pub successors: Vec<String>,
    /// Dependency semantics description.
    pub dependency_kind: Option<String>,
    /// Associated contract reference id.
    pub contract_ref: Option<String>,
    /// Extension fields.
    pub extensions: ExtensionMap,
}

/// Provenance describing contract origin and relationships.
#[derive(Debug)]
pub struct PipelineProvenance {
    /// Originating pipeline contract identifier.
    pub originating: Option<String>,
    /// Parent pipeline contract identifiers.
    pub parents: Vec<String>,
    /// Nested pipeline contract identifiers.
    pub nested: Vec<String>,
    /// Imported pipeline contract identifiers.
    pub imported: Vec<String>,
    /// Version history entries.
    pub version_history: Vec<String>,
    /// Extension fields.
    pub extensions: ExtensionMap,
}

/// Non-semantic audit metadata for lineage.
#[derive(Debug)]
pub struct LineageAudit {
    /// Contract identifiers for audit.
    pub contract_ids: Vec<String>,
    /// Version identifiers for audit.
    pub version_ids: Vec<String>,
    /// Timestamps for audit.
    pub timestamps: Vec<String>,
    /// Extension fields.
    pub extensions: ExtensionMap,
}

} // verus!
