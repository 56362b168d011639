//! Pipeline steps, step ports and contract references.
use vstd::prelude::*;

use super::extension::ExtensionMap;

verus! {

/// A single pipeline step.
#[derive(Debug)]
pub struct PipelineStep {
    /// Stable step identifier.
    pub id: String,
    /// Step type (for example `transform` or `extension:noop`).
    pub step_type: String,
    /// Optional display name.
    pub name: Option<String>,
    /// Reference to a data contract in `contractReferences`.
    pub contract_ref: Option<String>,
    /// Reference to a transformation contract.
    pub transform_ref: Option<String>,
    /// Step input ports.
    pub inputs: Vec<StepPort>,
    /// Step output ports.
    pub outputs: Vec<StepPort>,
    /// Extension fields.
    pub extensions: ExtensionMap,
}

/// An input or output port of a step.
#[derive(Debug)]
pub struct StepPort {
    /// Port identifier, unique within the step side.
    pub id: String,
    /// Reference to a contract in `contractReferences`.
    pub contract_ref: Option<String>,
    /// Extension fields.
    pub extensions: ExtensionMap,
}

/// Reference to an external contract (ODCS, DTCS, nested DPCS and others).
#[derive(Debug)]
pub struct ContractReference {
    /// Stable reference identifier.
    pub id: String,
    /// Reference type (for example `odcs`, `dtcs` or `dpcs`).
    pub reference_type: String,
    /// Location of the referenced document.
    pub location: String,
    /// Optional referenced version.
    pub version: Option<String>,
    /// Extension fields.
    pub extensions: ExtensionMap,
}

} // verus!
