//! Orchestrator capability profiles and capability matching.
use vstd::prelude::*;

pub mod evaluate;

verus! {

/// A capability declared by an orchestrator capability profile.
#[derive(Debug)]
pub struct CapabilityDecl {
    /// Capability identifier.
    pub id: String,
    /// Whether the orchestrator supports this capability only optionally.
    pub optional: bool,
}

/// An orchestrator capability profile.
#[derive(Debug)]
pub struct CapabilityProfile {
    /// Profile identity.
    pub identity: String,
    /// DPCS specification version the profile declares.
    pub dpcs_version: String,
    /// Declared capabilities.
    pub capabilities: Vec<CapabilityDecl>,
}

} // verus!
