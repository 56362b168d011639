//! Descriptive metadata attached to a Pipeline Contract or interface.
use vstd::prelude::*;

use super::extension::ExtensionMap;

verus! {

/// Descriptive metadata.
#[derive(Debug)]
pub struct Metadata {
    /// Free-form description.
    pub description: Option<String>,
    /// Owning team or organization.
    pub owner: Option<String>,
    /// Classification tags.
    pub tags: Vec<String>,
    /// Extension metadata.
    pub extensions: ExtensionMap,
}

/// Declared compatibility policy for a Pipeline Contract.
#[derive(Debug)]
pub struct CompatibilityPolicy {
    /// Compatibility mode (for example `backward` or `full`).
    pub mode: Option<String>,
    /// Extension fields.
    pub extensions: ExtensionMap,
}

/// Governance metadata (owners, approvals) preserved as extension fields.
#[derive(Debug)]
pub struct GovernanceMetadata {
    /// Extension fields.
    pub extensions: ExtensionMap,
}

} // verus!
