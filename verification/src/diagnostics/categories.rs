//! Common diagnostic category identifiers.
use vstd::prelude::*;

verus! {

/// Document-level issues.
pub const DOCUMENT: &'static str = "document";
/// Canonical Object Model issues.
pub const CANONICAL_OBJECT_MODEL: &'static str = "canonicalObjectModel";
/// Structural issues.
pub const STRUCTURAL: &'static str = "structural";
/// Graph issues.
pub const GRAPH: &'static str = "graph";
/// Contract reference issues.
pub const REFERENCE: &'static str = "reference";
/// Data-flow issues.
pub const DATA_FLOW: &'static str = "dataFlow";
/// Control-flow issues.
pub const CONTROL_FLOW: &'static str = "controlFlow";
/// Extension issues.
pub const EXTENSION: &'static str = "extension";
/// Syntax and parse issues.
pub const SYNTAX: &'static str = "syntax";
/// Execution requirements issues.
pub const EXECUTION_REQUIREMENTS: &'static str = "executionRequirements";
/// Scheduling intent issues.
pub const SCHEDULING: &'static str = "scheduling";
/// Quality gate issues.
pub const QUALITY_GATES: &'static str = "qualityGates";
/// Failure semantics issues.
pub const FAILURE_SEMANTICS: &'static str = "failureSemantics";
/// Lineage issues.
pub const LINEAGE: &'static str = "lineage";
/// Planning issues.
pub const PLANNING: &'static str = "planning";
/// Capability evaluation issues.
pub const CAPABILITY: &'static str = "capability";
/// Orchestrator binding issues.
pub const BINDING: &'static str = "binding";
/// Compatibility analysis issues.
pub const COMPATIBILITY: &'static str = "compatibility";
/// Versioning issues.
pub const VERSIONING: &'static str = "versioning";
/// Registry issues.
pub const REGISTRY: &'static str = "registry";
/// Conformance claim / profile issues.
pub const CONFORMANCE: &'static str = "conformance";
/// Security metadata issues.
pub const SECURITY: &'static str = "security";
/// Governance metadata issues.
pub const GOVERNANCE: &'static str = "governance";
/// Pipeline package issues.
pub const PACKAGE: &'static str = "package";
/// Registry client / network protocol issues.
pub const REGISTRY_CLIENT: &'static str = "registryClient";

} // verus!
