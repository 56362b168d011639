//! Data Pipeline Contract Standard (DPCS) toolkit: the verified core.
//!
//! Processing pipeline:
//!
//! ```text
//! DPCS Document -> Parser -> COM -> Validator -> Plan -> Capabilities -> Binding
//! Compatibility / Registry are first-class analysis surfaces.
//! ```
use vstd::prelude::*;

pub mod binding;
pub mod capabilities;
pub mod cli;
pub mod compatibility;
pub mod diagnostics;
pub mod error;
pub mod model;
pub mod package;
pub mod parser;
pub mod paths;
pub mod plan;
pub mod registry_net;
pub mod report;
pub mod resolve;
pub mod text;

verus! {

/// Library and CLI version string.
pub const VERSION: &'static str = "0.1.0";

/// Supported DPCS specification version for this release.
pub const DPCS_SPEC_VERSION: &'static str = "1.0.0-draft";

} // verus!
