//! Pipeline graph, data flow and control flow.
use vstd::prelude::*;

use super::extension::ExtensionMap;
use super::metadata::Metadata;

verus! {

/// Directed graph describing step relationships.
#[derive(Debug)]
pub struct PipelineGraph {
    /// Declared pipeline entry step identifiers.
    pub entry_points: Vec<String>,
    /// Declared pipeline exit step identifiers.
    pub exit_points: Vec<String>,
    /// Optional graph metadata.
    pub metadata: Option<Metadata>,
    /// Graph edges between steps or control points.
    pub edges: Vec<GraphEdge>,
    /// Extension fields.
    pub extensions: ExtensionMap,
}

/// A single directed edge in the pipeline graph.
#[derive(Debug)]
pub struct GraphEdge {
    /// Source node identifier.
    pub from: String,
    /// Destination node identifier.
    pub to: String,
    /// Optional edge kind.
    pub kind: Option<String>,
    /// Extension fields.
    pub extensions: ExtensionMap,
}

/// Declared control dependency between pipeline elements.
#[derive(Debug)]
pub struct ControlFlow {
    /// Upstream control endpoint.
    pub from: String,
    /// Downstream control endpoint.
    pub to: String,
    /// Optional control-flow kind.
    pub kind: Option<String>,
    /// Extension fields.
    pub extensions: ExtensionMap,
}

/// Declared data-flow relationship between endpoints (`step.port` or interface ports).
#[derive(Debug)]
pub struct DataFlow {
    /// Upstream endpoint.
    pub from: String,
    /// Downstream endpoint.
    pub to: String,
    /// Optional dataset identity carried along the flow.
    pub dataset: Option<String>,
    /// Extension fields.
    pub extensions: ExtensionMap,
}

} // verus!
