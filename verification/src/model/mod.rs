//! Canonical Object Model of a Pipeline Contract.
pub mod contract;
pub mod execution;
pub mod extension;
pub mod failure;
pub mod graph;
pub mod interface;
pub mod lineage;
pub mod metadata;
pub mod quality_gate;
pub mod registry;
pub mod security;
pub mod step;
pub mod versioning;
