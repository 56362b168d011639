//! Orchestrator binding: identifiers, artifacts and the capability-gated bind.
pub mod diagnostics;
pub mod names;
pub mod artifact;
pub mod common;
pub mod framework;
pub mod scaffold;
pub mod airflow;
pub mod kubernetes;
pub mod dagster;
pub mod temporal;
