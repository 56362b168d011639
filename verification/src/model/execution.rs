//! Execution requirements and scheduling intents.
use vstd::prelude::*;

use super::extension::ExtensionMap;

verus! {

/// Declared execution requirements of a pipeline.
#[derive(Debug)]
pub struct ExecutionRequirements {
    /// Orchestrator capability identifiers the pipeline requires.
    pub required_capabilities: Vec<String>,
    /// Isolation requirements.
    pub isolation: Vec<String>,
    /// External systems the pipeline depends on.
    pub external_dependencies: Vec<ExternalDependency>,
    /// Resource requirements.
    pub resources: Option<ResourceRequirements>,
    /// Execution environment characteristics.
    pub environment: Option<ExecutionEnvironment>,
    /// Extension fields.
    pub extensions: ExtensionMap,
}

/// An external dependency demanding an orchestrator capability.
#[derive(Debug)]
pub struct ExternalDependency {
    /// Dependency identifier.
    pub id: String,
    /// Capability identifier required to reach the dependency.
    pub capability: String,
}

/// Resource requirements.
#[derive(Debug)]
pub struct ResourceRequirements {
    /// Processor requirement.
    pub processor: Option<String>,
    /// Memory requirement.
    pub memory: Option<String>,
    /// Storage requirement.
    pub storage: Option<String>,
    /// Accelerator requirement.
    pub accelerator: Option<String>,
    /// Network bandwidth requirement.
    pub bandwidth: Option<String>,
}

/// Execution environment characteristics.
#[derive(Debug)]
pub struct ExecutionEnvironment {
    /// Operating system.
    pub operating_system: Option<String>,
    /// Runtime dependencies.
    pub runtime_dependencies: Vec<String>,
    /// Software capabilities of the environment.
    pub software_capabilities: Vec<String>,
    /// Container image or runtime.
    pub container: Option<String>,
}

/// How a scheduling intent triggers execution.
#[derive(Debug)]
pub enum SchedulingMode {
    /// Time-based schedule.
    Scheduled,
    /// Triggered by events.
    EventDriven,
    /// Started on demand.
    Manual,
    /// Implementation-defined mode.
    Extension(String),
}

impl SchedulingMode {
    /// Wire-form mode string.
    pub open spec fn label(&self) -> Seq<char> {
        match self {
            SchedulingMode::Scheduled => "scheduled"@,
            SchedulingMode::EventDriven => "eventDriven"@,
            SchedulingMode::Manual => "manual"@,
            SchedulingMode::Extension(v) => v@,
        }
    }

    /// Wire-form mode string.
    pub fn as_str(&self) -> (r: &str)
        ensures
            r@ == self.label(),
    {
        match self {
            SchedulingMode::Scheduled => {
                proof { reveal_strlit("scheduled"); }
                "scheduled"
            },
            SchedulingMode::EventDriven => {
                proof { reveal_strlit("eventDriven"); }
                "eventDriven"
            },
            SchedulingMode::Manual => {
                proof { reveal_strlit("manual"); }
                "manual"
            },
            SchedulingMode::Extension(v) => v.as_str(),
        }
    }
}

/// A scheduling event.
#[derive(Debug)]
pub struct SchedulingEvent {
    /// Event identifier.
    pub id: String,
    /// Event source.
    pub source: String,
    /// Optional triggering condition.
    pub condition: Option<String>,
}

/// Scheduling constraints.
#[derive(Debug)]
pub struct SchedulingConstraints {
    /// Earliest start.
    pub earliest: Option<String>,
    /// Latest start.
    pub latest: Option<String>,
    /// Completion deadline.
    pub deadline: Option<String>,
    /// Concurrency limit.
    pub concurrency: Option<u64>,
    /// Ordering constraint.
    pub ordering: Option<String>,
}

/// Declared scheduling intent.
#[derive(Debug)]
pub struct SchedulingIntent {
    /// Optional intent identifier.
    pub id: Option<String>,
    /// Scheduling mode.
    pub mode: SchedulingMode,
    /// Cron expression for scheduled intents.
    pub cron: Option<String>,
    /// Time zone of the schedule.
    pub timezone: Option<String>,
    /// Frequency description.
    pub frequency: Option<String>,
    /// Execution windows.
    pub windows: Vec<String>,
    /// Blackout periods.
    pub blackouts: Vec<String>,
    /// Deadlines.
    pub deadlines: Vec<String>,
    /// Triggering events.
    pub events: Vec<SchedulingEvent>,
    /// Constraints.
    pub constraints: Option<SchedulingConstraints>,
    /// Policies.
    pub policies: Vec<String>,
    /// Extension fields.
    pub extensions: ExtensionMap,
}

} // verus!
