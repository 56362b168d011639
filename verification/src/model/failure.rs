//! Failure semantics model.
use vstd::prelude::*;

use super::extension::ExtensionMap;
use super::metadata::Metadata;
use super::quality_gate::{eq_ignore_case, eq_ignore_case_chars};
use crate::text::chars_of;

verus! {

/// Declared failure behavior for a pipeline scope.
#[derive(Debug)]
pub struct FailureSemantics {
    /// Stable failure-semantics identifier.
    pub id: String,
    /// Scope to which the semantics apply.
    pub scope: FailureScope,
    /// Conditions that trigger this failure handling.
    pub triggers: Vec<String>,
    /// Required responses when triggered.
    pub responses: Vec<FailureResponse>,
    /// Optional failure category.
    pub category: Option<String>,
    /// Optional retry semantics.
    pub retry: Option<RetrySemantics>,
    /// Optional compensation description.
    pub compensation: Option<String>,
    /// Optional recovery semantics.
    pub recovery: Option<RecoverySemantics>,
    /// Optional descriptive metadata.
    pub metadata: Option<Metadata>,
    /// Extension fields.
    pub extensions: ExtensionMap,
}

/// Scope of a failure semantics declaration.
#[derive(Debug)]
pub struct FailureScope {
    /// Scope kind (`pipeline`, `step`, `path`, or extension).
    pub kind: String,
    /// Target step identifier when kind is `step`.
    pub step_id: Option<String>,
    /// Logical path when kind is `path`.
    pub path: Option<String>,
}

impl FailureScope {
    /// Returns whether this scope targets a pipeline step.
    pub fn is_step(&self) -> (r: bool)
        ensures
            r == eq_ignore_case(self.kind@, "step"@),
    {
        let kind = chars_of(self.kind.as_str());
        let step = chars_of("step");
        eq_ignore_case_chars(&kind, &step)
    }

    /// Pipeline-wide scope.
    pub fn pipeline() -> (r: FailureScope)
        ensures
            r.kind@ == "pipeline"@,
            r.step_id is None,
            r.path is None,
    {
        FailureScope { kind: String::from_str("pipeline"), step_id: None, path: None }
    }
}

/// Logical failure response.
#[derive(Debug)]
pub enum FailureResponse {
    /// Abort execution.
    Abort,
    /// Retry failed work.
    Retry,
    /// Compensate previously completed work.
    Compensate,
    /// Continue despite the failure.
    Continue,
    /// Skip the failed unit of work.
    Skip,
    /// Route to an alternate execution path.
    AlternatePath,
    /// Require manual approval.
    RequireApproval,
    /// Emit diagnostics.
    EmitDiagnostics,
    /// Implementation-defined response.
    Extension(String),
}

impl FailureResponse {
    /// Wire-form response string.
    pub open spec fn label(&self) -> Seq<char> {
        match self {
            FailureResponse::Abort => "abort"@,
            FailureResponse::Retry => "retry"@,
            FailureResponse::Compensate => "compensate"@,
            FailureResponse::Continue => "continue"@,
            FailureResponse::Skip => "skip"@,
            FailureResponse::AlternatePath => "alternatePath"@,
            FailureResponse::RequireApproval => "requireApproval"@,
            FailureResponse::EmitDiagnostics => "emitDiagnostics"@,
            FailureResponse::Extension(v) => v@,
        }
    }

    /// Returns the wire-form response string.
    pub fn as_str(&self) -> (r: &str)
        ensures
            r@ == self.label(),
    {
        match self {
            FailureResponse::Abort => {
                proof { reveal_strlit("abort"); }
                "abort"
            },
            FailureResponse::Retry => {
                proof { reveal_strlit("retry"); }
                "retry"
            },
            FailureResponse::Compensate => {
                proof { reveal_strlit("compensate"); }
                "compensate"
            },
            FailureResponse::Continue => {
                proof { reveal_strlit("continue"); }
                "continue"
            },
            FailureResponse::Skip => {
                proof { reveal_strlit("skip"); }
                "skip"
            },
            FailureResponse::AlternatePath => {
                proof { reveal_strlit("alternatePath"); }
                "alternatePath"
            },
            FailureResponse::RequireApproval => {
                proof { reveal_strlit("requireApproval"); }
                "requireApproval"
            },
            FailureResponse::EmitDiagnostics => {
                proof { reveal_strlit("emitDiagnostics"); }
                "emitDiagnostics"
            },
            FailureResponse::Extension(v) => v.as_str(),
        }
    }

    /// Returns whether this response is retry.
    pub fn is_retry(&self) -> (r: bool)
        ensures
            r == (*self is Retry),
    {
        match self {
            FailureResponse::Retry => true,
            _ => false,
        }
    }
}

/// Retry behavior for failure semantics.
#[derive(Debug)]
pub struct RetrySemantics {
    /// Whether retry is eligible.
    pub eligible: Option<bool>,
    /// Maximum retry attempts.
    pub max_attempts: Option<u32>,
    /// Conditions under which retry applies.
    pub conditions: Option<String>,
    /// Delay policy between attempts.
    pub delay_policy: Option<String>,
    /// Termination conditions for retry.
    pub termination: Option<String>,
    /// Extension fields.
    pub extensions: ExtensionMap,
}

/// Recovery behavior for failure semantics.
#[derive(Debug)]
pub struct RecoverySemantics {
    /// Restart behavior.
    pub restart: Option<String>,
    /// Resume behavior.
    pub resume: Option<String>,
    /// Rollback expectations.
    pub rollback: Option<String>,
    /// Checkpoint usage.
    pub checkpoint: Option<String>,
    /// State restoration requirements.
    pub state_restoration: Option<String>,
    /// Extension fields.
    pub extensions: ExtensionMap,
}

} // verus!
