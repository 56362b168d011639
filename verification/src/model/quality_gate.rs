//! Quality gate model.
use vstd::prelude::*;

use super::extension::ExtensionMap;
use super::metadata::Metadata;
use crate::text::{chars_of, lower, to_lower, trim, trim_chars};

verus! {

/// Quality gate attached to a pipeline, step, or interface.
#[derive(Debug)]
pub struct QualityGate {
    /// Stable quality-gate identifier.
    pub id: String,
    /// What the quality gate checks for.
    pub purpose: String,
    /// One or more declarative evaluation criteria.
    pub criteria: Vec<QualityCriterion>,
    /// Behavior on successful evaluation.
    pub on_success: GateOutcome,
    /// Behavior on unsuccessful evaluation.
    pub on_failure: GateOutcome,
    /// Optional gate category.
    pub category: Option<String>,
    /// Where the quality gate applies in the pipeline.
    pub placement: Option<GatePlacement>,
    /// Optional descriptive metadata.
    pub metadata: Option<Metadata>,
    /// Extension fields.
    pub extensions: ExtensionMap,
}

/// Declarative evaluation criterion for a quality gate.
#[derive(Debug)]
pub struct QualityCriterion {
    /// Optional criterion identifier.
    pub id: Option<String>,
    /// Criterion type (for example `odcs`, `dtcs`, `expression`).
    pub criterion_type: Option<String>,
    /// Reference to a contract in `contractReferences`.
    pub contract_ref: Option<String>,
    /// Declarative expression or rule identifier.
    pub expression: Option<String>,
    /// Extension fields.
    pub extensions: ExtensionMap,
}

/// Declared outcome of gate evaluation.
#[derive(Debug)]
pub enum GateOutcome {
    /// Abort pipeline execution.
    Abort,
    /// Retry evaluation or upstream work.
    Retry,
    /// Route to an alternate path.
    AlternatePath,
    /// Request approval before continuing.
    RequireApproval,
    /// Record diagnostics and continue according to policy.
    EmitDiagnostics,
    /// Continue pipeline execution.
    Continue,
    /// Implementation-defined outcome.
    Extension(String),
}

impl GateOutcome {
    /// Wire-form outcome string.
    pub open spec fn label(&self) -> Seq<char> {
        match self {
            GateOutcome::Abort => "abort"@,
            GateOutcome::Retry => "retry"@,
            GateOutcome::AlternatePath => "alternatePath"@,
            GateOutcome::RequireApproval => "requireApproval"@,
            GateOutcome::EmitDiagnostics => "emitDiagnostics"@,
            GateOutcome::Continue => "continue"@,
            GateOutcome::Extension(v) => v@,
        }
    }

    /// Returns the wire-form outcome string.
    pub fn as_str(&self) -> (r: &str)
        ensures
            r@ == self.label(),
    {
        match self {
            GateOutcome::Abort => {
                proof { reveal_strlit("abort"); }
                "abort"
            },
            GateOutcome::Retry => {
                proof { reveal_strlit("retry"); }
                "retry"
            },
            GateOutcome::AlternatePath => {
                proof { reveal_strlit("alternatePath"); }
                "alternatePath"
            },
            GateOutcome::RequireApproval => {
                proof { reveal_strlit("requireApproval"); }
                "requireApproval"
            },
            GateOutcome::EmitDiagnostics => {
                proof { reveal_strlit("emitDiagnostics"); }
                "emitDiagnostics"
            },
            GateOutcome::Continue => {
                proof { reveal_strlit("continue"); }
                "continue"
            },
            GateOutcome::Extension(v) => v.as_str(),
        }
    }
}

/// Placement of a quality gate within a pipeline.
#[derive(Debug)]
pub struct GatePlacement {
    /// Placement kind (`beforePipeline`, `beforeStep`, `afterStep`, `beforeCompletion`, or extension).
    pub kind: String,
    /// Target step identifier when kind is `beforeStep` or `afterStep`.
    pub step_id: Option<String>,
}

/// ASCII case-insensitive equality.
pub open spec fn eq_ignore_case(a: Seq<char>, b: Seq<char>) -> bool {
    a.len() == b.len() && forall|i: int| 0 <= i < a.len() ==> lower(#[trigger] a[i]) == lower(b[i])
}

/// ASCII case-insensitive equality (`str::eq_ignore_ascii_case`).
pub fn eq_ignore_case_chars(a: &[char], b: &[char]) -> (r: bool)
    ensures
        r == eq_ignore_case(a@, b@),
{
    if a.len() != b.len() {
        return false;
    }
    let mut i: usize = 0;
    while i < a.len()
        invariant
            i <= a@.len(),
            a@.len() == b@.len(),
            forall|k: int| 0 <= k < i ==> lower(#[trigger] a@[k]) == lower(b@[k]),
        decreases a.len() - i,
    {
        if to_lower(a[i]) != to_lower(b[i]) {
            return false;
        }
        i += 1;
    }
    true
}

impl GatePlacement {
    /// Returns whether this placement targets a step.
    pub fn targets_step(&self) -> (r: bool)
        ensures
            r == (eq_ignore_case(trim(self.kind@), "beforeStep"@) || eq_ignore_case(trim(self.kind@), "afterStep"@)),
    {
        let raw = chars_of(self.kind.as_str());
        let kind = trim_chars(&raw);
        let before = chars_of("beforeStep");
        let after = chars_of("afterStep");
        eq_ignore_case_chars(&kind, &before) || eq_ignore_case_chars(&kind, &after)
    }
}

} // verus!
