//! Diagnostics: severities, processing stages, single findings and reports.
use vstd::prelude::*;

pub mod categories;
pub mod report;

pub use report::{DiagnosticReport, ImplementationMetadata, ProcessingResult, ValidationReport};

verus! {

/// Severity of a diagnostic observation.
#[derive(Debug, Clone, Copy, PartialEq, Eq, Structural)]
pub enum Severity {
    /// Informational observation that does not affect validity.
    Information,
    /// Non-fatal issue that should be reviewed.
    Warning,
    /// Error that makes the contract invalid.
    Error,
}

impl Severity {
    /// Wire / display label.
    pub open spec fn label(self) -> Seq<char> {
        match self {
            Severity::Information => "information"@,
            Severity::Warning => "warning"@,
            Severity::Error => "error"@,
        }
    }

    /// Wire / display label (`information`, `warning`, `error`).
    pub fn as_str(&self) -> (r: &'static str)
        ensures
            r@ == self.label(),
    {
        match self {
            Severity::Information => {
                proof { reveal_strlit("information"); }
                "information"
            },
            Severity::Warning => {
                proof { reveal_strlit("warning"); }
                "warning"
            },
            Severity::Error => {
                proof { reveal_strlit("error"); }
                "error"
            },
        }
    }
}

/// Stage of the DPCS processing pipeline that produced a diagnostic.
#[derive(Debug, Clone, Copy, PartialEq, Eq, Structural)]
pub enum DiagnosticStage {
    /// Document parsing.
    Parse,
    /// Canonical Object Model construction.
    CanonicalObjectModel,
    /// Semantic and structural validation.
    Validation,
    /// Compatibility analysis between artifacts.
    CompatibilityAnalysis,
    /// Pipeline plan generation.
    Planning,
    /// Orchestrator capability evaluation.
    CapabilityEvaluation,
    /// Orchestrator binding.
    OrchestratorBinding,
    /// Execution analysis (reserved).
    ExecutionAnalysis,
}

impl DiagnosticStage {
    /// Wire / display label.
    pub open spec fn label(self) -> Seq<char> {
        match self {
            DiagnosticStage::Parse => "parse"@,
            DiagnosticStage::CanonicalObjectModel => "canonicalObjectModel"@,
            DiagnosticStage::Validation => "validation"@,
            DiagnosticStage::CompatibilityAnalysis => "compatibilityAnalysis"@,
            DiagnosticStage::Planning => "planning"@,
            DiagnosticStage::CapabilityEvaluation => "capabilityEvaluation"@,
            DiagnosticStage::OrchestratorBinding => "orchestratorBinding"@,
            DiagnosticStage::ExecutionAnalysis => "executionAnalysis"@,
        }
    }

    /// Wire / display label.
    pub fn as_str(&self) -> (r: &'static str)
        ensures
            r@ == self.label(),
    {
        match self {
            DiagnosticStage::Parse => {
                proof { reveal_strlit("parse"); }
                "parse"
            },
            DiagnosticStage::CanonicalObjectModel => {
                proof { reveal_strlit("canonicalObjectModel"); }
                "canonicalObjectModel"
            },
            DiagnosticStage::Validation => {
                proof { reveal_strlit("validation"); }
                "validation"
            },
            DiagnosticStage::CompatibilityAnalysis => {
                proof { reveal_strlit("compatibilityAnalysis"); }
                "compatibilityAnalysis"
            },
            DiagnosticStage::Planning => {
                proof { reveal_strlit("planning"); }
                "planning"
            },
            DiagnosticStage::CapabilityEvaluation => {
                proof { reveal_strlit("capabilityEvaluation"); }
                "capabilityEvaluation"
            },
            DiagnosticStage::OrchestratorBinding => {
                proof { reveal_strlit("orchestratorBinding"); }
                "orchestratorBinding"
            },
            DiagnosticStage::ExecutionAnalysis => {
                proof { reveal_strlit("executionAnalysis"); }
                "executionAnalysis"
            },
        }
    }
}

/// A single diagnostic observation.
#[derive(Debug)]
pub struct Diagnostic {
    /// Stable diagnostic identifier (for example `DPCS-REG-001`).
    pub id: String,
    /// Severity.
    pub severity: Severity,
    /// Processing stage that produced the diagnostic.
    pub stage: DiagnosticStage,
    /// Category (see [`categories`]).
    pub category: String,
    /// Human-readable message.
    pub message: String,
    /// Reference to the offending object, when known.
    pub object_ref: Option<String>,
    /// Suggested remediation.
    pub remediation: Option<String>,
    /// Source document location.
    pub source_location: Option<String>,
    /// Identifiers of related diagnostics.
    pub related_diagnostics: Vec<String>,
}

/// Model of a diagnostic: every text field as a character sequence.
pub struct DiagnosticView {
    pub id: Seq<char>,
    pub severity: Severity,
    pub stage: DiagnosticStage,
    pub category: Seq<char>,
    pub message: Seq<char>,
    pub object_ref: Option<Seq<char>>,
    pub remediation: Option<Seq<char>>,
    pub source_location: Option<Seq<char>>,
    pub related_diagnostics: Seq<Seq<char>>,
}

/// Optional text viewed as a character sequence.
pub open spec fn opt_text(o: Option<String>) -> Option<Seq<char>> {
    match o {
        Some(s) => Some(s@),
        None => None,
    }
}

/// A list of strings viewed as character sequences.
pub open spec fn texts(v: Seq<String>) -> Seq<Seq<char>> {
    v.map_values(|s: String| s@)
}

impl View for Diagnostic {
    type V = DiagnosticView;

    open spec fn view(&self) -> DiagnosticView {
        DiagnosticView {
            id: self.id@,
            severity: self.severity,
            stage: self.stage,
            category: self.category@,
            message: self.message@,
            object_ref: opt_text(self.object_ref),
            remediation: opt_text(self.remediation),
            source_location: opt_text(self.source_location),
            related_diagnostics: texts(self.related_diagnostics@),
        }
    }
}

/// Copy of an optional string.
pub fn clone_opt(o: &Option<String>) -> (r: Option<String>)
    ensures
        r == *o,
{
    match o {
        Some(s) => Some(s.clone()),
        None => None,
    }
}

/// Copy of a list of strings.
pub fn clone_strings(v: &Vec<String>) -> (r: Vec<String>)
    ensures
        r@ == v@,
{
    let mut out: Vec<String> = Vec::new();
    let mut i: usize = 0;
    while i < v.len()
        invariant
            i <= v@.len(),
            out@ == v@.subrange(0, i as int),
        decreases v.len() - i,
    {
        out.push(v[i].clone());
        i += 1;
        assert(out@ =~= v@.subrange(0, i as int));
    }
    assert(v@.subrange(0, v@.len() as int) =~= v@);
    out
}

impl Clone for Diagnostic {
    fn clone(&self) -> (r: Self)
        ensures
            r@ == self@,
    {
        Diagnostic {
            id: self.id.clone(),
            severity: self.severity,
            stage: self.stage,
            category: self.category.clone(),
            message: self.message.clone(),
            object_ref: clone_opt(&self.object_ref),
            remediation: clone_opt(&self.remediation),
            source_location: clone_opt(&self.source_location),
            related_diagnostics: clone_strings(&self.related_diagnostics),
        }
    }
}

impl Diagnostic {
    /// A diagnostic with the given identity and no optional fields.
    pub fn new(
        id: &str,
        severity: Severity,
        stage: DiagnosticStage,
        category: &str,
        message: String,
    ) -> (r: Diagnostic)
        ensures
            r@ == Diagnostic::fresh(id@, severity, stage, category@, message@),
    {
        let r = Diagnostic {
            id: String::from_str(id),
            severity,
            stage,
            category: String::from_str(category),
            message,
            object_ref: None,
            remediation: None,
            source_location: None,
            related_diagnostics: Vec::new(),
        };
        assert(texts(r.related_diagnostics@) =~= Seq::<Seq<char>>::empty());
        r
    }

    /// Validation-stage error.
    pub fn error(id: &str, category: &str, message: String) -> (r: Diagnostic)
        ensures
            r@ == Diagnostic::fresh(id@, Severity::Error, DiagnosticStage::Validation, category@, message@),
    {
        Diagnostic::new(id, Severity::Error, DiagnosticStage::Validation, category, message)
    }

    /// Validation-stage warning.
    pub fn warning(id: &str, category: &str, message: String) -> (r: Diagnostic)
        ensures
            r@ == Diagnostic::fresh(id@, Severity::Warning, DiagnosticStage::Validation, category@, message@),
    {
        Diagnostic::new(id, Severity::Warning, DiagnosticStage::Validation, category, message)
    }

    /// Parse-stage error (category `syntax`).
    pub fn parse_error(id: &str, message: String) -> (r: Diagnostic)
        ensures
            r@ == Diagnostic::fresh(id@, Severity::Error, DiagnosticStage::Parse, "syntax"@, message@),
    {
        proof { reveal_strlit("syntax"); }
        Diagnostic::new(id, Severity::Error, DiagnosticStage::Parse, categories::SYNTAX, message)
    }

    /// Planning-stage error.
    pub fn planning_error(id: &str, category: &str, message: String) -> (r: Diagnostic)
        ensures
            r@ == Diagnostic::fresh(id@, Severity::Error, DiagnosticStage::Planning, category@, message@),
    {
        Diagnostic::new(id, Severity::Error, DiagnosticStage::Planning, category, message)
    }

    /// Capability-evaluation error.
    pub fn capability_error(id: &str, category: &str, message: String) -> (r: Diagnostic)
        ensures
            r@ == Diagnostic::fresh(id@, Severity::Error, DiagnosticStage::CapabilityEvaluation, category@, message@),
    {
        Diagnostic::new(id, Severity::Error, DiagnosticStage::CapabilityEvaluation, category, message)
    }

    /// Capability-evaluation warning.
    pub fn capability_warning(id: &str, category: &str, message: String) -> (r: Diagnostic)
        ensures
            r@ == Diagnostic::fresh(id@, Severity::Warning, DiagnosticStage::CapabilityEvaluation, category@, message@),
    {
        Diagnostic::new(id, Severity::Warning, DiagnosticStage::CapabilityEvaluation, category, message)
    }

    /// Compatibility-analysis error.
    pub fn compatibility_error(id: &str, category: &str, message: String) -> (r: Diagnostic)
        ensures
            r@ == Diagnostic::fresh(id@, Severity::Error, DiagnosticStage::CompatibilityAnalysis, category@, message@),
    {
        Diagnostic::new(id, Severity::Error, DiagnosticStage::CompatibilityAnalysis, category, message)
    }

    /// Compatibility-analysis warning.
    pub fn compatibility_warning(id: &str, category: &str, message: String) -> (r: Diagnostic)
        ensures
            r@ == Diagnostic::fresh(id@, Severity::Warning, DiagnosticStage::CompatibilityAnalysis, category@, message@),
    {
        Diagnostic::new(id, Severity::Warning, DiagnosticStage::CompatibilityAnalysis, category, message)
    }

    /// Binding-stage error.
    pub fn binding_error(id: &str, category: &str, message: String) -> (r: Diagnostic)
        ensures
            r@ == Diagnostic::fresh(id@, Severity::Error, DiagnosticStage::OrchestratorBinding, category@, message@),
    {
        Diagnostic::new(id, Severity::Error, DiagnosticStage::OrchestratorBinding, category, message)
    }

    /// Model of a diagnostic with no optional fields set.
    pub open spec fn fresh(
        id: Seq<char>,
        severity: Severity,
        stage: DiagnosticStage,
        category: Seq<char>,
        message: Seq<char>,
    ) -> DiagnosticView {
        DiagnosticView {
            id,
            severity,
            stage,
            category,
            message,
            object_ref: None,
            remediation: None,
            source_location: None,
            related_diagnostics: Seq::empty(),
        }
    }

    /// Attach an object reference.
    pub fn with_object_ref(self, object_ref: String) -> (r: Diagnostic)
        ensures
            r@ == (DiagnosticView { object_ref: Some(object_ref@), ..self@ }),
    {
        Diagnostic { object_ref: Some(object_ref), ..self }
    }

    /// Attach a remediation hint.
    pub fn with_remediation(self, remediation: String) -> (r: Diagnostic)
        ensures
            r@ == (DiagnosticView { remediation: Some(remediation@), ..self@ }),
    {
        Diagnostic { remediation: Some(remediation), ..self }
    }

    /// Attach a source location.
    pub fn with_source_location(self, location: String) -> (r: Diagnostic)
        ensures
            r@ == (DiagnosticView { source_location: Some(location@), ..self@ }),
    {
        Diagnostic { source_location: Some(location), ..self }
    }

    /// Attach related diagnostic identifiers.
    pub fn with_related(self, related: Vec<String>) -> (r: Diagnostic)
        ensures
            r@ == (DiagnosticView { related_diagnostics: texts(related@), ..self@ }),
    {
        Diagnostic { related_diagnostics: related, ..self }
    }
}

/// A `String` built from a literal.
pub fn owned(s: &str) -> (r: String)
    ensures
        r@ == s@,
{
    String::from_str(s)
}

} // verus!
