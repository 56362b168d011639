//! Binding-stage diagnostic helpers.
use vstd::prelude::*;

use crate::diagnostics::report::sort_diagnostics;
use crate::diagnostics::{categories, owned, Diagnostic, DiagnosticStage, DiagnosticView, Severity, ValidationReport};
use crate::text::push_str;

verus! {

/// Binding refused because capability matching failed.
pub const BIND_CAPABILITY_FAILED: &'static str = "DPCS-BIND-001";
/// Unknown or unsupported binding target.
pub const BIND_UNKNOWN_TARGET: &'static str = "DPCS-BIND-002";
/// Translation could not preserve a mandatory plan semantic.
pub const BIND_TRANSLATION_INCOMPLETE: &'static str = "DPCS-BIND-003";
/// Failed to write binding artifacts to disk.
pub const BIND_WRITE_FAILED: &'static str = "DPCS-BIND-004";

/// Model of a binding-stage error diagnostic.
pub open spec fn binding_error_view(id: Seq<char>, message: Seq<char>, remediation: Seq<char>) -> DiagnosticView {
    DiagnosticView {
        remediation: Some(remediation),
        ..Diagnostic::fresh(id, Severity::Error, DiagnosticStage::OrchestratorBinding, "binding"@, message)
    }
}

/// Error: binding refused after capability evaluation failed.
pub fn capability_gate_failed() -> (r: Diagnostic)
    ensures
        r@ == binding_error_view(
            "DPCS-BIND-001"@,
            "orchestrator binding requires a successful capability match"@,
            "Resolve missing mandatory capabilities in the profile, or adjust pipeline execution requirements"@,
        ),
{
    proof { reveal_strlit("binding"); }
    Diagnostic::binding_error(
        BIND_CAPABILITY_FAILED,
        categories::BINDING,
        owned("orchestrator binding requires a successful capability match"),
    ).with_remediation(
        owned("Resolve missing mandatory capabilities in the profile, or adjust pipeline execution requirements"),
    )
}

/// Error: unknown binding target string.
pub fn unknown_target(target: &str) -> (r: Diagnostic)
    ensures
        r@ == binding_error_view(
            "DPCS-BIND-002"@,
            "unknown binding target `"@ + target@ + "`"@,
            "Use one of: airflow, dagster, prefect, temporal, kubernetes"@,
        ),
{
    proof { reveal_strlit("binding"); }
    let mut message = owned("unknown binding target `");
    push_str(&mut message, target);
    push_str(&mut message, "`");
    Diagnostic::binding_error(BIND_UNKNOWN_TARGET, categories::BINDING, message).with_remediation(
        owned("Use one of: airflow, dagster, prefect, temporal, kubernetes"),
    )
}

/// Error: adapter could not represent a mandatory semantic.
pub fn translation_incomplete(message: String) -> (r: Diagnostic)
    ensures
        r@ == binding_error_view(
            "DPCS-BIND-003"@,
            message@,
            "Simplify the plan semantic or choose a different binding target"@,
        ),
{
    proof { reveal_strlit("binding"); }
    Diagnostic::binding_error(BIND_TRANSLATION_INCOMPLETE, categories::BINDING, message).with_remediation(
        owned("Simplify the plan semantic or choose a different binding target"),
    )
}

/// Error: filesystem write failure while emitting artifacts.
pub fn write_failed(message: String) -> (r: Diagnostic)
    ensures
        r@ == binding_error_view("DPCS-BIND-004"@, message@, "Check output path permissions and disk space"@),
{
    proof { reveal_strlit("binding"); }
    Diagnostic::binding_error(BIND_WRITE_FAILED, categories::BINDING, message).with_remediation(
        owned("Check output path permissions and disk space"),
    )
}

/// Wrap capability diagnostics with a binding-stage gate failure.
pub fn report_capability_gate(capability_diagnostics: ValidationReport) -> (r: ValidationReport)
    ensures
        r@ == sort_diagnostics(seq![binding_error_view(
            "DPCS-BIND-001"@,
            "orchestrator binding requires a successful capability match"@,
            "Resolve missing mandatory capabilities in the profile, or adjust pipeline execution requirements"@,
        )] + capability_diagnostics@),
{
    let mut report = ValidationReport::new();
    report.push(capability_gate_failed());
    report.extend(capability_diagnostics);
    report.sort_deterministic();
    report
}

/// Single-diagnostic binding error report.
pub fn report_error(diagnostic: Diagnostic) -> (r: ValidationReport)
    ensures
        r@ == seq![diagnostic@],
{
    let ghost d = diagnostic@;
    let mut report = ValidationReport::new();
    report.push(diagnostic);
    assert(report@ =~= seq![d]);
    report.sort_deterministic();
    assert(seq![d].drop_last() =~= Seq::<DiagnosticView>::empty());
    assert(sort_diagnostics(seq![d].drop_last()) =~= Seq::<DiagnosticView>::empty());
    assert(sort_diagnostics(seq![d]) =~= seq![d]);
    report
}

} // verus!
