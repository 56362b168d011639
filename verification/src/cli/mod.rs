//! Command-line outcomes: exit codes and output rendering.
use vstd::prelude::*;

pub mod output;
pub mod tui;

use crate::diagnostics::report::with_severity;
use crate::diagnostics::{Severity, ValidationReport};
use crate::registry_net::client::RegistryClientError;

verus! {

/// Exit code: success.
pub const EXIT_OK: u8 = 0;
/// Exit code: validation / capability / compatibility findings.
pub const EXIT_VALIDATION: u8 = 1;
/// Exit code: the command could not run (I/O, parse, transport).
pub const EXIT_FAILURE: u8 = 2;

/// Exit code for a report: findings of severity error fail validation, and
/// so do warnings under `--strict`.
pub fn exit_code_for_report(report: &ValidationReport, strict: bool) -> (r: u8)
    ensures
        r == (if with_severity(report@, Severity::Error).len() > 0 {
            EXIT_VALIDATION
        } else if strict && with_severity(report@, Severity::Warning).len() > 0 {
            EXIT_VALIDATION
        } else {
            EXIT_OK
        }),
{
    if report.error_count() > 0 {
        return EXIT_VALIDATION;
    }
    if strict && report.warning_count() > 0 {
        return EXIT_VALIDATION;
    }
    EXIT_OK
}

/// Exit code for a registry client error: a failed transport or a server
/// error means the command could not run; any other answer is a refusal.
pub fn exit_code_for_registry_error(err: &RegistryClientError) -> (r: u8)
    ensures
        r == (if err is Transport || (err matches RegistryClientError::Http { status, .. } && 500 <= *status && *status <= 599) {
            EXIT_FAILURE
        } else {
            EXIT_VALIDATION
        }),
{
    if err.is_transport() || err.is_server_error() {
        EXIT_FAILURE
    } else {
        EXIT_VALIDATION
    }
}

} // verus!
