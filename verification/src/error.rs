//! Errors that prevent construction of a Canonical Object Model.
use vstd::prelude::*;

use crate::diagnostics::ValidationReport;
use crate::text::{decimal, push_str, usize_string};

verus! {

/// Errors that prevent construction of a Canonical Object Model.
///
/// Validation findings for successfully parsed contracts are reported through
/// [`ValidationReport`]. Invalid documents produce parse-stage diagnostics
/// via [`Error::InvalidDocument`].
#[derive(Debug)]
pub enum Error {
    /// Failed to read a file from disk.
    Io {
        /// Path that could not be read.
        path: String,
        /// Description of the underlying I/O error.
        message: String,
    },
    /// Document could not be parsed into the Canonical Object Model.
    InvalidDocument {
        /// Parse-stage diagnostics for the invalid document.
        report: ValidationReport,
    },
    /// Document path uses an unsupported extension.
    UnsupportedFormat {
        /// Path with an unsupported extension.
        path: String,
    },
    /// Failed to serialize diagnostics or contract output.
    Serialization(String),
}

/// Summary of an invalid document's diagnostics.
pub open spec fn invalid_document_text(report: ValidationReport) -> Seq<char> {
    let d = report.diagnostics@;
    if d.len() == 0 {
        "invalid document"@
    } else if d.len() == 1 {
        "invalid document: "@ + d[0].id@ + " — "@ + d[0].message@
    } else {
        "invalid document: "@ + d[0].id@ + " — "@ + d[0].message@ + " (+"@ + decimal((d.len() - 1) as nat) + " more)"@
    }
}

impl Error {
    /// Returns parse-stage diagnostics when this error represents an invalid document.
    pub fn invalid_document_report(&self) -> (r: Option<&ValidationReport>)
        ensures
            match self {
                Error::InvalidDocument { report } => r == Some(report),
                _ => r is None,
            },
    {
        match self {
            Error::InvalidDocument { report } => Some(report),
            _ => None,
        }
    }

    /// Human-readable description of the error.
    pub open spec fn text(&self) -> Seq<char> {
        match self {
            Error::Io { path, message } => "failed to read `"@ + path@ + "`: "@ + message@,
            Error::InvalidDocument { report } => invalid_document_text(*report),
            Error::UnsupportedFormat { path } => "unsupported document format for `"@ + path@
                + "` (expected .yaml, .yml, or .json)"@,
            Error::Serialization(m) => m@,
        }
    }

    /// Human-readable description of the error.
    pub fn message(&self) -> (r: String)
        ensures
            r@ == self.text(),
    {
        match self {
            Error::Io { path, message } => {
                let mut out = String::from_str("failed to read `");
                push_str(&mut out, path.as_str());
                push_str(&mut out, "`: ");
                push_str(&mut out, message.as_str());
                out
            },
            Error::InvalidDocument { report } => {
                let d = &report.diagnostics;
                if d.len() == 0 {
                    String::from_str("invalid document")
                } else {
                    let mut out = String::from_str("invalid document: ");
                    push_str(&mut out, d[0].id.as_str());
                    push_str(&mut out, " — ");
                    push_str(&mut out, d[0].message.as_str());
                    if d.len() > 1 {
                        push_str(&mut out, " (+");
                        push_str(&mut out, usize_string(d.len() - 1).as_str());
                        push_str(&mut out, " more)");
                    }
                    out
                }
            },
            Error::UnsupportedFormat { path } => {
                let mut out = String::from_str("unsupported document format for `");
                push_str(&mut out, path.as_str());
                push_str(&mut out, "` (expected .yaml, .yml, or .json)");
                out
            },
            Error::Serialization(m) => m.clone(),
        }
    }
}

} // verus!
