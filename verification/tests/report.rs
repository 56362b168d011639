use dpcs::diagnostics::{Diagnostic, Severity, ValidationReport};
use dpcs::error::Error;

#[test]
fn sorting_orders_by_id_object_and_message() {
    let mut report = ValidationReport::new();
    report.push(Diagnostic::error("B", "c", "m2".to_owned()));
    report.push(Diagnostic::error("A", "c", "z".to_owned()).with_object_ref("o".to_owned()));
    report.push(Diagnostic::warning("A", "c", "y".to_owned()));
    report.push(Diagnostic::error("B", "c", "m1".to_owned()));
    report.sort_deterministic();
    let keys: Vec<(&str, &str)> = report.diagnostics.iter().map(|d| (d.id.as_str(), d.message.as_str())).collect();
    assert_eq!(keys, vec![("A", "y"), ("A", "z"), ("B", "m1"), ("B", "m2")]);
    assert_eq!(report.error_count(), 3);
    assert_eq!(report.warning_count(), 1);
    assert_eq!(report.errors()[0].severity, Severity::Error);
    assert!(!report.is_valid());
}

#[test]
fn error_messages() {
    assert_eq!(Error::UnsupportedFormat { path: "a.txt".to_owned() }.message(),
        "unsupported document format for `a.txt` (expected .yaml, .yml, or .json)");
    assert_eq!(Error::Io { path: "x".to_owned(), message: "denied".to_owned() }.message(), "failed to read `x`: denied");
    let mut report = ValidationReport::new();
    report.push(Diagnostic::parse_error("P1", "first".to_owned()));
    report.push(Diagnostic::parse_error("P2", "second".to_owned()));
    report.push(Diagnostic::parse_error("P3", "third".to_owned()));
    assert_eq!(Error::InvalidDocument { report }.message(), "invalid document: P1 — first (+2 more)");
    assert_eq!(Error::InvalidDocument { report: ValidationReport::new() }.message(), "invalid document");
}

#[test]
fn sorting_is_stable_and_idempotent() {
    let mut report = ValidationReport::new();
    report.push(Diagnostic::warning("B", "c", "same".to_owned()));
    report.push(Diagnostic::error("A", "c", "x".to_owned()));
    report.push(Diagnostic::error("B", "c", "same".to_owned()));
    report.sort_deterministic();
    let order: Vec<(String, Severity)> = report.diagnostics.iter().map(|d| (d.id.clone(), d.severity)).collect();
    let expected = vec![("A".to_owned(), Severity::Error), ("B".to_owned(), Severity::Warning), ("B".to_owned(), Severity::Error)];
    assert_eq!(order, expected);
    report.sort_deterministic();
    let again: Vec<(String, Severity)> = report.diagnostics.iter().map(|d| (d.id.clone(), d.severity)).collect();
    assert_eq!(again, order);
}
