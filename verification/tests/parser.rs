use dpcs::error::Error;
use dpcs::parser::diagnostics::{
    classify_message, json_parse_error, location_from_message, parse_failure_report, quoted_token, with_source_path,
    yaml_parse_error,
};

#[test]
fn classifies_missing_field_with_named_remediation() {
    let (id, remediation) = classify_message("missing field `type` at line 12 column 3");
    assert_eq!(id, "DPCS-PARSE-002");
    assert!(remediation.contains("`type`"));
}

#[test]
fn classifies_invalid_type_as_schema_not_syntax() {
    let (id, remediation) = classify_message("dpcsVersion: invalid type: integer, expected a string");
    assert_eq!(id, "DPCS-PARSE-002");
    assert!(remediation.contains("schema types"));
}

#[test]
fn parses_location_embedded_in_message() {
    assert_eq!(
        location_from_message("missing field `id` at line 4 column 1").as_deref(),
        Some("line 4, column 1")
    );
}

#[test]
fn syntax_errors_and_quoted_tokens() {
    let (id, remediation) = classify_message("did not find expected key");
    assert_eq!(id, "DPCS-PARSE-001");
    assert_eq!(remediation, "Fix YAML or JSON syntax and ensure the document matches the Pipeline Contract schema");
    let (_, generic) = classify_message("Missing Field somewhere");
    assert_eq!(generic, "Provide all required fields such as dpcsVersion, id, version, interface, and graph");
    assert_eq!(quoted_token("field \"name\" missing").as_deref(), Some("name"));
    assert_eq!(quoted_token("empty `` token"), None);
    assert_eq!(quoted_token("no quotes"), None);
    assert_eq!(location_from_message("at LINE 7, Column 12 here").as_deref(), Some("line 7, column 12"));
    assert_eq!(location_from_message("line x column 2"), None);
    assert_eq!(location_from_message("line 3 only"), None);
}

#[test]
fn parse_failures_become_invalid_documents() {
    let report = parse_failure_report("missing field `id` at line 4 column 1".to_owned(), None);
    assert_eq!(report.diagnostics.len(), 1);
    assert_eq!(report.diagnostics[0].source_location.as_deref(), Some("line 4, column 1"));
    let with_loc = parse_failure_report("bad".to_owned(), Some((2, 9)));
    assert_eq!(with_loc.diagnostics[0].source_location.as_deref(), Some("line 2, column 9"));
    let zero = parse_failure_report("bad".to_owned(), Some((0, 0)));
    assert_eq!(zero.diagnostics[0].source_location, None);
    let err = yaml_parse_error("missing field `id`".to_owned(), Some((1, 1)));
    let err = with_source_path(err, "contract.yaml");
    let report = err.invalid_document_report().unwrap();
    assert_eq!(report.diagnostics[0].source_location.as_deref(), Some("contract.yaml: line 1, column 1"));
    let plain = with_source_path(json_parse_error("oops".to_owned(), None), "c.json");
    assert_eq!(plain.invalid_document_report().unwrap().diagnostics[0].source_location.as_deref(), Some("c.json"));
    assert_eq!(plain.message(), "invalid document: DPCS-PARSE-001 — oops");
    let other = with_source_path(Error::Serialization("x".to_owned()), "p");
    assert!(other.invalid_document_report().is_none());
}
