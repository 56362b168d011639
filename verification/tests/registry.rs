use dpcs::model::extension::ExtensionMap;
use dpcs::model::registry::{is_known_publication_status, registry_parse_error, validate_registry, RegisteredArtifact, Registry};

fn no_ext() -> ExtensionMap {
    ExtensionMap { entries: vec![] }
}

fn artifact(id: &str, version: &str, status: Option<&str>) -> RegisteredArtifact {
    RegisteredArtifact {
        id: id.to_owned(),
        artifact_type: "pipelineContract".to_owned(),
        version: version.to_owned(),
        compatibility: None,
        publication_status: status.map(|s| s.to_owned()),
        location: None,
        extensions: no_ext(),
    }
}

fn registry(artifacts: Vec<RegisteredArtifact>) -> Registry {
    Registry {
        id: "reg".to_owned(),
        version: "1.0.0".to_owned(),
        dpcs_version: "1.0.0".to_owned(),
        owner: "team".to_owned(),
        publication_status: Some("published".to_owned()),
        published_at: None,
        governance: None,
        security: None,
        artifacts,
        extensions: no_ext(),
    }
}

#[test]
fn valid_registry_has_no_findings() {
    let r = registry(vec![artifact("a", "1.0.0", Some("Draft")), artifact("a", "1.1.0", None)]);
    assert!(validate_registry(&r).diagnostics.is_empty());
}

#[test]
fn duplicate_artifacts_are_errors() {
    let r = registry(vec![artifact("a", "1.0.0", None), artifact("b", "1.0.0", None), artifact("a", "1.0.0", None)]);
    let report = validate_registry(&r);
    assert!(!report.is_valid());
    let d = &report.diagnostics[0];
    assert_eq!(d.id, "DPCS-REG-014");
    assert_eq!(d.message, "duplicate registered artifact `a@1.0.0`");
    assert_eq!(d.object_ref.as_deref(), Some("artifacts[2]"));
    assert_eq!(d.remediation.as_deref(), Some("Artifact was first declared at artifacts[0]"));
}

#[test]
fn header_and_artifact_findings() {
    let mut r = registry(vec![artifact(" ", "1.0.0", None), artifact("x", "v1", Some("gone"))]);
    r.id = "".to_owned();
    r.version = "1".to_owned();
    r.dpcs_version = "2.0.0".to_owned();
    r.owner = " ".to_owned();
    r.publication_status = Some("  ".to_owned());
    let report = validate_registry(&r);
    let ids: Vec<&str> = report.diagnostics.iter().map(|d| d.id.as_str()).collect();
    assert_eq!(
        ids,
        vec!["DPCS-REG-001", "DPCS-REG-003", "DPCS-REG-006", "DPCS-REG-007", "DPCS-REG-009", "DPCS-REG-012", "DPCS-REG-013", "DPCS-REG-015"]
    );
    let warn = report.diagnostics.iter().find(|d| d.id == "DPCS-REG-006").unwrap();
    assert_eq!(warn.message, "registry dpcsVersion `2.0.0` may not be supported");
    assert_eq!(report.warning_count(), 2);
}

#[test]
fn publication_statuses() {
    assert!(is_known_publication_status("RETIRED"));
    assert!(!is_known_publication_status("active"));
    let err = registry_parse_error("bad".to_owned());
    assert_eq!(err.invalid_document_report().unwrap().diagnostics[0].message, "invalid registry document: bad");
}

#[test]
fn registry_warnings_do_not_invalidate() {
    let mut r = registry(vec![artifact("a", "1.0.0", Some("unheard-of"))]);
    r.dpcs_version = "2.0.0".to_owned();
    r.publication_status = Some("someday".to_owned());
    let report = validate_registry(&r);
    assert_eq!(report.diagnostics.len(), 3);
    assert!(report.is_valid());
    r.owner = "  ".to_owned();
    assert!(!validate_registry(&r).is_valid());
}

#[test]
fn registry_with_blank_artifact_type_is_invalid() {
    let mut a = artifact("a", "1.0.0", None);
    a.artifact_type = " ".to_owned();
    let report = validate_registry(&registry(vec![a]));
    assert!(!report.is_valid());
    assert_eq!(report.diagnostics[0].id, "DPCS-REG-010");
}
