use dpcs::error::Error;
use dpcs::model::extension::ExtensionMap;
use dpcs::package::{
    artifact_entry, resolve_artifact, validate_artifact_path, validate_layout_paths, validate_package, ArtifactFileProbe, PackageLayout,
    PackageManifest,
};

fn manifest(entries: Vec<(&str, &str, &str)>) -> PackageManifest {
    let mut m = PackageManifest::empty();
    m.id = "pkg".to_owned();
    m.artifacts = entries
        .into_iter()
        .map(|(id, version, path)| artifact_entry(id.to_owned(), "pipelineContract".to_owned(), version.to_owned(), path.to_owned()))
        .collect();
    m
}

fn layout(entries: Vec<(&str, &str, &str)>) -> PackageLayout {
    PackageLayout { root: "/pkgs/demo".to_owned(), manifest: manifest(entries) }
}

#[test]
fn empty_manifest_defaults() {
    let m = PackageManifest::empty();
    assert_eq!(m.id, "");
    assert_eq!(m.version, "0.1.0");
    assert_eq!(m.dpcs_version, "1.0.0-draft");
    assert!(m.artifacts.is_empty());
    let _ = ExtensionMap::empty();
}

#[test]
fn valid_package_has_no_findings() {
    let opened = Ok(layout(vec![("a", "1.0.0", "contracts/a.yaml"), ("b", "2.0.0", "b.yaml")]));
    let report = validate_package(&opened, &vec![ArtifactFileProbe::File, ArtifactFileProbe::File]);
    assert!(report.diagnostics.is_empty());
}

#[test]
fn unopenable_package_reports_pkg_001() {
    let opened: Result<PackageLayout, Error> =
        Err(Error::Io { path: "/pkgs/demo/manifest.yaml".to_owned(), message: "permission denied".to_owned() });
    let report = validate_package(&opened, &vec![]);
    assert_eq!(report.diagnostics.len(), 1);
    let d = &report.diagnostics[0];
    assert_eq!(d.id, "DPCS-PKG-001");
    assert_eq!(d.category, "package");
    assert_eq!(d.message, "failed to open package: failed to read `/pkgs/demo/manifest.yaml`: permission denied");
    assert_eq!(d.remediation.as_deref(), Some("Ensure manifest.yaml exists and is well-formed"));
    assert_eq!(d.object_ref, None);
}

#[test]
fn manifest_and_entry_findings_in_order() {
    let mut l = layout(vec![
        ("a", "1.0.0", "a.yaml"),
        (" ", "x", "../escape.yaml"),
        ("a", "1.0.0", "link.yaml"),
        ("c", "1.0.0", "missing.yaml"),
        ("d", "1.0.0", "d.yaml"),
    ]);
    l.manifest.id = "  ".to_owned();
    l.manifest.version = "one".to_owned();
    l.manifest.dpcs_version = "".to_owned();
    let probes = vec![
        ArtifactFileProbe::File,
        ArtifactFileProbe::File,
        ArtifactFileProbe::Symlink,
        ArtifactFileProbe::Missing,
        ArtifactFileProbe::Escapes("path escapes package/registry root via symlink: d.yaml".to_owned()),
    ];
    let report = validate_package(&Ok(l), &probes);
    let got: Vec<(&str, &str, Option<&str>)> = report
        .diagnostics
        .iter()
        .map(|d| (d.id.as_str(), d.message.as_str(), d.object_ref.as_deref()))
        .collect();
    assert_eq!(
        got,
        vec![
            ("DPCS-PKG-007", "package id must be non-empty", Some("id")),
            ("DPCS-PKG-008", "invalid package version `one`", Some("version")),
            ("DPCS-PKG-009", "package dpcsVersion must be non-empty", Some("dpcsVersion")),
            ("DPCS-PKG-003", "artifact id must be non-empty", Some("artifacts[1].id")),
            ("DPCS-PKG-004", "invalid artifact version `x`", Some("artifacts[1].version")),
            ("DPCS-PKG-005", "unsafe or absolute artifact path `../escape.yaml`", Some("artifacts[1].path")),
            ("DPCS-PKG-002", "duplicate artifact id/version `a@1.0.0`", Some("artifacts[2]")),
            ("DPCS-PKG-010", "artifact path must not be a symlink: link.yaml", Some("artifacts[2].path")),
            ("DPCS-PKG-006", "artifact file missing: missing.yaml", Some("artifacts[3].path")),
            (
                "DPCS-PKG-005",
                "artifact path escapes package root `d.yaml`: path escapes package/registry root via symlink: d.yaml",
                Some("artifacts[4].path")
            ),
        ]
    );
    assert_eq!(report.diagnostics[5].remediation.as_deref(), Some("Use a relative path without '..'"));
    assert!(report.diagnostics.iter().all(|d| d.category == "package"));
}

#[test]
fn duplicate_key_is_the_joined_text() {
    // `a@b` + `c` and `a` + `b@c` give the same key, `a@b@c`.
    let report = validate_package(
        &Ok(layout(vec![("a@b", "c", "x.yaml"), ("a", "b@c", "y.yaml")])),
        &vec![ArtifactFileProbe::File, ArtifactFileProbe::File],
    );
    assert!(report.diagnostics.iter().any(|d| d.id == "DPCS-PKG-002" && d.message == "duplicate artifact id/version `a@b@c`"));
}

#[test]
fn resolve_path_and_artifact() {
    let l = layout(vec![("a", "1.0.0", "a1.yaml"), ("a", "2.0.0", "a2.yaml")]);
    assert_eq!(l.resolve_path("a", None).as_deref(), Some("/pkgs/demo/a1.yaml"));
    assert_eq!(l.resolve_path("a", Some("2.0.0")).as_deref(), Some("/pkgs/demo/a2.yaml"));
    assert_eq!(l.resolve_path("b", None), None);
    match resolve_artifact(&l, "a", Some("3.0.0")) {
        Err(Error::Serialization(m)) => assert_eq!(m, "artifact `a`@3.0.0 not found in package"),
        other => panic!("unexpected {other:?}"),
    }
    match resolve_artifact(&l, "z", None) {
        Err(Error::Serialization(m)) => assert_eq!(m, "artifact `z` not found in package"),
        other => panic!("unexpected {other:?}"),
    }
    let abs = layout(vec![("a", "1.0.0", "/etc/a.yaml")]);
    assert_eq!(abs.resolve_path("a", None).as_deref(), Some("/etc/a.yaml"));
}

#[test]
fn artifact_path_rules() {
    assert!(validate_artifact_path("contracts/a.yaml").is_ok());
    match validate_artifact_path("/abs.yaml") {
        Err(Error::Serialization(m)) => assert_eq!(m, "artifact path must be relative: /abs.yaml"),
        other => panic!("unexpected {other:?}"),
    }
    match validate_artifact_path("a/../b.yaml") {
        Err(Error::Serialization(m)) => assert_eq!(m, "artifact path must not contain '..': a/../b.yaml"),
        other => panic!("unexpected {other:?}"),
    }
}

#[test]
fn packing_checks_paths_then_files_in_entry_order() {
    let l = layout(vec![("a", "1", "a.yaml"), ("b", "1", "sub/b.yaml")]);
    assert!(validate_layout_paths(&l, &[true, true]).is_ok());
    match validate_layout_paths(&l, &[true, false]) {
        Err(Error::Io { path, message }) => {
            assert_eq!(path, "/pkgs/demo/sub/b.yaml");
            assert_eq!(message, "artifact file missing");
        }
        other => panic!("unexpected {other:?}"),
    }
    let bad = layout(vec![("a", "1", "a.yaml"), ("b", "1", "../b.yaml"), ("c", "1", "c.yaml")]);
    match validate_layout_paths(&bad, &[false, true, false]) {
        Err(Error::Io { path, .. }) => assert_eq!(path, "/pkgs/demo/a.yaml"),
        other => panic!("unexpected {other:?}"),
    }
    match validate_layout_paths(&bad, &[true, true, false]) {
        Err(Error::Serialization(m)) => assert_eq!(m, "artifact path must not contain '..': ../b.yaml"),
        other => panic!("unexpected {other:?}"),
    }
}
