use dpcs::diagnostics::{Diagnostic, ValidationReport};
use dpcs::model::extension::ExtensionMap;
use dpcs::model::registry::{RegisteredArtifact, Registry};
use dpcs::registry_net::cache::{sanitize, RegistryCache};
use dpcs::registry_net::client::{artifact_path, check_response, client_base_url, list_path, request_url, RegistryClientError};
use dpcs::registry_net::server::{
    authorize, check_location, check_publish_request, decide_publish, default_registry, find_artifact, list_artifacts,
    set_status, ApiBody, ApiError, PublishOutcome, PublishRequest,
};

fn no_ext() -> ExtensionMap {
    ExtensionMap { entries: vec![] }
}

fn artifact(id: &str, version: &str, status: Option<&str>, location: Option<&str>) -> RegisteredArtifact {
    RegisteredArtifact {
        id: id.to_owned(),
        artifact_type: "pipelineContract".to_owned(),
        version: version.to_owned(),
        compatibility: None,
        publication_status: status.map(str::to_owned),
        location: location.map(str::to_owned),
        extensions: no_ext(),
    }
}

fn message(e: &ApiError) -> (u16, &str) {
    match &e.body {
        ApiBody::Message { error } => (e.status, error.as_str()),
        ApiBody::Report(_) => (e.status, "<report>"),
    }
}

#[test]
fn default_registry_is_local_draft() {
    let r = default_registry();
    assert_eq!(r.id, "local");
    assert_eq!(r.version, "0.1.0");
    assert_eq!(r.dpcs_version, "1.0.0-draft");
    assert_eq!(r.owner, "local");
    assert_eq!(r.publication_status.as_deref(), Some("draft"));
    assert!(r.artifacts.is_empty());
}

#[test]
fn authorization_needs_the_bearer_token() {
    let token = Some("s3cret".to_owned());
    assert!(authorize(None, &None).is_ok());
    assert!(authorize(Some("Bearer s3cret"), &token).is_ok());
    assert!(authorize(Some("bearer   s3cret  "), &token).is_ok());
    let e = authorize(Some("Basic s3cret"), &token).unwrap_err();
    assert_eq!(message(&e), (401, "unauthorized"));
    assert!(authorize(None, &token).is_err());
    assert!(authorize(Some("Bearer other"), &token).is_err());
}

#[test]
fn lookup_returns_the_last_match() {
    let mut r = default_registry();
    r.artifacts = vec![
        artifact("a", "1.0.0", Some("published"), None),
        artifact("a", "2.0.0", Some("draft"), None),
        artifact("b", "1.0.0", None, None),
    ];
    assert_eq!(find_artifact(&r, "a", None).unwrap().version, "2.0.0");
    assert_eq!(find_artifact(&r, "a", Some("1.0.0")).unwrap().version, "1.0.0");
    assert!(find_artifact(&r, "c", None).is_none());
    let listed = list_artifacts(&r, None, Some("PUBLISHED"));
    assert_eq!(listed.len(), 1);
    assert_eq!(listed[0].version, "1.0.0");
    assert_eq!(list_artifacts(&r, Some("pipelineContract"), None).len(), 3);
    assert_eq!(list_artifacts(&r, Some("capabilityProfile"), None).len(), 0);
}

#[test]
fn publish_request_checks_in_order() {
    let req = |a: RegisteredArtifact, content: Option<&str>, enc: Option<&str>| PublishRequest {
        artifact: a,
        content: content.map(str::to_owned),
        content_encoding: enc.map(str::to_owned),
    };
    let ok: Result<(), String> = Ok(());
    let e = check_publish_request("a/b", req(artifact("a/b", "1.0.0", None, None), None, None), &ok).unwrap_err();
    assert_eq!(message(&e), (400, "artifact id must be a safe path segment [A-Za-z0-9._+-]"));
    let e = check_publish_request("a", req(artifact("b", "1.0.0", None, None), None, None), &ok).unwrap_err();
    assert_eq!(message(&e), (400, "path id must match artifact.id in the request body"));
    let e = check_publish_request("a", req(artifact("a", "1 0", None, None), None, None), &ok).unwrap_err();
    assert_eq!(message(&e), (400, "artifact version must be a safe path segment"));
    let e = check_publish_request("a", req(artifact("a", "1.0.0", None, Some("../x")), None, None), &ok).unwrap_err();
    assert_eq!(message(&e), (400, "unsafe artifact location"));
    let refused: Result<(), String> = Err("resolved path escapes root: x".to_owned());
    let e = check_publish_request("a", req(artifact("a", "1.0.0", None, Some("x")), None, None), &refused).unwrap_err();
    assert_eq!(message(&e), (400, "resolved path escapes root: x"));
    let e = check_publish_request("a", req(artifact("a", "1.0.0", None, None), Some("x"), Some("base64")), &ok).unwrap_err();
    assert_eq!(message(&e), (400, "only contentEncoding=utf-8 is supported"));
    let (a, content) =
        check_publish_request("Demo", req(artifact("Demo", "1.0.0", None, None), Some("body"), Some("UTF-8")), &ok).unwrap();
    assert_eq!(content.as_deref(), Some("body"));
    assert_eq!(a.location.as_deref(), Some("artifacts/44656d6f-312e302e30.yaml"));
    let (a, content) = check_publish_request("a", req(artifact("a", "1.0.0", None, Some("p.yaml")), None, None), &ok).unwrap();
    assert_eq!(content, None);
    assert_eq!(a.location.as_deref(), Some("p.yaml"));
    assert!(check_location("x/y.yaml", &ok).is_ok());
}

#[test]
fn publish_never_modifies_registered_artifacts() {
    let mut r = default_registry();
    r.artifacts = vec![artifact("a", "1.0.0", Some("published"), Some("artifacts/a.yaml"))];
    let new = artifact("a", "1.0.0", Some("draft"), Some("artifacts/a.yaml"));
    // Same content: the registered entry answers.
    match decide_publish(r, new, &Some("x".to_owned()), &Some("x".to_owned()), true) {
        Ok(PublishOutcome::Existing(e)) => assert_eq!(e.publication_status.as_deref(), Some("published")),
        other => panic!("unexpected {other:?}"),
    }
    let mut r = default_registry();
    r.artifacts = vec![artifact("a", "1.0.0", Some("published"), Some("artifacts/a.yaml"))];
    let new = artifact("a", "1.0.0", None, Some("artifacts/a.yaml"));
    let e = decide_publish(r, new, &Some("new".to_owned()), &Some("old".to_owned()), false).unwrap_err();
    assert_eq!(
        message(&e),
        (409, "DPCS-REG-016: artifact `a@1.0.0` is immutable; content differs from the registered payload")
    );
}

#[test]
fn publish_new_artifact() {
    let r = default_registry();
    let e = decide_publish(r, artifact("a", "1.0.0", None, Some("artifacts/a.yaml")), &None, &None, true).unwrap_err();
    assert_eq!(message(&e), (409, "DPCS-REG-016: content path `artifacts/a.yaml` already exists for another payload"));
    let r = default_registry();
    match decide_publish(r, artifact("a", "1.0.0", Some("draft"), None), &None, &None, false) {
        Ok(PublishOutcome::Store { registry, artifact }) => {
            assert_eq!(registry.artifacts.len(), 1);
            assert_eq!(artifact.id, "a");
            assert_eq!(find_artifact(&registry, "a", Some("1.0.0")).unwrap().id, "a");
        }
        other => panic!("unexpected {other:?}"),
    }
    let r = default_registry();
    let e = decide_publish(r, artifact("a", "v1", None, None), &None, &None, false).unwrap_err();
    assert_eq!(e.status, 400);
    match &e.body {
        ApiBody::Report(rep) => assert!(rep.diagnostics.iter().any(|d| d.id == "DPCS-REG-012")),
        ApiBody::Message { .. } => panic!("expected a report"),
    }
}

#[test]
fn status_changes_touch_the_last_match() {
    let mut r = default_registry();
    r.artifacts = vec![artifact("a", "1.0.0", Some("published"), None), artifact("a", "1.0.1", Some("published"), None)];
    let out = set_status(&mut r, "a", None, "deprecated").unwrap();
    assert_eq!(out.version, "1.0.1");
    assert_eq!(r.artifacts[1].publication_status.as_deref(), Some("deprecated"));
    assert_eq!(r.artifacts[0].publication_status.as_deref(), Some("published"));
    assert_eq!(find_artifact(&r, "a", None).unwrap().publication_status.as_deref(), Some("deprecated"));
    let e = set_status(&mut r, "zz", None, "retired").unwrap_err();
    assert_eq!(message(&e), (404, "not found"));
}

#[test]
fn client_paths_and_responses() {
    assert_eq!(list_path(None, None), "/v1/artifacts");
    assert_eq!(list_path(Some("pipelineContract"), Some("draft")), "/v1/artifacts?type=pipelineContract&status=draft");
    assert_eq!(list_path(None, Some("draft")), "/v1/artifacts?status=draft");
    assert_eq!(artifact_path("a", "/content", Some("1.0.0")), "/v1/artifacts/a/content?version=1.0.0");
    assert_eq!(artifact_path("a", "/retire", None), "/v1/artifacts/a/retire");
    assert_eq!(check_response(200, "{}".to_owned(), None).unwrap(), "{}");
    match check_response(404, "nope".to_owned(), None) {
        Err(RegistryClientError::Http { status, message, report }) => {
            assert_eq!((status, message.as_str()), (404, "nope"));
            assert!(report.is_none());
        }
        other => panic!("unexpected {other:?}"),
    }
}

#[test]
fn client_errors_become_diagnostics() {
    let e = RegistryClientError::Transport("connection refused".to_owned());
    assert!(e.is_transport());
    assert_eq!(e.message(), "registry transport error: connection refused");
    let r = e.into_diagnostics();
    assert_eq!(r.diagnostics[0].id, "DPCS-REGC-001");
    assert_eq!(r.diagnostics[0].category, "registryClient");
    let mut server = ValidationReport::new();
    server.push(Diagnostic::error("DPCS-REG-012", "registry", "bad version".to_owned()));
    let e = RegistryClientError::Http { status: 400, message: "bad".to_owned(), report: Some(server) };
    assert!(!e.is_server_error());
    assert_eq!(e.message(), "registry HTTP 400: bad");
    let r = e.into_diagnostics();
    let ids: Vec<&str> = r.diagnostics.iter().map(|d| d.id.as_str()).collect();
    assert_eq!(ids, vec!["DPCS-REG-012", "DPCS-REGC-002"]);
    assert_eq!(r.diagnostics[1].message, "HTTP 400: bad");
    let e = RegistryClientError::Http { status: 503, message: "down".to_owned(), report: None };
    assert!(e.is_server_error());
    let e = RegistryClientError::Decode("eof".to_owned());
    assert_eq!(e.into_diagnostics().diagnostics[0].remediation.as_deref(), Some("Ensure the server speaks the DPCS reference registry API"));
}

#[test]
fn cache_gives_back_what_was_put() {
    let mut c = RegistryCache::memory();
    assert!(c.root().is_none());
    assert!(c.get("reg", "a", "1.0.0").is_none());
    c.put("reg", artifact("a", "1.0.0", Some("draft"), None), Some("body".to_owned()), None);
    c.put("reg", artifact("b", "1.0.0", None, None), None, Some("etag".to_owned()));
    let (a, content, etag) = c.get("reg", "a", "1.0.0").unwrap();
    assert_eq!((a.id.as_str(), content.as_deref(), etag), ("a", Some("body"), None));
    c.put("reg", artifact("a", "1.0.0", Some("published"), None), None, None);
    let (a, content, _) = c.get("reg", "a", "1.0.0").unwrap();
    assert_eq!((a.publication_status.as_deref(), content), (Some("published"), None));
    assert_eq!(c.get("reg", "b", "1.0.0").unwrap().2.as_deref(), Some("etag"));
    c.clear();
    assert!(c.get("reg", "b", "1.0.0").is_none());
    assert_eq!(RegistryCache::key("reg", "a", "1.0.0"), "reg|a|1.0.0");
    assert_eq!(sanitize("a|b"), "617c62");
    let d = RegistryCache::disk("/tmp/cache".to_owned());
    assert_eq!(d.root(), Some("/tmp/cache"));
}

#[test]
fn client_base_url_is_parsed_or_refused() {
    assert_eq!(client_base_url("http://127.0.0.1:8080").unwrap(), "http://127.0.0.1:8080/");
    match client_base_url("not a url") {
        Err(RegistryClientError::Transport(m)) => assert_eq!(m, "invalid base URL: relative URL without a base"),
        other => panic!("unexpected {:?}", other.map(|_| ())),
    }
    match client_base_url("http://host:99999/") {
        Err(RegistryClientError::Transport(m)) => assert_eq!(m, "invalid base URL: invalid port number"),
        other => panic!("unexpected {:?}", other.map(|_| ())),
    }
}

#[test]
fn request_url_joins_without_leading_slashes() {
    assert_eq!(request_url("http://h/api/", "/v1/registry").unwrap(), "http://h/api/v1/registry");
    assert_eq!(request_url("http://h/api/", "//v1/artifacts?x=1").unwrap(), "http://h/api/v1/artifacts?x=1");
    assert_eq!(request_url("http://h/api", "v1/registry").unwrap(), "http://h/v1/registry");
    match request_url("not a url", "v1") {
        Err(RegistryClientError::Transport(m)) => assert_eq!(m, "relative URL without a base"),
        other => panic!("unexpected {:?}", other.map(|_| ())),
    }
}
