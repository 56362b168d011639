//! Decisions of the file-backed reference registry server.
//!
//! The HTTP plumbing, the lock and the files live with the caller; every
//! answer the server gives is decided here: who may write, which artifact a
//! lookup returns, what a listing holds, whether a publish is accepted,
//! refused, or answered with the entry already registered, and how a status
//! change rewrites the registry.
use vstd::prelude::*;

use crate::diagnostics::report::{no_errors, sort_diagnostics};
use crate::diagnostics::{DiagnosticView, ValidationReport};
use crate::model::extension::ExtensionMap;
use crate::model::quality_gate::{eq_ignore_case, eq_ignore_case_chars};
use crate::model::registry::{
    artifact_findings, header_findings, same_artifact, validate_registry, RegisteredArtifact, Registry,
};
use crate::paths::{is_safe_path_segment, is_safe_relative, path_key, registry_content_relative_path, safe_relative, safe_segment};
use crate::text::{chars_of, concat3, push_str, starts_with, str_eq, string_of, trim, trim_chars};

verus! {

/// Body of an error response.
#[derive(Debug)]
pub enum ApiBody {
    /// A plain message, served as `{"error": ...}`.
    Message {
        /// The message.
        error: String,
    },
    /// A validation report.
    Report(ValidationReport),
}

/// An error response: HTTP status and body.
#[derive(Debug)]
pub struct ApiError {
    /// HTTP status code.
    pub status: u16,
    /// Response body.
    pub body: ApiBody,
}

/// `e` is a plain-message error with this status and text.
pub open spec fn message_error(e: ApiError, status: u16, text: Seq<char>) -> bool {
    e.status == status && (e.body matches ApiBody::Message { error } && error@ == text)
}

impl ApiError {
    /// 404 `not found`.
    pub fn not_found() -> (r: ApiError)
        ensures
            message_error(r, 404, "not found"@),
    {
        ApiError { status: 404, body: ApiBody::Message { error: String::from_str("not found") } }
    }

    /// 401 `unauthorized`.
    pub fn unauthorized() -> (r: ApiError)
        ensures
            message_error(r, 401, "unauthorized"@),
    {
        ApiError { status: 401, body: ApiBody::Message { error: String::from_str("unauthorized") } }
    }

    /// 400 with a validation report.
    pub fn bad_request(report: ValidationReport) -> (r: ApiError)
        ensures
            r.status == 400,
            r.body == ApiBody::Report(report),
    {
        ApiError { status: 400, body: ApiBody::Report(report) }
    }

    /// 400 with a message.
    pub fn bad_message(message: String) -> (r: ApiError)
        ensures
            message_error(r, 400, message@),
    {
        ApiError { status: 400, body: ApiBody::Message { error: message } }
    }

    /// 409 with a message.
    pub fn conflict(message: String) -> (r: ApiError)
        ensures
            message_error(r, 409, message@),
    {
        ApiError { status: 409, body: ApiBody::Message { error: message } }
    }

    /// 500 with a message.
    pub fn internal(message: String) -> (r: ApiError)
        ensures
            message_error(r, 500, message@),
    {
        ApiError { status: 500, body: ApiBody::Message { error: message } }
    }
}

/// Publish / update request body.
#[derive(Debug)]
pub struct PublishRequest {
    /// Artifact metadata (the id in the path must match `artifact.id`).
    pub artifact: RegisteredArtifact,
    /// Optional UTF-8 payload content.
    pub content: Option<String>,
    /// Content encoding (`utf-8` when absent).
    pub content_encoding: Option<String>,
}

/// The registry a server starts with when its root holds none.
pub fn default_registry() -> (r: Registry)
    ensures
        r.id@ == "local"@,
        r.version@ == "0.1.0"@,
        r.dpcs_version@ == "1.0.0-draft"@,
        r.owner@ == "local"@,
        r.publication_status matches Some(s) && s@ == "draft"@,
        r.published_at is None,
        r.governance is None,
        r.security is None,
        r.artifacts@.len() == 0,
        r.extensions.entries@.len() == 0,
{
    proof { reveal_strlit("1.0.0-draft"); }
    Registry {
        id: String::from_str("local"),
        version: String::from_str("0.1.0"),
        dpcs_version: String::from_str(crate::DPCS_SPEC_VERSION),
        owner: String::from_str("local"),
        publication_status: Some(String::from_str("draft")),
        published_at: None,
        governance: None,
        security: None,
        artifacts: Vec::new(),
        extensions: ExtensionMap::empty(),
    }
}

/// The token carried by an `Authorization` header: what follows `Bearer `
/// (or `bearer `), trimmed; empty when the header has neither prefix.
pub open spec fn bearer_token(header: Seq<char>) -> Seq<char> {
    if starts_with(header, "Bearer "@) || starts_with(header, "bearer "@) {
        trim(header.skip(7))
    } else {
        Seq::empty()
    }
}

/// Check the bearer token of a mutating request. `authorization` is the
/// `Authorization` header when present and readable as text.
pub fn authorize(authorization: Option<&str>, token: &Option<String>) -> (r: Result<(), ApiError>)
    ensures
        match token {
            None => r is Ok,
            Some(expected) => {
                let header = match authorization { Some(h) => h@, None => Seq::empty() };
                if bearer_token(header) == expected@ {
                    r is Ok
                } else {
                    r matches Err(e) && message_error(e, 401, "unauthorized"@)
                }
            },
        },
{
    let expected = match token {
        None => return Ok(()),
        Some(t) => t,
    };
    let h: Vec<char> = match authorization {
        Some(a) => chars_of(a),
        None => Vec::new(),
    };
    let p1 = chars_of("Bearer ");
    let p2 = chars_of("bearer ");
    proof {
        reveal_strlit("Bearer ");
        reveal_strlit("bearer ");
    }
    let got: Vec<char> = if crate::text::starts_with_chars(&h, &p1) || crate::text::starts_with_chars(&h, &p2) {
        let rest = crate::text::slice_of(&h, 7, h.len());
        assert(rest@ == h@.skip(7));
        trim_chars(&rest)
    } else {
        Vec::new()
    };
    let g = string_of(&got);
    if str_eq(g.as_str(), expected.as_str()) {
        Ok(())
    } else {
        Err(ApiError::unauthorized())
    }
}

/// The refusal for an artifact location: unsafe text, or the reason joining
/// it under the registry root failed.
pub open spec fn location_refusal(relative: Seq<char>, joined: Result<(), String>) -> Option<Seq<char>> {
    if !safe_relative(relative) {
        Some("unsafe artifact location"@)
    } else {
        match joined {
            Err(e) => Some(e@),
            Ok(_) => None,
        }
    }
}

/// Accept a location only when it is a safe relative path that stays under
/// the registry root. `joined` is the outcome of joining it under the root
/// (read only for a safe path).
pub fn check_location(relative: &str, joined: &Result<(), String>) -> (r: Result<(), ApiError>)
    ensures
        match location_refusal(relative@, *joined) {
            None => r is Ok,
            Some(m) => r matches Err(e) && message_error(e, 400, m),
        },
{
    if !is_safe_relative(relative) {
        return Err(ApiError::bad_message(String::from_str("unsafe artifact location")));
    }
    match joined {
        Err(e) => Err(ApiError::bad_message(e.clone())),
        Ok(_) => Ok(()),
    }
}

/// The artifact matches `id` and, when given, `version`.
pub open spec fn matches_id(a: RegisteredArtifact, id: Seq<char>, version: Option<Seq<char>>) -> bool {
    a.id@ == id && match version {
        Some(v) => a.version@ == v,
        None => true,
    }
}

/// Optional text as a character sequence.
pub open spec fn opt_chars(o: Option<&str>) -> Option<Seq<char>> {
    match o {
        Some(s) => Some(s@),
        None => None,
    }
}

/// Index of the last artifact before `n` that matches.
pub open spec fn last_match(a: Seq<RegisteredArtifact>, id: Seq<char>, version: Option<Seq<char>>, n: int) -> Option<int>
    decreases n,
{
    if n <= 0 {
        None
    } else if matches_id(a[n - 1], id, version) {
        Some(n - 1)
    } else {
        last_match(a, id, version, n - 1)
    }
}

proof fn lemma_last_match_range(a: Seq<RegisteredArtifact>, id: Seq<char>, version: Option<Seq<char>>, n: int)
    ensures
        last_match(a, id, version, n) matches Some(k) ==> 0 <= k < n,
    decreases n,
{
    if n > 0 {
        lemma_last_match_range(a, id, version, n - 1);
    }
}

fn matches_exec(a: &RegisteredArtifact, id: &str, version: Option<&str>) -> (r: bool)
    ensures
        r == matches_id(*a, id@, opt_chars(version)),
{
    str_eq(a.id.as_str(), id) && match version {
        Some(v) => str_eq(a.version.as_str(), v),
        None => true,
    }
}

fn last_match_exec(a: &Vec<RegisteredArtifact>, id: &str, version: Option<&str>) -> (r: Option<usize>)
    ensures
        match r {
            Some(k) => k < a@.len() && last_match(a@, id@, opt_chars(version), a@.len() as int) == Some(k as int),
            None => last_match(a@, id@, opt_chars(version), a@.len() as int) is None,
        },
{
    proof { lemma_last_match_range(a@, id@, opt_chars(version), a@.len() as int); }
    let mut i: usize = a.len();
    while i > 0
        invariant
            i <= a@.len(),
            last_match(a@, id@, opt_chars(version), a@.len() as int) == last_match(a@, id@, opt_chars(version), i as int),
        decreases i,
    {
        if matches_exec(&a[i - 1], id, version) {
            return Some(i - 1);
        }
        i -= 1;
    }
    None
}

/// The artifact a lookup returns: the last registered entry with the id and,
/// when given, the version.
pub fn find_artifact(registry: &Registry, id: &str, version: Option<&str>) -> (r: Option<RegisteredArtifact>)
    ensures
        match last_match(registry.artifacts@, id@, opt_chars(version), registry.artifacts@.len() as int) {
            Some(k) => r matches Some(x) && same_artifact(x, registry.artifacts@[k]),
            None => r is None,
        },
{
    match last_match_exec(&registry.artifacts, id, version) {
        Some(k) => Some(registry.artifacts[k].clone()),
        None => None,
    }
}

/// A listing keeps an artifact when its type equals the requested one and its
/// publication status equals the requested one ignoring ASCII case (each
/// filter applies only when given).
pub open spec fn listed(a: RegisteredArtifact, artifact_type: Option<Seq<char>>, status: Option<Seq<char>>) -> bool {
    &&& match artifact_type {
        Some(t) => a.artifact_type@ == t,
        None => true,
    }
    &&& match status {
        Some(s) => a.publication_status matches Some(p) && eq_ignore_case(p@, s),
        None => true,
    }
}

/// The artifacts before `n` that a listing keeps, in registry order.
pub open spec fn listing(a: Seq<RegisteredArtifact>, artifact_type: Option<Seq<char>>, status: Option<Seq<char>>, n: int) -> Seq<RegisteredArtifact>
    decreases n,
{
    if n <= 0 {
        Seq::empty()
    } else if listed(a[n - 1], artifact_type, status) {
        listing(a, artifact_type, status, n - 1).push(a[n - 1])
    } else {
        listing(a, artifact_type, status, n - 1)
    }
}

/// Registered artifacts, optionally filtered by type and publication status.
pub fn list_artifacts(registry: &Registry, artifact_type: Option<&str>, status: Option<&str>) -> (r: Vec<RegisteredArtifact>)
    ensures
        r@.len() == listing(registry.artifacts@, opt_chars(artifact_type), opt_chars(status), registry.artifacts@.len() as int).len(),
        forall|i: int| 0 <= i < r@.len() ==> same_artifact(#[trigger] r@[i],
            listing(registry.artifacts@, opt_chars(artifact_type), opt_chars(status), registry.artifacts@.len() as int)[i]),
{
    let a = &registry.artifacts;
    let ghost t = opt_chars(artifact_type);
    let ghost s = opt_chars(status);
    let mut out: Vec<RegisteredArtifact> = Vec::new();
    let mut i: usize = 0;
    while i < a.len()
        invariant
            i <= a@.len(),
            a == &registry.artifacts,
            t == opt_chars(artifact_type),
            s == opt_chars(status),
            out@.len() == listing(a@, t, s, i as int).len(),
            forall|k: int| 0 <= k < out@.len() ==> same_artifact(#[trigger] out@[k], listing(a@, t, s, i as int)[k]),
        decreases a.len() - i,
    {
        let x = &a[i];
        let type_ok = match artifact_type {
            Some(want) => str_eq(x.artifact_type.as_str(), want),
            None => true,
        };
        let status_ok = match status {
            Some(want) => match &x.publication_status {
                Some(p) => eq_ignore_case_chars(&chars_of(p.as_str()), &chars_of(want)),
                None => false,
            },
            None => true,
        };
        if type_ok && status_ok {
            out.push(x.clone());
        }
        i += 1;
    }
    out
}

/// Findings on a registry header with the given artifacts.
pub open spec fn findings_with(r: Registry, artifacts: Seq<RegisteredArtifact>) -> Seq<DiagnosticView> {
    header_findings(r) + artifact_findings(artifacts, artifacts.len() as int)
}

/// Why a publish request is refused before the registry is read, if it is.
pub open spec fn request_refusal(id: Seq<char>, request: PublishRequest, location_joined: Result<(), String>) -> Option<Seq<char>> {
    let a = request.artifact;
    if !safe_segment(id) {
        Some("artifact id must be a safe path segment [A-Za-z0-9._+-]"@)
    } else if a.id@ != id {
        Some("path id must match artifact.id in the request body"@)
    } else if !safe_segment(a.version@) {
        Some("artifact version must be a safe path segment"@)
    } else if a.location is Some && location_refusal(a.location->0@, location_joined) is Some {
        location_refusal(a.location->0@, location_joined)
    } else if request.content_encoding matches Some(enc) && !eq_ignore_case(enc@, "utf-8"@) {
        Some("only contentEncoding=utf-8 is supported"@)
    } else {
        None
    }
}

/// Check a publish request against the path id: both identifiers must be
/// safe path segments, the ids must agree, a declared location must stay under
/// the registry root, and content must be UTF-8. An accepted request yields
/// the artifact to register (its location set to the content path when content
/// is sent) and the pending content. `location_joined` is the outcome of
/// joining the declared location under the root (read only for a safe one).
pub fn check_publish_request(id: &str, request: PublishRequest, location_joined: &Result<(), String>)
    -> (r: Result<(RegisteredArtifact, Option<String>), ApiError>)
    ensures
        match request_refusal(id@, request, *location_joined) {
            Some(m) => r matches Err(e) && message_error(e, 400, m),
            None => r matches Ok((a, content)) && {
                &&& content == request.content
                &&& a.id == request.artifact.id
                &&& a.artifact_type == request.artifact.artifact_type
                &&& a.version == request.artifact.version
                &&& a.compatibility == request.artifact.compatibility
                &&& a.publication_status == request.artifact.publication_status
                &&& a.extensions == request.artifact.extensions
                &&& if request.content is Some {
                    a.location matches Some(l) && l@ == "artifacts/"@ + path_key(id@, a.version@) + ".yaml"@
                } else {
                    a.location == request.artifact.location
                }
            },
        },
{
    proof { reveal_strlit("utf-8"); }
    if !is_safe_path_segment(id) {
        return Err(ApiError::bad_message(String::from_str("artifact id must be a safe path segment [A-Za-z0-9._+-]")));
    }
    let PublishRequest { artifact, content, content_encoding } = request;
    let mut artifact = artifact;
    if !str_eq(artifact.id.as_str(), id) {
        return Err(ApiError::bad_message(String::from_str("path id must match artifact.id in the request body")));
    }
    if !is_safe_path_segment(artifact.version.as_str()) {
        return Err(ApiError::bad_message(String::from_str("artifact version must be a safe path segment")));
    }
    match &artifact.location {
        Some(l) => {
            match check_location(l.as_str(), location_joined) {
                Err(e) => return Err(e),
                Ok(_) => {},
            }
        },
        None => {},
    }
    match &content_encoding {
        Some(enc) => {
            if !eq_ignore_case_chars(&chars_of(enc.as_str()), &chars_of("utf-8")) {
                return Err(ApiError::bad_message(String::from_str("only contentEncoding=utf-8 is supported")));
            }
        },
        None => {},
    }
    if content.is_some() {
        artifact.location = Some(registry_content_relative_path(artifact.id.as_str(), artifact.version.as_str()));
    }
    Ok((artifact, content))
}

/// Index of the first artifact before `n` with exactly this id and version.
pub open spec fn first_exact(a: Seq<RegisteredArtifact>, id: Seq<char>, version: Seq<char>, n: int) -> Option<int>
    decreases n,
{
    if n <= 0 {
        None
    } else {
        match first_exact(a, id, version, n - 1) {
            Some(k) => Some(k),
            None => if a[n - 1].id@ == id && a[n - 1].version@ == version { Some(n - 1) } else { None },
        }
    }
}

proof fn lemma_first_exact_stable(a: Seq<RegisteredArtifact>, id: Seq<char>, version: Seq<char>, m: int, n: int)
    requires
        0 <= m <= n,
        first_exact(a, id, version, m) is Some,
    ensures
        first_exact(a, id, version, n) == first_exact(a, id, version, m),
    decreases n - m,
{
    if n > m {
        lemma_first_exact_stable(a, id, version, m, n - 1);
    }
}

proof fn lemma_first_exact_range(a: Seq<RegisteredArtifact>, id: Seq<char>, version: Seq<char>, n: int)
    ensures
        first_exact(a, id, version, n) matches Some(k) ==> 0 <= k < n,
    decreases n,
{
    if n > 0 {
        lemma_first_exact_range(a, id, version, n - 1);
    }
}

/// The entry a publish is answered with has the published id and the
/// published version, and no earlier entry has both; when no entry has both,
/// none is found (so a new version of a known id is not taken for an old one).
pub proof fn law_first_exact_matches_id_and_version(a: Seq<RegisteredArtifact>, id: Seq<char>, version: Seq<char>, n: int)
    requires
        0 <= n <= a.len(),
    ensures
        first_exact(a, id, version, n) matches Some(k) ==> 0 <= k < n && a[k].id@ == id && a[k].version@ == version
            && forall|j: int| 0 <= j < k ==> !(#[trigger] a[j].id@ == id && a[j].version@ == version),
        first_exact(a, id, version, n) is None <==> forall|j: int| 0 <= j < n ==> !(#[trigger] a[j].id@ == id && a[j].version@ == version),
    decreases n,
{
    if n > 0 {
        law_first_exact_matches_id_and_version(a, id, version, n - 1);
    }
}

/// Position of the first registered entry with exactly this id and version.
pub fn first_exact_exec(a: &Vec<RegisteredArtifact>, id: &str, version: &str) -> (r: Option<usize>)
    ensures
        match r {
            Some(k) => k < a@.len() && first_exact(a@, id@, version@, a@.len() as int) == Some(k as int),
            None => first_exact(a@, id@, version@, a@.len() as int) is None,
        },
{
    proof { lemma_first_exact_range(a@, id@, version@, a@.len() as int); }
    let mut k: usize = 0;
    while k < a.len()
        invariant
            k <= a@.len(),
            first_exact(a@, id@, version@, k as int) is None,
        decreases a.len() - k,
    {
        if str_eq(a[k].id.as_str(), id) && str_eq(a[k].version.as_str(), version) {
            proof { lemma_first_exact_stable(a@, id@, version@, k as int + 1, a@.len() as int); }
            return Some(k);
        }
        k += 1;
    }
    None
}

/// What an accepted publish leads to.
#[derive(Debug)]
pub enum PublishOutcome {
    /// The id@version is already registered: the registered entry is the
    /// answer and nothing is written.
    Existing(RegisteredArtifact),
    /// A new entry: the registry to write (after the content, when sent) and
    /// the entry that was added.
    Store {
        /// The registry with the new entry appended.
        registry: Registry,
        /// The new entry.
        artifact: RegisteredArtifact,
    },
}

/// The header fields of two registries agree.
pub open spec fn same_header(a: Registry, b: Registry) -> bool {
    &&& a.id == b.id
    &&& a.version == b.version
    &&& a.dpcs_version == b.dpcs_version
    &&& a.owner == b.owner
    &&& a.publication_status == b.publication_status
    &&& a.published_at == b.published_at
    &&& a.governance == b.governance
    &&& a.security == b.security
    &&& a.extensions == b.extensions
}

/// What publishing `artifact` against `registry` decides: see [`decide_publish`].
pub open spec fn publish_decided(registry: Registry, artifact: RegisteredArtifact, content: Option<String>,
    existing_payload: Option<String>, location_occupied: bool, r: Result<PublishOutcome, ApiError>) -> bool {
    match first_exact(registry.artifacts@, artifact.id@, artifact.version@, registry.artifacts@.len() as int) {
        Some(k) => if content is Some && existing_payload is Some && existing_payload->0@ != content->0@ {
            r matches Err(e) && message_error(e, 409, "DPCS-REG-016: artifact `"@ + artifact.id@ + "@"@
                + artifact.version@ + "` is immutable; content differs from the registered payload"@)
        } else {
            r matches Ok(PublishOutcome::Existing(x)) && same_artifact(x, registry.artifacts@[k])
        },
        None => if artifact.location is Some && location_occupied {
            r matches Err(e) && message_error(e, 409, "DPCS-REG-016: content path `"@ + artifact.location->0@
                + "` already exists for another payload"@)
        } else if no_errors(sort_diagnostics(findings_with(registry, registry.artifacts@.push(artifact)))) {
            r matches Ok(PublishOutcome::Store { registry: r2, artifact: x }) && {
                &&& same_header(r2, registry)
                &&& r2.artifacts@ == registry.artifacts@.push(artifact)
                &&& same_artifact(x, artifact)
            }
        } else {
            r matches Err(e) && e.status == 400 && (e.body matches ApiBody::Report(rep)
                && rep@ == sort_diagnostics(findings_with(registry, registry.artifacts@.push(artifact))))
        },
    }
}

/// A publish answered with an existing entry is answered with an entry of
/// the published id and version: another version of the same id is never
/// taken for it.
pub proof fn law_publish_existing_is_same_version(registry: Registry, artifact: RegisteredArtifact, content: Option<String>,
    existing_payload: Option<String>, location_occupied: bool, r: Result<PublishOutcome, ApiError>)
    requires
        publish_decided(registry, artifact, content, existing_payload, location_occupied, r),
    ensures
        r matches Ok(PublishOutcome::Existing(x)) ==> x.id@ == artifact.id@ && x.version@ == artifact.version@
            && exists|k: int| 0 <= k < registry.artifacts@.len() && same_artifact(x, #[trigger] registry.artifacts@[k]),
{
    law_first_exact_matches_id_and_version(registry.artifacts@, artifact.id@, artifact.version@, registry.artifacts@.len() as int);
}

/// Publishing an id@version the registry does not hold, at a free location,
/// into a registry that still validates with it, stores it: the registry
/// gains the entry at its end and nothing else changes. So a new version of
/// an id already registered is stored, not answered with the old one.
pub proof fn law_publish_new_version_stores(registry: Registry, artifact: RegisteredArtifact, content: Option<String>,
    existing_payload: Option<String>, location_occupied: bool, r: Result<PublishOutcome, ApiError>)
    requires
        publish_decided(registry, artifact, content, existing_payload, location_occupied, r),
        forall|j: int| 0 <= j < registry.artifacts@.len() ==> !(#[trigger] registry.artifacts@[j].id@ == artifact.id@
            && registry.artifacts@[j].version@ == artifact.version@),
        !(artifact.location is Some && location_occupied),
        no_errors(sort_diagnostics(findings_with(registry, registry.artifacts@.push(artifact)))),
    ensures
        r matches Ok(PublishOutcome::Store { registry: r2, artifact: x }) && r2.artifacts@ == registry.artifacts@.push(artifact)
            && same_header(r2, registry) && same_artifact(x, artifact),
{
    law_first_exact_matches_id_and_version(registry.artifacts@, artifact.id@, artifact.version@, registry.artifacts@.len() as int);
}

/// Decide a publish against the current registry. Registered artifacts are
/// never modified: an id@version already present is answered with the first
/// registered entry, or refused with 409 when the request sends content that
/// differs from the registered payload. A new entry is refused with 409 when
/// its content path is already taken, with 400 and the report when the
/// registry would not validate, and otherwise appended.
///
/// `existing_payload` is the registered payload of the entry already present,
/// when it has a location under the root that could be read;
/// `location_occupied` says whether the new entry's location names an existing
/// file under the root.
pub fn decide_publish(
    registry: Registry,
    artifact: RegisteredArtifact,
    content: &Option<String>,
    existing_payload: &Option<String>,
    location_occupied: bool,
) -> (r: Result<PublishOutcome, ApiError>)
    ensures
        publish_decided(registry, artifact, *content, *existing_payload, location_occupied, r),
{
    match first_exact_exec(&registry.artifacts, artifact.id.as_str(), artifact.version.as_str()) {
        Some(k) => {
            match (content, existing_payload) {
                (Some(new_content), Some(old)) => {
                    if !str_eq(old.as_str(), new_content.as_str()) {
                        let mut m = concat3("DPCS-REG-016: artifact `", artifact.id.as_str(), "@");
                        push_str(&mut m, artifact.version.as_str());
                        push_str(&mut m, "` is immutable; content differs from the registered payload");
                        return Err(ApiError::conflict(m));
                    }
                },
                _ => {},
            }
            Ok(PublishOutcome::Existing(registry.artifacts[k].clone()))
        },
        None => {
            match &artifact.location {
                Some(l) => {
                    if location_occupied {
                        let m = concat3("DPCS-REG-016: content path `", l.as_str(), "` already exists for another payload");
                        return Err(ApiError::conflict(m));
                    }
                },
                None => {},
            }
            let out = artifact.clone();
            let ghost old = registry;
            let mut registry = registry;
            registry.artifacts.push(artifact);
            let report = validate_registry(&registry);
            assert(findings_with(old, old.artifacts@.push(artifact)) == crate::model::registry::registry_findings(registry));
            if !report.is_valid() {
                return Err(ApiError::bad_request(report));
            }
            Ok(PublishOutcome::Store { registry, artifact: out })
        },
    }
}

/// Whether an artifact entry equals `old` except for its publication status,
/// which is `status`.
pub open spec fn restatused(new: RegisteredArtifact, old: RegisteredArtifact, status: Seq<char>) -> bool {
    &&& new.id == old.id
    &&& new.artifact_type == old.artifact_type
    &&& new.version == old.version
    &&& new.compatibility == old.compatibility
    &&& new.location == old.location
    &&& new.extensions == old.extensions
    &&& new.publication_status matches Some(s) && s@ == status
}

/// Set the publication status (`deprecated`, `retired`) of the last entry
/// with the id and, when given, the version. Without such an entry the
/// answer is 404 and the registry is untouched. Otherwise that entry alone
/// changes; the answer is the changed entry when the registry still
/// validates, and 400 with the report when it does not (the caller then
/// writes nothing).
pub fn set_status(registry: &mut Registry, id: &str, version: Option<&str>, status: &str) -> (r: Result<RegisteredArtifact, ApiError>)
    ensures
        match last_match(old(registry).artifacts@, id@, opt_chars(version), old(registry).artifacts@.len() as int) {
            None => r matches Err(e) && message_error(e, 404, "not found"@) && *final(registry) == *old(registry),
            Some(k) => {
                &&& same_header(*final(registry), *old(registry))
                &&& final(registry).artifacts@.len() == old(registry).artifacts@.len()
                &&& forall|i: int| 0 <= i < old(registry).artifacts@.len() && i != k
                    ==> #[trigger] final(registry).artifacts@[i] == old(registry).artifacts@[i]
                &&& restatused(final(registry).artifacts@[k], old(registry).artifacts@[k], status@)
                &&& if no_errors(sort_diagnostics(crate::model::registry::registry_findings(*final(registry)))) {
                    r matches Ok(x) && same_artifact(x, final(registry).artifacts@[k])
                } else {
                    r matches Err(e) && e.status == 400 && (e.body matches ApiBody::Report(rep)
                        && rep@ == sort_diagnostics(crate::model::registry::registry_findings(*final(registry))))
                }
            },
        },
{
    let k = match last_match_exec(&registry.artifacts, id, version) {
        None => return Err(ApiError::not_found()),
        Some(k) => k,
    };
    let ghost before = registry.artifacts@;
    let mut entry = registry.artifacts.remove(k);
    entry.publication_status = Some(String::from_str(status));
    registry.artifacts.insert(k, entry);
    assert forall|i: int| 0 <= i < before.len() && i != k implies #[trigger] registry.artifacts@[i] == before[i] by {
        if i < k {
        } else {
        }
    }
    let out = registry.artifacts[k].clone();
    let report = validate_registry(registry);
    if !report.is_valid() {
        return Err(ApiError::bad_request(report));
    }
    Ok(out)
}

/// What a publish stores, a lookup gives back: after an entry is appended, a
/// lookup by its id (with or without its version) returns that entry.
pub proof fn law_lookup_returns_published(before: Seq<RegisteredArtifact>, a: RegisteredArtifact)
    ensures
        last_match(before.push(a), a.id@, Some(a.version@), before.len() as int + 1) == Some(before.len() as int),
        last_match(before.push(a), a.id@, None, before.len() as int + 1) == Some(before.len() as int),
{
    assert(before.push(a)[before.len() as int] == a);
}

proof fn lemma_last_match_same_keys(
    a: Seq<RegisteredArtifact>,
    b: Seq<RegisteredArtifact>,
    id: Seq<char>,
    version: Option<Seq<char>>,
    n: int,
)
    requires
        0 <= n <= a.len(),
        a.len() == b.len(),
        forall|i: int| 0 <= i < a.len() ==> (#[trigger] a[i]).id == b[i].id && a[i].version == b[i].version,
    ensures
        last_match(a, id, version, n) == last_match(b, id, version, n),
    decreases n,
{
    if n > 0 {
        assert(a[n - 1].id == b[n - 1].id && a[n - 1].version == b[n - 1].version);
        lemma_last_match_same_keys(a, b, id, version, n - 1);
    }
}

/// A status change is visible to lookups: after `set_status` rewrites the
/// entry a lookup would return, the same lookup returns the rewritten entry.
pub proof fn law_lookup_sees_status_change(
    before: Registry,
    after: Registry,
    id: Seq<char>,
    version: Option<Seq<char>>,
    status: Seq<char>,
    k: int,
)
    requires
        last_match(before.artifacts@, id, version, before.artifacts@.len() as int) == Some(k),
        after.artifacts@.len() == before.artifacts@.len(),
        forall|i: int| 0 <= i < before.artifacts@.len() && i != k
            ==> #[trigger] after.artifacts@[i] == before.artifacts@[i],
        restatused(after.artifacts@[k], before.artifacts@[k], status),
    ensures
        last_match(after.artifacts@, id, version, after.artifacts@.len() as int) == Some(k),
        after.artifacts@[k].publication_status matches Some(s) && s@ == status,
{
    let a = after.artifacts@;
    let b = before.artifacts@;
    lemma_last_match_range(b, id, version, b.len() as int);
    assert forall|i: int| 0 <= i < a.len() implies (#[trigger] a[i]).id == b[i].id && a[i].version == b[i].version by {
        if i != k {
            assert(a[i] == b[i]);
        }
    }
    lemma_last_match_same_keys(a, b, id, version, a.len() as int);
}

} // verus!
