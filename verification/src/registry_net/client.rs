//! Registry client: request paths, response handling and error diagnostics.
//!
//! The HTTP transport belongs to the caller; the paths it requests, how a
//! response is classified, and what an error reports are decided here.
use vstd::prelude::*;

use crate::diagnostics::{categories, owned, Diagnostic, DiagnosticStage, DiagnosticView, Severity, ValidationReport};
use crate::text::{chars_of, concat3, decimal, decimal_u64, push_str, string_of};

verus! {

/// Client errors for registry network operations.
#[derive(Debug)]
pub enum RegistryClientError {
    /// Transport or HTTP stack failure.
    Transport(String),
    /// Unexpected HTTP status.
    Http {
        /// Status code.
        status: u16,
        /// Response message / body excerpt.
        message: String,
        /// Structured diagnostics sent by the server, when it sent any.
        report: Option<ValidationReport>,
    },
    /// Response body could not be decoded.
    Decode(String),
}

/// The text of the URL that `url::Url::parse` makes of `input`, or `None`
/// when it refuses it.
pub uninterp spec fn parsed_url(input: Seq<char>) -> Option<Seq<char>>;

/// The text of the error `url::Url::parse` reports for `input`.
pub uninterp spec fn url_parse_message(input: Seq<char>) -> Seq<char>;

/// The text of the URL that `url::Url::join` makes of `path` against the URL
/// that `url::Url::parse` makes of `base`, or `None` when either refuses.
pub uninterp spec fn joined_url(base: Seq<char>, path: Seq<char>) -> Option<Seq<char>>;

/// The text of the error that parsing `base` or joining `path` to it reports.
pub uninterp spec fn url_join_message(base: Seq<char>, path: Seq<char>) -> Seq<char>;

/// `url::Url::parse` on `input`: the parsed URL's text (`Url::as_str`), or
/// the parse error's text. Trusted: that the result is the named value of
/// `input` alone.
#[verifier::external_body]
fn parse_url(input: &str) -> (r: Result<String, String>)
    ensures
        match r {
            Ok(u) => parsed_url(input@) == Some(u@),
            Err(m) => parsed_url(input@) is None && m@ == url_parse_message(input@),
        },
{
    match url::Url::parse(input) {
        Ok(u) => Ok(u.as_str().to_owned()),
        Err(e) => Err(e.to_string()),
    }
}

/// `url::Url::join` of `path` onto the URL `url::Url::parse` makes of `base`:
/// the joined URL's text, or the error's text. Trusted: that the result is
/// the named value of `base` and `path` alone.
#[verifier::external_body]
fn join_url(base: &str, path: &str) -> (r: Result<String, String>)
    ensures
        match r {
            Ok(u) => joined_url(base@, path@) == Some(u@),
            Err(m) => joined_url(base@, path@) is None && m@ == url_join_message(base@, path@),
        },
{
    match url::Url::parse(base).and_then(|b| b.join(path)) {
        Ok(u) => Ok(u.as_str().to_owned()),
        Err(e) => Err(e.to_string()),
    }
}

/// The base URL of a registry client for `base_url`: its parsed form, or a
/// transport error `invalid base URL: ` followed by the parse error.
pub fn client_base_url(base_url: &str) -> (r: Result<String, RegistryClientError>)
    ensures
        match r {
            Ok(u) => parsed_url(base_url@) == Some(u@),
            Err(e) => parsed_url(base_url@) is None && (e matches RegistryClientError::Transport(m)
                && m@ == "invalid base URL: "@ + url_parse_message(base_url@)),
        },
{
    match parse_url(base_url) {
        Ok(u) => Ok(u),
        Err(m) => {
            let text = concat3("invalid base URL: ", m.as_str(), "");
            proof {
                reveal_strlit("");
                assert(text@ =~= "invalid base URL: "@ + url_parse_message(base_url@));
            }
            Err(RegistryClientError::Transport(text))
        },
    }
}

/// `s` without its leading `/` characters.
pub open spec fn without_leading_slashes(s: Seq<char>) -> Seq<char>
    decreases s.len(),
{
    if s.len() > 0 && s[0] == '/' { without_leading_slashes(s.drop_first()) } else { s }
}

fn strip_leading_slashes(s: &str) -> (r: String)
    ensures
        r@ == without_leading_slashes(s@),
{
    let v = chars_of(s);
    let mut i: usize = 0;
    assert(v@.skip(0) =~= v@);
    while i < v.len() && v[i] == '/'
        invariant
            i <= v@.len(),
            v@ == s@,
            without_leading_slashes(v@.skip(i as int)) == without_leading_slashes(v@),
        decreases v.len() - i,
    {
        assert(v@.skip(i as int).drop_first() =~= v@.skip(i + 1));
        i += 1;
    }
    assert(without_leading_slashes(v@.skip(i as int)) == v@.skip(i as int));
    let mut rest: Vec<char> = Vec::new();
    let mut k: usize = i;
    while k < v.len()
        invariant
            i <= k <= v@.len(),
            rest@ == v@.subrange(i as int, k as int),
        decreases v.len() - k,
    {
        rest.push(v[k]);
        k += 1;
        assert(rest@ =~= v@.subrange(i as int, k as int));
    }
    assert(rest@ =~= v@.skip(i as int));
    string_of(&rest)
}

/// The URL a request for `path` goes to: `path` without its leading `/`,
/// joined onto the client's base URL; a refused join is a transport error
/// carrying the join error.
pub fn request_url(base: &str, path: &str) -> (r: Result<String, RegistryClientError>)
    ensures
        match r {
            Ok(u) => joined_url(base@, without_leading_slashes(path@)) == Some(u@),
            Err(e) => joined_url(base@, without_leading_slashes(path@)) is None && (e matches RegistryClientError::Transport(m)
                && m@ == url_join_message(base@, without_leading_slashes(path@))),
        },
{
    let relative = strip_leading_slashes(path);
    match join_url(base, relative.as_str()) {
        Ok(u) => Ok(u),
        Err(m) => Err(RegistryClientError::Transport(m)),
    }
}

fn status_text(status: u16) -> (r: String)
    ensures
        r@ == decimal(status as nat),
{
    string_of(&decimal_u64(status as u64))
}

/// Model of a registry-client finding.
pub open spec fn client_view(id: Seq<char>, message: Seq<char>, remediation: Seq<char>) -> DiagnosticView {
    DiagnosticView {
        remediation: Some(remediation),
        ..Diagnostic::fresh(id, Severity::Error, DiagnosticStage::Validation, "registryClient"@, message)
    }
}

fn client_diag(id: &str, message: String, remediation: &str) -> (r: Diagnostic)
    ensures
        r@ == client_view(id@, message@, remediation@),
{
    proof { reveal_strlit("registryClient"); }
    Diagnostic::error(id, categories::REGISTRY_CLIENT, message).with_remediation(owned(remediation))
}

impl RegistryClientError {
    /// Human-readable description of the error.
    pub open spec fn text(&self) -> Seq<char> {
        match self {
            RegistryClientError::Transport(m) => "registry transport error: "@ + m@,
            RegistryClientError::Http { status, message, .. } => "registry HTTP "@ + decimal(*status as nat) + ": "@ + message@,
            RegistryClientError::Decode(m) => "registry decode error: "@ + m@,
        }
    }

    /// Human-readable description of the error.
    pub fn message(&self) -> (r: String)
        ensures
            r@ == self.text(),
    {
        proof { reveal_strlit(""); }
        match self {
            RegistryClientError::Transport(m) => concat3("registry transport error: ", m.as_str(), ""),
            RegistryClientError::Http { status, message, .. } => {
                let mut out = concat3("registry HTTP ", status_text(*status).as_str(), ": ");
                push_str(&mut out, message.as_str());
                out
            },
            RegistryClientError::Decode(m) => concat3("registry decode error: ", m.as_str(), ""),
        }
    }

    /// The request never got an HTTP answer.
    pub fn is_transport(&self) -> (r: bool)
        ensures
            r == (self is Transport),
    {
        match self {
            RegistryClientError::Transport(_) => true,
            _ => false,
        }
    }

    /// The server answered with a 5xx status.
    pub fn is_server_error(&self) -> (r: bool)
        ensures
            r == (self matches RegistryClientError::Http { status, .. } && 500 <= *status && *status <= 599),
    {
        match self {
            RegistryClientError::Http { status, .. } => 500 <= *status && *status <= 599,
            _ => false,
        }
    }

    /// The diagnostics an error reports: the server's own report first, when
    /// it sent one, then one registry-client finding.
    pub open spec fn diagnostics_of(self) -> Seq<DiagnosticView> {
        match self {
            RegistryClientError::Transport(m) => seq![client_view("DPCS-REGC-001"@, m@,
                "Check network connectivity and registry base URL"@)],
            RegistryClientError::Http { status, message, report } =>
                (match report { Some(r) => r@, None => Seq::empty() })
                + seq![client_view("DPCS-REGC-002"@, "HTTP "@ + decimal(status as nat) + ": "@ + message@,
                    "Inspect registry server logs and request payload"@)],
            RegistryClientError::Decode(m) => seq![client_view("DPCS-REGC-003"@, m@,
                "Ensure the server speaks the DPCS reference registry API"@)],
        }
    }

    /// Convert into registry-client diagnostics.
    pub fn into_diagnostics(self) -> (r: ValidationReport)
        ensures
            r@ == self.diagnostics_of(),
    {
        let ghost me = self;
        let mut report = ValidationReport::new();
        match self {
            RegistryClientError::Transport(message) => {
                report.push(client_diag("DPCS-REGC-001", message, "Check network connectivity and registry base URL"));
            },
            RegistryClientError::Http { status, message, report: server_report } => {
                match server_report {
                    Some(r) => report.extend(r),
                    None => {},
                }
                let mut m = concat3("HTTP ", status_text(status).as_str(), ": ");
                push_str(&mut m, message.as_str());
                report.push(client_diag("DPCS-REGC-002", m, "Inspect registry server logs and request payload"));
            },
            RegistryClientError::Decode(message) => {
                report.push(client_diag("DPCS-REGC-003", message, "Ensure the server speaks the DPCS reference registry API"));
            },
        }
        assert(report@ =~= me.diagnostics_of());
        report
    }
}

/// `GET /v1/artifacts` path with its optional `type` and `status` filters.
pub open spec fn list_path_text(artifact_type: Option<Seq<char>>, status: Option<Seq<char>>) -> Seq<char> {
    match (artifact_type, status) {
        (None, None) => "/v1/artifacts"@,
        (Some(t), None) => "/v1/artifacts"@ + "?type="@ + t,
        (None, Some(s)) => "/v1/artifacts"@ + "?status="@ + s,
        (Some(t), Some(s)) => "/v1/artifacts"@ + "?type="@ + t + "&status="@ + s,
    }
}

/// Path of the artifact listing, with the filters that are given.
pub fn list_path(artifact_type: Option<&str>, status: Option<&str>) -> (r: String)
    ensures
        r@ == list_path_text(
            match artifact_type { Some(t) => Some(t@), None => None },
            match status { Some(s) => Some(s@), None => None },
        ),
{
    let mut path = String::from_str("/v1/artifacts");
    match artifact_type {
        Some(t) => {
            push_str(&mut path, "?type=");
            push_str(&mut path, t);
            match status {
                Some(s) => {
                    push_str(&mut path, "&status=");
                    push_str(&mut path, s);
                },
                None => {},
            }
        },
        None => match status {
            Some(s) => {
                push_str(&mut path, "?status=");
                push_str(&mut path, s);
            },
            None => {},
        },
    }
    assert(path@ =~= list_path_text(
        match artifact_type { Some(t) => Some(t@), None => None },
        match status { Some(s) => Some(s@), None => None },
    ));
    path
}

/// `/v1/artifacts/{id}{suffix}`, with `?version=` when a version is given.
pub open spec fn artifact_path_text(id: Seq<char>, suffix: Seq<char>, version: Option<Seq<char>>) -> Seq<char> {
    "/v1/artifacts/"@ + id + suffix + match version {
        Some(v) => "?version="@ + v,
        None => Seq::empty(),
    }
}

/// Path of one artifact (`suffix` empty), of its content (`/content`), or of
/// a status change (`/deprecate`, `/retire`), with an optional version.
pub fn artifact_path(id: &str, suffix: &str, version: Option<&str>) -> (r: String)
    ensures
        r@ == artifact_path_text(id@, suffix@, match version { Some(v) => Some(v@), None => None }),
{
    let mut path = concat3("/v1/artifacts/", id, suffix);
    match version {
        Some(v) => {
            push_str(&mut path, "?version=");
            push_str(&mut path, v);
        },
        None => {},
    }
    path
}

/// Location given to published content when the artifact names none:
/// `artifacts/<id>-<version>.yaml`.
pub fn default_publish_location(id: &str, version: &str) -> (r: String)
    ensures
        r@ == "artifacts/"@ + id@ + "-"@ + version@ + ".yaml"@,
{
    let mut out = concat3("artifacts/", id, "-");
    push_str(&mut out, version);
    push_str(&mut out, ".yaml");
    out
}

/// Classify an HTTP answer: a 400 carries the server's report when its body
/// held one, any other status outside 200..=299 is an HTTP error, and a
/// success yields the body to decode.
pub fn check_response(status: u16, body: String, bad_request_report: Option<ValidationReport>)
    -> (r: Result<String, RegistryClientError>)
    ensures
        status == 400 ==> r == Err::<String, RegistryClientError>(RegistryClientError::Http { status, message: body, report: bad_request_report }),
        status != 400 && !(200 <= status <= 299) ==> r == Err::<String, RegistryClientError>(RegistryClientError::Http { status, message: body, report: None }),
        200 <= status <= 299 ==> r == Ok::<String, RegistryClientError>(body),
{
    if status == 400 {
        return Err(RegistryClientError::Http { status, message: body, report: bad_request_report });
    }
    if !(200 <= status && status <= 299) {
        return Err(RegistryClientError::Http { status, message: body, report: None });
    }
    Ok(body)
}

} // verus!
