//! Registry documents and their validation.
use vstd::prelude::*;

use super::extension::ExtensionMap;
use super::metadata::GovernanceMetadata;
use super::quality_gate::{eq_ignore_case, eq_ignore_case_chars};
use super::security::SecurityMetadata;
use super::versioning::{is_present_version, is_valid_version, parse_version_spec};
use crate::diagnostics::report::{diag_views, lemma_no_errors_concat, lemma_sort_no_errors, no_errors, sort_diagnostics};
use crate::diagnostics::{categories, clone_opt, owned, Diagnostic, DiagnosticStage, DiagnosticView, Severity, ValidationReport};
use crate::text::{chars_of, concat3, decimal, is_blank, push_str, starts_with, str_eq, trim, usize_string};

verus! {

/// Reference to an external DPCS registry entry.
#[derive(Debug)]
pub struct RegistryReference {
    /// Registry identifier or URL.
    pub registry: Option<String>,
    /// Artifact identifier within the registry.
    pub artifact_id: Option<String>,
    /// Extension fields.
    pub extensions: ExtensionMap,
}

/// In-process DPCS registry document.
#[derive(Debug)]
pub struct Registry {
    /// Stable registry identifier.
    pub id: String,
    /// Registry version.
    pub version: String,
    /// Supported DPCS specification version.
    pub dpcs_version: String,
    /// Ownership / governing authority.
    pub owner: String,
    /// Publication metadata.
    pub publication_status: Option<String>,
    /// Optional published-at timestamp.
    pub published_at: Option<String>,
    /// Optional governance block.
    pub governance: Option<GovernanceMetadata>,
    /// Optional security block.
    pub security: Option<SecurityMetadata>,
    /// Registered artifacts.
    pub artifacts: Vec<RegisteredArtifact>,
    /// Extension fields.
    pub extensions: ExtensionMap,
}

/// A single registered artifact entry.
#[derive(Debug)]
pub struct RegisteredArtifact {
    /// Unique artifact identifier within the registry.
    pub id: String,
    /// Artifact type (for example `pipelineContract` or `capabilityProfile`).
    pub artifact_type: String,
    /// Artifact version.
    pub version: String,
    /// Optional compatibility metadata summary.
    pub compatibility: Option<String>,
    /// Publication status.
    pub publication_status: Option<String>,
    /// Optional location / payload reference.
    pub location: Option<String>,
    /// Extension fields.
    pub extensions: ExtensionMap,
}

/// Two artifact entries hold the same fields and the same extension entries.
pub open spec fn same_artifact(a: RegisteredArtifact, b: RegisteredArtifact) -> bool {
    &&& a.id == b.id
    &&& a.artifact_type == b.artifact_type
    &&& a.version == b.version
    &&& a.compatibility == b.compatibility
    &&& a.publication_status == b.publication_status
    &&& a.location == b.location
    &&& a.extensions.entries@ == b.extensions.entries@
}

impl Clone for RegisteredArtifact {
    fn clone(&self) -> (r: Self)
        ensures
            same_artifact(r, *self),
    {
        RegisteredArtifact {
            id: self.id.clone(),
            artifact_type: self.artifact_type.clone(),
            version: self.version.clone(),
            compatibility: clone_opt(&self.compatibility),
            publication_status: clone_opt(&self.publication_status),
            location: clone_opt(&self.location),
            extensions: self.extensions.clone(),
        }
    }
}

/// Publication lifecycle states: `draft`, `published`, `deprecated`,
/// `retired` (ASCII case-insensitive).
pub open spec fn known_publication_status(s: Seq<char>) -> bool {
    ||| eq_ignore_case(s, "draft"@)
    ||| eq_ignore_case(s, "published"@)
    ||| eq_ignore_case(s, "deprecated"@)
    ||| eq_ignore_case(s, "retired"@)
}

/// Returns whether `status` is a recognized publication lifecycle state.
pub fn is_known_publication_status(status: &str) -> (r: bool)
    ensures
        r == known_publication_status(status@),
{
    let s = chars_of(status);
    eq_ignore_case_chars(&s, &chars_of("draft")) || eq_ignore_case_chars(&s, &chars_of("published"))
        || eq_ignore_case_chars(&s, &chars_of("deprecated")) || eq_ignore_case_chars(&s, &chars_of("retired"))
}

/// Model of a registry finding.
pub open spec fn registry_view(id: Seq<char>, severity: Severity, message: Seq<char>, object_ref: Seq<char>) -> DiagnosticView {
    DiagnosticView {
        object_ref: Some(object_ref),
        ..Diagnostic::fresh(id, severity, DiagnosticStage::Validation, "registry"@, message)
    }
}

fn registry_diag(id: &str, severity: Severity, message: String, object_ref: String) -> (r: Diagnostic)
    ensures
        r@ == registry_view(id@, severity, message@, object_ref@),
{
    proof { reveal_strlit("registry"); }
    Diagnostic::new(id, severity, DiagnosticStage::Validation, categories::REGISTRY, message).with_object_ref(object_ref)
}

/// Text is empty after trimming white space.
pub open spec fn blank(s: Seq<char>) -> bool {
    trim(s).len() == 0
}

/// Findings on the registry header: id, version, DPCS version, owner, and
/// publication status.
pub open spec fn header_findings(r: Registry) -> Seq<DiagnosticView> {
    (if blank(r.id@) {
        seq![registry_view("DPCS-REG-001"@, Severity::Error, "registry id must not be empty"@, "id"@)]
    } else {
        Seq::empty()
    })
    + (if blank(r.version@) {
        seq![registry_view("DPCS-REG-002"@, Severity::Error, "registry version must not be empty"@, "version"@)]
    } else if parse_version_spec(r.version@) is Err {
        seq![registry_view("DPCS-REG-003"@, Severity::Error, "registry version `"@ + r.version@ + "` is not SemVer-compatible"@, "version"@)]
    } else {
        Seq::empty()
    })
    + (if blank(r.dpcs_version@) {
        seq![registry_view("DPCS-REG-004"@, Severity::Error, "registry must declare dpcsVersion"@, "dpcsVersion"@)]
    } else if parse_version_spec(r.dpcs_version@) is Err {
        seq![registry_view("DPCS-REG-005"@, Severity::Error, "registry dpcsVersion `"@ + r.dpcs_version@ + "` is not SemVer-compatible"@, "dpcsVersion"@)]
    } else if r.dpcs_version@ != "1.0.0-draft"@ && !starts_with(r.dpcs_version@, "1."@) {
        seq![registry_view("DPCS-REG-006"@, Severity::Warning, "registry dpcsVersion `"@ + r.dpcs_version@ + "` may not be supported"@, "dpcsVersion"@)]
    } else {
        Seq::empty()
    })
    + (if blank(r.owner@) {
        seq![registry_view("DPCS-REG-007"@, Severity::Error, "registry must declare an owner"@, "owner"@)]
    } else {
        Seq::empty()
    })
    + match r.publication_status {
        Some(s) => if blank(s@) {
            seq![registry_view("DPCS-REG-015"@, Severity::Error, "registry publicationStatus must not be empty when declared"@, "publicationStatus"@)]
        } else if !known_publication_status(s@) {
            seq![registry_view("DPCS-REG-008"@, Severity::Warning, "registry publicationStatus `"@ + s@ + "` is not recognized"@, "publicationStatus"@)]
        } else {
            Seq::empty()
        },
        None => Seq::empty(),
    }
}

/// Index of the first artifact before `n` with a non-blank id and the given
/// id and version.
pub open spec fn first_declared(a: Seq<RegisteredArtifact>, id: Seq<char>, version: Seq<char>, n: int) -> Option<int>
    decreases n,
{
    if n <= 0 {
        None
    } else {
        match first_declared(a, id, version, n - 1) {
            Some(k) => Some(k),
            None => if !blank(a[n - 1].id@) && a[n - 1].id@ == id && a[n - 1].version@ == version {
                Some(n - 1)
            } else {
                None
            },
        }
    }
}

/// `artifacts[i]`.
pub open spec fn artifact_ref(i: int) -> Seq<char> {
    "artifacts["@ + decimal(i as nat) + "]"@
}

/// Findings on artifact `i`: a blank id stops further checks; otherwise type,
/// version, publication status, and duplicate id/version pairs.
pub open spec fn artifact_findings_at(a: Seq<RegisteredArtifact>, i: int) -> Seq<DiagnosticView> {
    let x = a[i];
    let at = artifact_ref(i);
    if blank(x.id@) {
        seq![registry_view("DPCS-REG-009"@, Severity::Error, "registered artifact id must not be empty"@, at + ".id"@)]
    } else {
        (if blank(x.artifact_type@) {
            seq![registry_view("DPCS-REG-010"@, Severity::Error, "registered artifact type must not be empty"@, at + ".type"@)]
        } else {
            Seq::empty()
        })
        + (if blank(x.version@) {
            seq![registry_view("DPCS-REG-011"@, Severity::Error, "registered artifact version must not be empty"@, at + ".version"@)]
        } else if parse_version_spec(x.version@) is Err {
            seq![registry_view("DPCS-REG-012"@, Severity::Error, "registered artifact version `"@ + x.version@ + "` is not SemVer-compatible"@, at + ".version"@)]
        } else {
            Seq::empty()
        })
        + match x.publication_status {
            Some(s) => if !known_publication_status(s@) {
                seq![registry_view("DPCS-REG-013"@, Severity::Warning, "artifact publicationStatus `"@ + s@ + "` is not recognized"@, at + ".publicationStatus"@)]
            } else {
                Seq::empty()
            },
            None => Seq::empty(),
        }
        + match first_declared(a, x.id@, x.version@, i) {
            Some(f) => seq![DiagnosticView {
                remediation: Some("Artifact was first declared at "@ + artifact_ref(f)),
                ..registry_view("DPCS-REG-014"@, Severity::Error, "duplicate registered artifact `"@ + x.id@ + "@"@ + x.version@ + "`"@, at)
            }],
            None => Seq::empty(),
        }
    }
}

/// Findings on the first `n` artifacts.
pub open spec fn artifact_findings(a: Seq<RegisteredArtifact>, n: int) -> Seq<DiagnosticView>
    decreases n,
{
    if n <= 0 {
        Seq::empty()
    } else {
        artifact_findings(a, n - 1) + artifact_findings_at(a, n - 1)
    }
}

/// Every finding on a registry document, unsorted.
pub open spec fn registry_findings(r: Registry) -> Seq<DiagnosticView> {
    header_findings(r) + artifact_findings(r.artifacts@, r.artifacts@.len() as int)
}

fn artifact_ref_exec(i: usize) -> (r: String)
    ensures
        r@ == artifact_ref(i as int),
{
    let n = usize_string(i);
    concat3("artifacts[", n.as_str(), "]")
}

fn header_checks(r: &Registry) -> (out: Vec<Diagnostic>)
    ensures
        diag_views(out@) == header_findings(*r),
{
    let mut out: Vec<Diagnostic> = Vec::new();
    if is_blank(r.id.as_str()) {
        out.push(registry_diag("DPCS-REG-001", Severity::Error, owned("registry id must not be empty"), owned("id")));
    }
    let ghost s1 = diag_views(out@);
    if !is_present_version(r.version.as_str()) {
        out.push(registry_diag("DPCS-REG-002", Severity::Error, owned("registry version must not be empty"), owned("version")));
    } else if !is_valid_version(r.version.as_str()) {
        out.push(registry_diag("DPCS-REG-003", Severity::Error,
            concat3("registry version `", r.version.as_str(), "` is not SemVer-compatible"), owned("version")));
    }
    let ghost s2 = diag_views(out@);
    if is_blank(r.dpcs_version.as_str()) {
        out.push(registry_diag("DPCS-REG-004", Severity::Error, owned("registry must declare dpcsVersion"), owned("dpcsVersion")));
    } else if !is_valid_version(r.dpcs_version.as_str()) {
        out.push(registry_diag("DPCS-REG-005", Severity::Error,
            concat3("registry dpcsVersion `", r.dpcs_version.as_str(), "` is not SemVer-compatible"), owned("dpcsVersion")));
    } else if !str_eq(r.dpcs_version.as_str(), crate::DPCS_SPEC_VERSION)
        && !crate::text::starts_with_chars(&chars_of(r.dpcs_version.as_str()), &chars_of("1.")) {
        out.push(registry_diag("DPCS-REG-006", Severity::Warning,
            concat3("registry dpcsVersion `", r.dpcs_version.as_str(), "` may not be supported"), owned("dpcsVersion")));
    }
    let ghost s3 = diag_views(out@);
    if is_blank(r.owner.as_str()) {
        out.push(registry_diag("DPCS-REG-007", Severity::Error, owned("registry must declare an owner"), owned("owner")));
    }
    let ghost s4 = diag_views(out@);
    match &r.publication_status {
        Some(s) => {
            if is_blank(s.as_str()) {
                out.push(registry_diag("DPCS-REG-015", Severity::Error,
                    owned("registry publicationStatus must not be empty when declared"), owned("publicationStatus")));
            } else if !is_known_publication_status(s.as_str()) {
                out.push(registry_diag("DPCS-REG-008", Severity::Warning,
                    concat3("registry publicationStatus `", s.as_str(), "` is not recognized"), owned("publicationStatus")));
            }
        },
        None => {},
    }
    proof {
        reveal_strlit("1.0.0-draft");
        reveal_strlit("1.");
        assert(diag_views(out@) =~= header_findings(*r));
    }
    out
}

fn find_first_declared(a: &Vec<RegisteredArtifact>, id: &str, version: &str, n: usize) -> (r: Option<usize>)
    requires
        n <= a@.len(),
    ensures
        match r {
            Some(k) => first_declared(a@, id@, version@, n as int) == Some(k as int),
            None => first_declared(a@, id@, version@, n as int) is None,
        },
{
    let mut k: usize = 0;
    while k < n
        invariant
            k <= n <= a@.len(),
            first_declared(a@, id@, version@, k as int) is None,
        decreases n - k,
    {
        let x = &a[k];
        if !is_blank(x.id.as_str()) && str_eq(x.id.as_str(), id) && str_eq(x.version.as_str(), version) {
            proof { lemma_first_declared_stable(a@, id@, version@, k as int + 1, n as int); }
            return Some(k);
        }
        k += 1;
    }
    None
}

proof fn lemma_first_declared_stable(a: Seq<RegisteredArtifact>, id: Seq<char>, version: Seq<char>, m: int, n: int)
    requires
        0 <= m <= n,
        first_declared(a, id, version, m) is Some,
    ensures
        first_declared(a, id, version, n) == first_declared(a, id, version, m),
    decreases n - m,
{
    if n > m {
        lemma_first_declared_stable(a, id, version, m, n - 1);
    }
}

fn artifact_checks(a: &Vec<RegisteredArtifact>, i: usize) -> (out: Vec<Diagnostic>)
    requires
        i < a@.len(),
    ensures
        diag_views(out@) == artifact_findings_at(a@, i as int),
{
    let x = &a[i];
    let at = artifact_ref_exec(i);
    let mut out: Vec<Diagnostic> = Vec::new();
    if is_blank(x.id.as_str()) {
        out.push(registry_diag("DPCS-REG-009", Severity::Error, owned("registered artifact id must not be empty"),
            concat3(at.as_str(), ".id", "")));
        proof {
            reveal_strlit("");
            assert(diag_views(out@) =~= artifact_findings_at(a@, i as int));
        }
        return out;
    }
    if is_blank(x.artifact_type.as_str()) {
        out.push(registry_diag("DPCS-REG-010", Severity::Error, owned("registered artifact type must not be empty"),
            concat3(at.as_str(), ".type", "")));
    }
    if !is_present_version(x.version.as_str()) {
        out.push(registry_diag("DPCS-REG-011", Severity::Error, owned("registered artifact version must not be empty"),
            concat3(at.as_str(), ".version", "")));
    } else if !is_valid_version(x.version.as_str()) {
        out.push(registry_diag("DPCS-REG-012", Severity::Error,
            concat3("registered artifact version `", x.version.as_str(), "` is not SemVer-compatible"), concat3(at.as_str(), ".version", "")));
    }
    match &x.publication_status {
        Some(s) => {
            if !is_known_publication_status(s.as_str()) {
                out.push(registry_diag("DPCS-REG-013", Severity::Warning,
                    concat3("artifact publicationStatus `", s.as_str(), "` is not recognized"), concat3(at.as_str(), ".publicationStatus", "")));
            }
        },
        None => {},
    }
    match find_first_declared(a, x.id.as_str(), x.version.as_str(), i) {
        Some(f) => {
            let mut message = concat3("duplicate registered artifact `", x.id.as_str(), "@");
            push_str(&mut message, x.version.as_str());
            push_str(&mut message, "`");
            let first = artifact_ref_exec(f);
            let d = registry_diag("DPCS-REG-014", Severity::Error, message, at).with_remediation(
                concat3("Artifact was first declared at ", first.as_str(), ""));
            out.push(d);
        },
        None => {},
    }
    proof {
        reveal_strlit("");
        assert(diag_views(out@) =~= artifact_findings_at(a@, i as int));
    }
    out
}

/// Validate a registry document.
///
/// The report holds, in deterministic order, every finding on the header and
/// on each registered artifact.
pub fn validate_registry(registry: &Registry) -> (r: ValidationReport)
    ensures
        r@ == sort_diagnostics(registry_findings(*registry)),
{
    let mut out = header_checks(registry);
    let ghost head = diag_views(out@);
    let mut i: usize = 0;
    while i < registry.artifacts.len()
        invariant
            i <= registry.artifacts@.len(),
            diag_views(out@) == head + artifact_findings(registry.artifacts@, i as int),
        decreases registry.artifacts.len() - i,
    {
        let mut more = artifact_checks(&registry.artifacts, i);
        let ghost m = diag_views(more@);
        let ghost before = out@;
        out.append(&mut more);
        assert(diag_views(out@) =~= diag_views(before) + m);
        i += 1;
    }
    let mut report = ValidationReport { diagnostics: out };
    assert(report@ =~= registry_findings(*registry));
    report.sort_deterministic();
    report
}

proof fn lemma_first_declared_found(a: Seq<RegisteredArtifact>, k: int, n: int)
    requires
        0 <= k < n <= a.len(),
        !blank(a[k].id@),
    ensures
        first_declared(a, a[k].id@, a[k].version@, n) is Some,
    decreases n,
{
    if n - 1 > k {
        lemma_first_declared_found(a, k, n - 1);
    }
}

proof fn lemma_artifact_findings_include(a: Seq<RegisteredArtifact>, k: int, n: int)
    requires
        0 <= k < n <= a.len(),
    ensures
        forall|e: DiagnosticView| #[trigger] artifact_findings_at(a, k).contains(e) ==> artifact_findings(a, n).contains(e),
    decreases n,
{
    if n - 1 > k {
        lemma_artifact_findings_include(a, k, n - 1);
    }
    assert forall|e: DiagnosticView| #[trigger] artifact_findings_at(a, k).contains(e) implies artifact_findings(a, n).contains(e) by {
        let p = artifact_findings(a, n - 1);
        let q = artifact_findings_at(a, n - 1);
        if n - 1 > k {
            let m = choose|m: int| 0 <= m < p.len() && p[m] == e;
            assert((p + q)[m] == e);
        } else {
            let m = choose|m: int| 0 <= m < q.len() && q[m] == e;
            assert((p + q)[p.len() + m] == e);
        }
    }
}

/// Registered artifacts must have unique id/version pairs: a registry that
/// declares the same (non-blank) id and version twice does not validate.
pub proof fn law_duplicate_artifacts_invalidate(r: Registry, i: int, j: int)
    requires
        0 <= i < j < r.artifacts@.len(),
        !blank(r.artifacts@[i].id@),
        r.artifacts@[i].id@ == r.artifacts@[j].id@,
        r.artifacts@[i].version@ == r.artifacts@[j].version@,
    ensures
        !no_errors(sort_diagnostics(registry_findings(r))),
{
    let a = r.artifacts@;
    lemma_first_declared_found(a, i, j);
    let d = artifact_findings_at(a, j);
    let e = d.last();
    assert(d.contains(e));
    assert(e.severity == Severity::Error);
    lemma_artifact_findings_include(a, j, a.len() as int);
    let all = registry_findings(r);
    let h = header_findings(r);
    let m = choose|m: int| 0 <= m < artifact_findings(a, a.len() as int).len() && artifact_findings(a, a.len() as int)[m] == e;
    assert(all[h.len() + m] == e);
    lemma_sort_no_errors(all);
}

/// A version field that validation accepts: present and SemVer-compatible.
pub open spec fn version_accepted(v: Seq<char>) -> bool {
    !blank(v) && parse_version_spec(v) is Ok
}

/// A registered artifact that passes its own checks: non-blank id and type,
/// and an accepted version.
pub open spec fn artifact_accepted(x: RegisteredArtifact) -> bool {
    !blank(x.id@) && !blank(x.artifact_type@) && version_accepted(x.version@)
}

/// The first `n` artifacts each pass their own checks and no two of them
/// share an id/version pair.
pub open spec fn artifacts_accepted(a: Seq<RegisteredArtifact>, n: int) -> bool {
    &&& forall|i: int| 0 <= i < n ==> artifact_accepted(#[trigger] a[i])
    &&& forall|i: int, j: int| 0 <= i < j < n ==> !(#[trigger] a[i].id@ == #[trigger] a[j].id@ && a[i].version@ == a[j].version@)
}

/// A registry that validation accepts: non-blank id and owner, accepted
/// version and DPCS version, a non-blank publication status where one is
/// declared, and accepted artifacts with distinct id/version pairs.
pub open spec fn registry_accepted(r: Registry) -> bool {
    &&& !blank(r.id@)
    &&& version_accepted(r.version@)
    &&& version_accepted(r.dpcs_version@)
    &&& !blank(r.owner@)
    &&& (r.publication_status matches Some(s) ==> !blank(s@))
    &&& artifacts_accepted(r.artifacts@, r.artifacts@.len() as int)
}

proof fn lemma_first_declared_none(a: Seq<RegisteredArtifact>, id: Seq<char>, version: Seq<char>, n: int)
    requires
        0 <= n <= a.len(),
    ensures
        (first_declared(a, id, version, n) is None) == (forall|i: int| 0 <= i < n ==> !(!blank(#[trigger] a[i].id@) && a[i].id@ == id && a[i].version@ == version)),
    decreases n,
{
    if n > 0 {
        lemma_first_declared_none(a, id, version, n - 1);
    }
}

proof fn lemma_header_no_errors(r: Registry)
    ensures
        no_errors(header_findings(r)) == (!blank(r.id@) && version_accepted(r.version@) && version_accepted(r.dpcs_version@)
            && !blank(r.owner@) && (r.publication_status matches Some(s) ==> !blank(s@))),
{
    let e: Seq<DiagnosticView> = Seq::empty();
    let a = if blank(r.id@) {
        seq![registry_view("DPCS-REG-001"@, Severity::Error, "registry id must not be empty"@, "id"@)]
    } else {
        e
    };
    let b = if blank(r.version@) {
        seq![registry_view("DPCS-REG-002"@, Severity::Error, "registry version must not be empty"@, "version"@)]
    } else if parse_version_spec(r.version@) is Err {
        seq![registry_view("DPCS-REG-003"@, Severity::Error, "registry version `"@ + r.version@ + "` is not SemVer-compatible"@, "version"@)]
    } else {
        e
    };
    let c = if blank(r.dpcs_version@) {
        seq![registry_view("DPCS-REG-004"@, Severity::Error, "registry must declare dpcsVersion"@, "dpcsVersion"@)]
    } else if parse_version_spec(r.dpcs_version@) is Err {
        seq![registry_view("DPCS-REG-005"@, Severity::Error, "registry dpcsVersion `"@ + r.dpcs_version@ + "` is not SemVer-compatible"@, "dpcsVersion"@)]
    } else if r.dpcs_version@ != "1.0.0-draft"@ && !starts_with(r.dpcs_version@, "1."@) {
        seq![registry_view("DPCS-REG-006"@, Severity::Warning, "registry dpcsVersion `"@ + r.dpcs_version@ + "` may not be supported"@, "dpcsVersion"@)]
    } else {
        e
    };
    let d = if blank(r.owner@) {
        seq![registry_view("DPCS-REG-007"@, Severity::Error, "registry must declare an owner"@, "owner"@)]
    } else {
        e
    };
    let f = match r.publication_status {
        Some(s) => if blank(s@) {
            seq![registry_view("DPCS-REG-015"@, Severity::Error, "registry publicationStatus must not be empty when declared"@, "publicationStatus"@)]
        } else if !known_publication_status(s@) {
            seq![registry_view("DPCS-REG-008"@, Severity::Warning, "registry publicationStatus `"@ + s@ + "` is not recognized"@, "publicationStatus"@)]
        } else {
            e
        },
        None => e,
    };
    assert(header_findings(r) == a + b + c + d + f);
    assert(no_errors(a) == !blank(r.id@)) by {
        if blank(r.id@) { assert(a[0].severity == Severity::Error); }
    }
    assert(no_errors(b) == version_accepted(r.version@)) by {
        if !version_accepted(r.version@) { assert(b[0].severity == Severity::Error); }
    }
    assert(no_errors(c) == version_accepted(r.dpcs_version@)) by {
        if !version_accepted(r.dpcs_version@) { assert(c[0].severity == Severity::Error); }
    }
    assert(no_errors(d) == !blank(r.owner@)) by {
        if blank(r.owner@) { assert(d[0].severity == Severity::Error); }
    }
    assert(no_errors(f) == (r.publication_status matches Some(s) ==> !blank(s@))) by {
        if let Some(s) = r.publication_status {
            if blank(s@) { assert(f[0].severity == Severity::Error); }
        }
    }
    lemma_no_errors_concat(a, b);
    lemma_no_errors_concat(a + b, c);
    lemma_no_errors_concat(a + b + c, d);
    lemma_no_errors_concat(a + b + c + d, f);
}

proof fn lemma_artifact_no_errors(a: Seq<RegisteredArtifact>, k: int)
    requires
        0 <= k < a.len(),
    ensures
        no_errors(artifact_findings_at(a, k)) == (artifact_accepted(a[k])
            && first_declared(a, a[k].id@, a[k].version@, k) is None),
{
    let x = a[k];
    let at = artifact_ref(k);
    if blank(x.id@) {
        assert(artifact_findings_at(a, k)[0].severity == Severity::Error);
    } else {
        let e: Seq<DiagnosticView> = Seq::empty();
        let p1 = if blank(x.artifact_type@) {
            seq![registry_view("DPCS-REG-010"@, Severity::Error, "registered artifact type must not be empty"@, at + ".type"@)]
        } else {
            e
        };
        let p2 = if blank(x.version@) {
            seq![registry_view("DPCS-REG-011"@, Severity::Error, "registered artifact version must not be empty"@, at + ".version"@)]
        } else if parse_version_spec(x.version@) is Err {
            seq![registry_view("DPCS-REG-012"@, Severity::Error, "registered artifact version `"@ + x.version@ + "` is not SemVer-compatible"@, at + ".version"@)]
        } else {
            e
        };
        let p3 = match x.publication_status {
            Some(s) => if !known_publication_status(s@) {
                seq![registry_view("DPCS-REG-013"@, Severity::Warning, "artifact publicationStatus `"@ + s@ + "` is not recognized"@, at + ".publicationStatus"@)]
            } else {
                e
            },
            None => e,
        };
        let p4 = match first_declared(a, x.id@, x.version@, k) {
            Some(f) => seq![DiagnosticView {
                remediation: Some("Artifact was first declared at "@ + artifact_ref(f)),
                ..registry_view("DPCS-REG-014"@, Severity::Error, "duplicate registered artifact `"@ + x.id@ + "@"@ + x.version@ + "`"@, at)
            }],
            None => e,
        };
        assert(artifact_findings_at(a, k) == p1 + p2 + p3 + p4);
        assert(no_errors(p1) == !blank(x.artifact_type@)) by {
            if blank(x.artifact_type@) { assert(p1[0].severity == Severity::Error); }
        }
        assert(no_errors(p2) == version_accepted(x.version@)) by {
            if !version_accepted(x.version@) { assert(p2[0].severity == Severity::Error); }
        }
        assert(no_errors(p3));
        assert(no_errors(p4) == first_declared(a, x.id@, x.version@, k) is None) by {
            if first_declared(a, x.id@, x.version@, k) is Some { assert(p4[0].severity == Severity::Error); }
        }
        lemma_no_errors_concat(p1, p2);
        lemma_no_errors_concat(p1 + p2, p3);
        lemma_no_errors_concat(p1 + p2 + p3, p4);
    }
}

proof fn lemma_artifacts_no_errors(a: Seq<RegisteredArtifact>, n: int)
    requires
        0 <= n <= a.len(),
    ensures
        no_errors(artifact_findings(a, n)) == artifacts_accepted(a, n),
    decreases n,
{
    if n > 0 {
        let k = n - 1;
        lemma_artifacts_no_errors(a, k);
        lemma_artifact_no_errors(a, k);
        lemma_no_errors_concat(artifact_findings(a, k), artifact_findings_at(a, k));
        lemma_first_declared_none(a, a[k].id@, a[k].version@, k);
        if artifacts_accepted(a, n) {
            assert(artifacts_accepted(a, k));
            assert forall|i: int| 0 <= i < k implies !(!blank(#[trigger] a[i].id@) && a[i].id@ == a[k].id@ && a[i].version@ == a[k].version@) by {
                assert(!(a[i].id@ == a[k].id@ && a[i].version@ == a[k].version@));
            }
        }
        if no_errors(artifact_findings(a, n)) {
            assert forall|i: int, j: int| 0 <= i < j < n implies !(#[trigger] a[i].id@ == #[trigger] a[j].id@ && a[i].version@ == a[j].version@) by {
                if j == k {
                    assert(artifact_accepted(a[i]));
                }
            }
        }
    }
}

/// A registry validates exactly when its id and owner are not blank, its
/// version and DPCS version are present and SemVer-compatible, a declared
/// publication status is not blank, every artifact has a non-blank id and
/// type and a valid version, and no two artifacts share an id/version pair.
/// (An unsupported DPCS major version or an unknown publication status is
/// only a warning.)
pub proof fn law_registry_validity(r: Registry)
    ensures
        no_errors(sort_diagnostics(registry_findings(r))) == registry_accepted(r),
{
    lemma_sort_no_errors(registry_findings(r));
    lemma_header_no_errors(r);
    lemma_artifacts_no_errors(r.artifacts@, r.artifacts@.len() as int);
    lemma_no_errors_concat(header_findings(r), artifact_findings(r.artifacts@, r.artifacts@.len() as int));
}

/// Invalid-document error for a registry document that failed to parse
/// (`DPCS-PARSE-002`).
pub fn registry_parse_error(message: String) -> (r: crate::error::Error)
    ensures
        r matches crate::error::Error::InvalidDocument { report } && report@ == seq![DiagnosticView {
            remediation: Some("Provide id, version, dpcsVersion, owner, and artifacts[] with unique id+version"@),
            ..Diagnostic::fresh("DPCS-PARSE-002"@, Severity::Error, DiagnosticStage::Parse, "syntax"@,
                "invalid registry document: "@ + message@)
        }],
{
    let mut text = owned("invalid registry document: ");
    push_str(&mut text, message.as_str());
    let d = Diagnostic::parse_error("DPCS-PARSE-002", text)
        .with_remediation(owned("Provide id, version, dpcsVersion, owner, and artifacts[] with unique id+version"));
    let ghost dv = d@;
    let mut report = ValidationReport::new();
    report.push(d);
    assert(report@ =~= seq![dv]);
    crate::error::Error::InvalidDocument { report }
}

} // verus!
