//! Package validation: manifest fields, artifact entries and artifact files.
//!
//! Opening a package and looking at its files is I/O; the caller does it and
//! hands in, for each artifact entry, what it found on disk. Everything that
//! is decided from those observations is here.
use vstd::prelude::*;

use super::{PackageArtifactEntry, PackageLayout, PackageManifest};
use crate::diagnostics::report::{diag_views, lemma_no_errors_concat, no_errors};
use crate::diagnostics::{categories, owned, Diagnostic, DiagnosticStage, DiagnosticView, Severity, ValidationReport};
use crate::error::Error;
use crate::model::versioning::{is_valid_version, parse_version_spec};
use crate::paths::{is_safe_relative, safe_relative};
use crate::text::{concat3, decimal, is_blank, push_str, str_eq, trim, usize_string};

verus! {

/// What the file system showed for one artifact entry whose path is a safe
/// relative path.
#[derive(Debug)]
pub enum ArtifactFileProbe {
    /// Joining the path under the package root was refused; the text says why.
    Escapes(String),
    /// The path is a symbolic link.
    Symlink,
    /// The path is a regular file.
    File,
    /// The path does not exist, cannot be read, or is not a regular file.
    Missing,
}

/// Model of a package finding: an error of category `package`.
pub open spec fn package_view(id: Seq<char>, message: Seq<char>, object_ref: Seq<char>) -> DiagnosticView {
    DiagnosticView {
        object_ref: Some(object_ref),
        ..Diagnostic::fresh(id, Severity::Error, DiagnosticStage::Validation, "package"@, message)
    }
}

fn package_diag(id: &str, message: String, object_ref: String) -> (r: Diagnostic)
    ensures
        r@ == package_view(id@, message@, object_ref@),
{
    proof { reveal_strlit("package"); }
    Diagnostic::error(id, categories::PACKAGE, message).with_object_ref(object_ref)
}

/// Findings on the manifest header: id, version and DPCS version.
pub open spec fn manifest_findings(m: PackageManifest) -> Seq<DiagnosticView> {
    (if trim(m.id@).len() == 0 {
        seq![package_view("DPCS-PKG-007"@, "package id must be non-empty"@, "id"@)]
    } else {
        Seq::empty()
    })
    + (if parse_version_spec(m.version@) is Err {
        seq![package_view("DPCS-PKG-008"@, "invalid package version `"@ + m.version@ + "`"@, "version"@)]
    } else {
        Seq::empty()
    })
    + (if trim(m.dpcs_version@).len() == 0 {
        seq![package_view("DPCS-PKG-009"@, "package dpcsVersion must be non-empty"@, "dpcsVersion"@)]
    } else {
        Seq::empty()
    })
}

/// The key under which duplicate entries are detected: `id@version`.
pub open spec fn entry_key(e: PackageArtifactEntry) -> Seq<char> {
    e.id@ + "@"@ + e.version@
}

/// Some entry before `n` has key `key`.
pub open spec fn key_seen(a: Seq<PackageArtifactEntry>, key: Seq<char>, n: int) -> bool
    decreases n,
{
    if n <= 0 {
        false
    } else {
        key_seen(a, key, n - 1) || entry_key(a[n - 1]) == key
    }
}

/// `artifacts[i]`.
pub open spec fn entry_ref(i: int) -> Seq<char> {
    "artifacts["@ + decimal(i as nat) + "]"@
}

/// Findings on entry `i` from its own fields: a repeated key, a blank id, an
/// invalid version.
pub open spec fn entry_field_findings(a: Seq<PackageArtifactEntry>, i: int) -> Seq<DiagnosticView> {
    let x = a[i];
    let at = entry_ref(i);
    (if key_seen(a, entry_key(x), i) {
        seq![package_view("DPCS-PKG-002"@, "duplicate artifact id/version `"@ + entry_key(x) + "`"@, at)]
    } else {
        Seq::empty()
    })
    + (if trim(x.id@).len() == 0 {
        seq![package_view("DPCS-PKG-003"@, "artifact id must be non-empty"@, at + ".id"@)]
    } else {
        Seq::empty()
    })
    + (if parse_version_spec(x.version@) is Err {
        seq![package_view("DPCS-PKG-004"@, "invalid artifact version `"@ + x.version@ + "`"@, at + ".version"@)]
    } else {
        Seq::empty()
    })
}

/// Findings on entry `i` from its path: an unsafe path is reported and not
/// looked up; a safe one is judged by what the file system showed.
pub open spec fn entry_path_findings(x: PackageArtifactEntry, probe: ArtifactFileProbe, i: int) -> Seq<DiagnosticView> {
    let at = entry_ref(i) + ".path"@;
    if !safe_relative(x.path@) {
        seq![DiagnosticView {
            remediation: Some("Use a relative path without '..'"@),
            ..package_view("DPCS-PKG-005"@, "unsafe or absolute artifact path `"@ + x.path@ + "`"@, at)
        }]
    } else {
        match probe {
            ArtifactFileProbe::Escapes(e) => seq![package_view("DPCS-PKG-005"@,
                "artifact path escapes package root `"@ + x.path@ + "`: "@ + e@, at)],
            ArtifactFileProbe::Symlink => seq![package_view("DPCS-PKG-010"@,
                "artifact path must not be a symlink: "@ + x.path@, at)],
            ArtifactFileProbe::File => Seq::empty(),
            ArtifactFileProbe::Missing => seq![package_view("DPCS-PKG-006"@,
                "artifact file missing: "@ + x.path@, at)],
        }
    }
}

/// Findings on the first `n` entries, in order.
pub open spec fn entries_findings(a: Seq<PackageArtifactEntry>, probes: Seq<ArtifactFileProbe>, n: int) -> Seq<DiagnosticView>
    decreases n,
{
    if n <= 0 {
        Seq::empty()
    } else {
        entries_findings(a, probes, n - 1) + entry_field_findings(a, n - 1)
            + entry_path_findings(a[n - 1], probes[n - 1], n - 1)
    }
}

/// Every finding on a package, in the order they are found: a package that
/// could not be opened gives one finding; otherwise the manifest header, then
/// each artifact entry.
pub open spec fn package_findings(opened: Result<PackageLayout, Error>, probes: Seq<ArtifactFileProbe>) -> Seq<DiagnosticView> {
    match opened {
        Err(e) => seq![DiagnosticView {
            remediation: Some("Ensure manifest.yaml exists and is well-formed"@),
            ..Diagnostic::fresh("DPCS-PKG-001"@, Severity::Error, DiagnosticStage::Validation, "package"@,
                "failed to open package: "@ + e.text())
        }],
        Ok(layout) => manifest_findings(layout.manifest)
            + entries_findings(layout.manifest.artifacts@, probes, layout.manifest.artifacts@.len() as int),
    }
}

fn manifest_checks(m: &PackageManifest) -> (out: Vec<Diagnostic>)
    ensures
        diag_views(out@) == manifest_findings(*m),
{
    let mut out: Vec<Diagnostic> = Vec::new();
    if is_blank(m.id.as_str()) {
        out.push(package_diag("DPCS-PKG-007", owned("package id must be non-empty"), owned("id")));
    }
    if !is_valid_version(m.version.as_str()) {
        out.push(package_diag("DPCS-PKG-008", concat3("invalid package version `", m.version.as_str(), "`"),
            owned("version")));
    }
    if is_blank(m.dpcs_version.as_str()) {
        out.push(package_diag("DPCS-PKG-009", owned("package dpcsVersion must be non-empty"), owned("dpcsVersion")));
    }
    proof { assert(diag_views(out@) =~= manifest_findings(*m)); }
    out
}

fn entry_key_exec(e: &PackageArtifactEntry) -> (r: String)
    ensures
        r@ == entry_key(*e),
{
    concat3(e.id.as_str(), "@", e.version.as_str())
}

fn key_seen_exec(a: &Vec<PackageArtifactEntry>, key: &str, n: usize) -> (r: bool)
    requires
        n <= a@.len(),
    ensures
        r == key_seen(a@, key@, n as int),
{
    let mut k: usize = 0;
    while k < n
        invariant
            k <= n <= a@.len(),
            !key_seen(a@, key@, k as int),
        decreases n - k,
    {
        let kk = entry_key_exec(&a[k]);
        if str_eq(kk.as_str(), key) {
            proof { lemma_key_seen_stable(a@, key@, k as int + 1, n as int); }
            return true;
        }
        k += 1;
    }
    false
}

proof fn lemma_key_seen_stable(a: Seq<PackageArtifactEntry>, key: Seq<char>, m: int, n: int)
    requires
        0 <= m <= n,
        key_seen(a, key, m),
    ensures
        key_seen(a, key, n),
    decreases n - m,
{
    if n > m {
        lemma_key_seen_stable(a, key, m, n - 1);
    }
}

fn entry_ref_exec(i: usize) -> (r: String)
    ensures
        r@ == entry_ref(i as int),
{
    let n = usize_string(i);
    concat3("artifacts[", n.as_str(), "]")
}

fn entry_field_checks(a: &Vec<PackageArtifactEntry>, i: usize) -> (out: Vec<Diagnostic>)
    requires
        i < a@.len(),
    ensures
        diag_views(out@) == entry_field_findings(a@, i as int),
{
    let x = &a[i];
    let at = entry_ref_exec(i);
    let key = entry_key_exec(x);
    let mut out: Vec<Diagnostic> = Vec::new();
    if key_seen_exec(a, key.as_str(), i) {
        out.push(package_diag("DPCS-PKG-002", concat3("duplicate artifact id/version `", key.as_str(), "`"),
            concat3(at.as_str(), "", "")));
    }
    if is_blank(x.id.as_str()) {
        out.push(package_diag("DPCS-PKG-003", owned("artifact id must be non-empty"), concat3(at.as_str(), ".id", "")));
    }
    if !is_valid_version(x.version.as_str()) {
        out.push(package_diag("DPCS-PKG-004", concat3("invalid artifact version `", x.version.as_str(), "`"),
            concat3(at.as_str(), ".version", "")));
    }
    proof {
        reveal_strlit("");
        assert(diag_views(out@) =~= entry_field_findings(a@, i as int));
    }
    out
}

fn entry_path_checks(x: &PackageArtifactEntry, probe: &ArtifactFileProbe, i: usize) -> (out: Vec<Diagnostic>)
    ensures
        diag_views(out@) == entry_path_findings(*x, *probe, i as int),
{
    let at = entry_ref_exec(i);
    let at = concat3(at.as_str(), ".path", "");
    let mut out: Vec<Diagnostic> = Vec::new();
    proof { reveal_strlit(""); }
    if !is_safe_relative(x.path.as_str()) {
        let d = package_diag("DPCS-PKG-005", concat3("unsafe or absolute artifact path `", x.path.as_str(), "`"), at)
            .with_remediation(owned("Use a relative path without '..'"));
        out.push(d);
    } else {
        match probe {
            ArtifactFileProbe::Escapes(e) => {
                let mut m = concat3("artifact path escapes package root `", x.path.as_str(), "`: ");
                push_str(&mut m, e.as_str());
                out.push(package_diag("DPCS-PKG-005", m, at));
            },
            ArtifactFileProbe::Symlink => {
                out.push(package_diag("DPCS-PKG-010", concat3("artifact path must not be a symlink: ", x.path.as_str(), ""), at));
            },
            ArtifactFileProbe::File => {},
            ArtifactFileProbe::Missing => {
                out.push(package_diag("DPCS-PKG-006", concat3("artifact file missing: ", x.path.as_str(), ""), at));
            },
        }
    }
    proof { assert(diag_views(out@) =~= entry_path_findings(*x, *probe, i as int)); }
    out
}

/// Validate an opened package directory.
///
/// `opened` is the result of loading the package's manifest; `probes` holds,
/// for each artifact entry in order, what the file system showed at its path
/// (entries with an unsafe path are never looked up, and their probe is not
/// read). The report lists the findings in the order they are found.
pub fn validate_package(opened: &Result<PackageLayout, Error>, probes: &Vec<ArtifactFileProbe>) -> (r: ValidationReport)
    requires
        opened matches Ok(layout) ==> probes@.len() == layout.manifest.artifacts@.len(),
    ensures
        r@ == package_findings(*opened, probes@),
{
    let layout = match opened {
        Err(e) => {
            let mut report = ValidationReport::new();
            let d = Diagnostic::error("DPCS-PKG-001", categories::PACKAGE, concat3("failed to open package: ", e.message().as_str(), ""))
                .with_remediation(owned("Ensure manifest.yaml exists and is well-formed"));
            report.push(d);
            proof {
                reveal_strlit("");
                reveal_strlit("package");
                assert(report@ =~= package_findings(*opened, probes@));
            }
            return report;
        },
        Ok(layout) => layout,
    };
    let a = &layout.manifest.artifacts;
    let mut out = manifest_checks(&layout.manifest);
    let ghost head = diag_views(out@);
    let mut i: usize = 0;
    while i < a.len()
        invariant
            i <= a@.len(),
            probes@.len() == a@.len(),
            diag_views(out@) == head + entries_findings(a@, probes@, i as int),
        decreases a.len() - i,
    {
        let mut more = entry_field_checks(a, i);
        let ghost m1 = diag_views(more@);
        let mut path = entry_path_checks(&a[i], &probes[i], i);
        let ghost m2 = diag_views(path@);
        let ghost before = out@;
        out.append(&mut more);
        out.append(&mut path);
        assert(diag_views(out@) =~= diag_views(before) + m1 + m2);
        i += 1;
    }
    let report = ValidationReport { diagnostics: out };
    assert(report@ =~= package_findings(*opened, probes@));
    report
}

proof fn lemma_key_seen_at(a: Seq<PackageArtifactEntry>, k: int, n: int)
    requires
        0 <= k < n <= a.len(),
    ensures
        key_seen(a, entry_key(a[k]), n),
    decreases n,
{
    if n - 1 > k {
        lemma_key_seen_at(a, k, n - 1);
    }
}

proof fn lemma_entries_findings_include(a: Seq<PackageArtifactEntry>, probes: Seq<ArtifactFileProbe>, k: int, n: int)
    requires
        0 <= k < n <= a.len(),
    ensures
        forall|e: DiagnosticView| #[trigger] entry_field_findings(a, k).contains(e)
            ==> entries_findings(a, probes, n).contains(e),
    decreases n,
{
    if n - 1 > k {
        lemma_entries_findings_include(a, probes, k, n - 1);
    }
    assert forall|e: DiagnosticView| #[trigger] entry_field_findings(a, k).contains(e)
        implies entries_findings(a, probes, n).contains(e) by {
        let p = entries_findings(a, probes, n - 1);
        let q = entry_field_findings(a, n - 1);
        let t = entry_path_findings(a[n - 1], probes[n - 1], n - 1);
        assert(entries_findings(a, probes, n) == p + q + t);
        if n - 1 > k {
            let m = choose|m: int| 0 <= m < p.len() && p[m] == e;
            assert((p + q + t)[m] == e);
        } else {
            let m = choose|m: int| 0 <= m < q.len() && q[m] == e;
            assert((p + q + t)[p.len() + m] == e);
        }
    }
}

/// Artifact entries must have unique id/version pairs: a package whose
/// manifest lists the same id and version twice does not validate, whatever
/// its files look like.
pub proof fn law_duplicate_entries_invalidate(layout: PackageLayout, probes: Seq<ArtifactFileProbe>, i: int, j: int)
    requires
        probes.len() == layout.manifest.artifacts@.len(),
        0 <= i < j < layout.manifest.artifacts@.len(),
        layout.manifest.artifacts@[i].id@ == layout.manifest.artifacts@[j].id@,
        layout.manifest.artifacts@[i].version@ == layout.manifest.artifacts@[j].version@,
    ensures
        !no_errors(package_findings(Ok(layout), probes)),
{
    let a = layout.manifest.artifacts@;
    lemma_key_seen_at(a, i, j);
    assert(entry_key(a[i]) == entry_key(a[j]));
    let d = entry_field_findings(a, j);
    let e = d[0];
    assert(d.contains(e));
    assert(e.severity == Severity::Error);
    lemma_entries_findings_include(a, probes, j, a.len() as int);
    let all = package_findings(Ok(layout), probes);
    let h = manifest_findings(layout.manifest);
    let rest = entries_findings(a, probes, a.len() as int);
    let m = choose|m: int| 0 <= m < rest.len() && rest[m] == e;
    assert(all[h.len() + m] == e);
}

/// An artifact entry that passes every check: a non-blank id, a valid
/// version, a safe relative path, and a regular file there.
pub open spec fn entry_accepted(x: PackageArtifactEntry, probe: ArtifactFileProbe) -> bool {
    &&& trim(x.id@).len() > 0
    &&& parse_version_spec(x.version@) is Ok
    &&& safe_relative(x.path@)
    &&& probe is File
}

/// The first `n` entries are each accepted and no two share an `id@version` key.
pub open spec fn entries_accepted(a: Seq<PackageArtifactEntry>, probes: Seq<ArtifactFileProbe>, n: int) -> bool {
    &&& forall|i: int| 0 <= i < n ==> entry_accepted(#[trigger] a[i], probes[i])
    &&& forall|i: int, j: int| 0 <= i < j < n ==> entry_key(#[trigger] a[i]) != entry_key(#[trigger] a[j])
}

proof fn lemma_key_seen_iff(a: Seq<PackageArtifactEntry>, key: Seq<char>, n: int)
    requires
        0 <= n <= a.len(),
    ensures
        key_seen(a, key, n) == (exists|i: int| 0 <= i < n && entry_key(#[trigger] a[i]) == key),
    decreases n,
{
    if n > 0 {
        lemma_key_seen_iff(a, key, n - 1);
        if entry_key(a[n - 1]) == key {
            assert(entry_key(a[n - 1]) == key);
        }
    }
}

proof fn lemma_entry_no_errors(a: Seq<PackageArtifactEntry>, probes: Seq<ArtifactFileProbe>, k: int)
    requires
        0 <= k < a.len(),
    ensures
        no_errors(entry_field_findings(a, k) + entry_path_findings(a[k], probes[k], k))
            == (entry_accepted(a[k], probes[k]) && !key_seen(a, entry_key(a[k]), k)),
{
    let x = a[k];
    let at = entry_ref(k);
    let e: Seq<DiagnosticView> = Seq::empty();
    let p1 = if key_seen(a, entry_key(x), k) {
        seq![package_view("DPCS-PKG-002"@, "duplicate artifact id/version `"@ + entry_key(x) + "`"@, at)]
    } else {
        e
    };
    let p2 = if trim(x.id@).len() == 0 {
        seq![package_view("DPCS-PKG-003"@, "artifact id must be non-empty"@, at + ".id"@)]
    } else {
        e
    };
    let p3 = if parse_version_spec(x.version@) is Err {
        seq![package_view("DPCS-PKG-004"@, "invalid artifact version `"@ + x.version@ + "`"@, at + ".version"@)]
    } else {
        e
    };
    let q = entry_path_findings(x, probes[k], k);
    assert(entry_field_findings(a, k) == p1 + p2 + p3);
    assert(no_errors(p1) == !key_seen(a, entry_key(x), k)) by {
        if key_seen(a, entry_key(x), k) { assert(p1[0].severity == Severity::Error); }
    }
    assert(no_errors(p2) == (trim(x.id@).len() > 0)) by {
        if trim(x.id@).len() == 0 { assert(p2[0].severity == Severity::Error); }
    }
    assert(no_errors(p3) == parse_version_spec(x.version@) is Ok) by {
        if parse_version_spec(x.version@) is Err { assert(p3[0].severity == Severity::Error); }
    }
    assert(no_errors(q) == (safe_relative(x.path@) && probes[k] is File)) by {
        if !(safe_relative(x.path@) && probes[k] is File) { assert(q[0].severity == Severity::Error); }
    }
    lemma_no_errors_concat(p1, p2);
    lemma_no_errors_concat(p1 + p2, p3);
    lemma_no_errors_concat(p1 + p2 + p3, q);
}

proof fn lemma_entries_no_errors(a: Seq<PackageArtifactEntry>, probes: Seq<ArtifactFileProbe>, n: int)
    requires
        0 <= n <= a.len(),
        probes.len() == a.len(),
    ensures
        no_errors(entries_findings(a, probes, n)) == entries_accepted(a, probes, n),
    decreases n,
{
    if n > 0 {
        let k = n - 1;
        lemma_entries_no_errors(a, probes, k);
        lemma_entry_no_errors(a, probes, k);
        lemma_key_seen_iff(a, entry_key(a[k]), k);
        let f = entries_findings(a, probes, k);
        let g = entry_field_findings(a, k);
        let h = entry_path_findings(a[k], probes[k], k);
        assert(entries_findings(a, probes, n) == f + (g + h));
        lemma_no_errors_concat(f, g + h);
        if entries_accepted(a, probes, n) {
            assert(entries_accepted(a, probes, k));
            if key_seen(a, entry_key(a[k]), k) {
                let i = choose|i: int| 0 <= i < k && entry_key(#[trigger] a[i]) == entry_key(a[k]);
                assert(entry_key(a[i]) != entry_key(a[k]));
            }
        }
        if no_errors(entries_findings(a, probes, n)) {
            assert forall|i: int, j: int| 0 <= i < j < n implies entry_key(#[trigger] a[i]) != entry_key(#[trigger] a[j]) by {
                if j == k && entry_key(a[i]) == entry_key(a[j]) {
                    assert(exists|i2: int| 0 <= i2 < k && entry_key(#[trigger] a[i2]) == entry_key(a[k]));
                }
            }
        }
    }
}

/// A package validates exactly when it could be opened, its manifest has a
/// non-blank id and DPCS version and a valid version, and every artifact
/// entry has a non-blank id, a valid version, a safe relative path at which a
/// regular file (not a symbolic link) was found inside the package root, with
/// no two entries sharing an `id@version` key.
pub proof fn law_package_validity(opened: Result<PackageLayout, Error>, probes: Seq<ArtifactFileProbe>)
    requires
        opened matches Ok(layout) ==> probes.len() == layout.manifest.artifacts@.len(),
    ensures
        no_errors(package_findings(opened, probes)) == match opened {
            Err(_) => false,
            Ok(layout) => {
                &&& trim(layout.manifest.id@).len() > 0
                &&& parse_version_spec(layout.manifest.version@) is Ok
                &&& trim(layout.manifest.dpcs_version@).len() > 0
                &&& entries_accepted(layout.manifest.artifacts@, probes, layout.manifest.artifacts@.len() as int)
            },
        },
{
    match opened {
        Err(e) => {
            assert(package_findings(opened, probes)[0].severity == Severity::Error);
        },
        Ok(layout) => {
            let m = layout.manifest;
            let e: Seq<DiagnosticView> = Seq::empty();
            let p1 = if trim(m.id@).len() == 0 {
                seq![package_view("DPCS-PKG-007"@, "package id must be non-empty"@, "id"@)]
            } else {
                e
            };
            let p2 = if parse_version_spec(m.version@) is Err {
                seq![package_view("DPCS-PKG-008"@, "invalid package version `"@ + m.version@ + "`"@, "version"@)]
            } else {
                e
            };
            let p3 = if trim(m.dpcs_version@).len() == 0 {
                seq![package_view("DPCS-PKG-009"@, "package dpcsVersion must be non-empty"@, "dpcsVersion"@)]
            } else {
                e
            };
            assert(manifest_findings(m) == p1 + p2 + p3);
            assert(no_errors(p1) == (trim(m.id@).len() > 0)) by {
                if trim(m.id@).len() == 0 { assert(p1[0].severity == Severity::Error); }
            }
            assert(no_errors(p2) == parse_version_spec(m.version@) is Ok) by {
                if parse_version_spec(m.version@) is Err { assert(p2[0].severity == Severity::Error); }
            }
            assert(no_errors(p3) == (trim(m.dpcs_version@).len() > 0)) by {
                if trim(m.dpcs_version@).len() == 0 { assert(p3[0].severity == Severity::Error); }
            }
            lemma_no_errors_concat(p1, p2);
            lemma_no_errors_concat(p1 + p2, p3);
            lemma_entries_no_errors(m.artifacts@, probes, m.artifacts@.len() as int);
            lemma_no_errors_concat(manifest_findings(m), entries_findings(m.artifacts@, probes, m.artifacts@.len() as int));
        },
    }
}

/// Entries whose versions hold no `@` share an `id@version` key exactly
/// when they share the id and the version.
pub proof fn law_entry_keys_match_pairs(x: PackageArtifactEntry, y: PackageArtifactEntry)
    requires
        !x.version@.contains('@'),
        !y.version@.contains('@'),
    ensures
        (entry_key(x) == entry_key(y)) == (x.id@ == y.id@ && x.version@ == y.version@),
{
    reveal_strlit("@");
    let kx = entry_key(x);
    let ky = entry_key(y);
    if kx == ky && !(x.id@ == y.id@ && x.version@ == y.version@) {
        let (a, b) = (x.version@, y.version@);
        assert("@"@.len() == 1);
        assert(kx.len() == x.id@.len() + 1 + a.len());
        assert(ky.len() == y.id@.len() + 1 + b.len());
        if a.len() == b.len() {
            assert(x.id@.len() == y.id@.len());
            assert(x.id@ =~= kx.subrange(0, x.id@.len() as int));
            assert(y.id@ =~= ky.subrange(0, y.id@.len() as int));
            assert(a =~= kx.subrange(kx.len() - a.len(), kx.len() as int));
            assert(b =~= ky.subrange(ky.len() - b.len(), ky.len() as int));
        } else if a.len() < b.len() {
            let at = kx.len() - a.len() - 1;
            assert(kx[at] == '@');
            assert(ky[at] == b[at - (ky.len() - b.len())]);
            assert(b.contains(b[at - (ky.len() - b.len())]));
        } else {
            let at = ky.len() - b.len() - 1;
            assert(ky[at] == '@');
            assert(kx[at] == a[at - (kx.len() - a.len())]);
            assert(a.contains(a[at - (kx.len() - a.len())]));
        }
    }
}

} // verus!
