//! Capability matching of execution requirements against a profile.
//!
//! The mandatory demand of a pipeline is the set of trimmed, non-empty
//! identifiers in `execution.requiredCapabilities` and
//! `execution.externalDependencies[].capability`. The profile supplies the
//! trimmed, non-empty identifiers of its declared capabilities.
use vstd::prelude::*;

use super::{CapabilityDecl, CapabilityProfile};
use crate::diagnostics::report::{diag_views, lemma_sort_no_errors, no_errors, sort_diagnostics, with_severity};
use crate::diagnostics::{categories, owned, Diagnostic, DiagnosticStage, DiagnosticView, Severity, ValidationReport};
use crate::model::execution::ExecutionRequirements;
use crate::model::versioning::{compatible, versions_compatible};
use crate::plan::PipelinePlan;
use crate::text::{chars_of, insert_sorted_unique, lemma_sorted_set_unique, push_str, str_eq, string_of, strictly_sorted, trim, trim_chars};

verus! {

/// Structured capability evaluation report.
#[derive(Debug)]
pub struct CapabilityReport {
    /// Identity of the evaluated profile.
    pub profile_identity: String,
    /// Contract id from the plan when available.
    pub plan_contract_id: Option<String>,
    /// Capability ids demanded by the plan and satisfied by the profile.
    pub satisfied: Vec<String>,
    /// Mandatory capability ids demanded by the plan but missing from the profile.
    pub missing_mandatory: Vec<String>,
    /// Profile capabilities marked `optional: true` that were not demanded.
    pub unsupported_optional: Vec<String>,
    /// Non-error diagnostics observed during evaluation (for example version warnings).
    pub diagnostics: Vec<Diagnostic>,
}

/// Result of evaluating a plan (or requirements) against a capability profile.
#[derive(Debug)]
pub enum CapabilityResult {
    /// Evaluation succeeded; report includes match details.
    Success(Box<CapabilityReport>),
    /// Evaluation failed; structured match report plus diagnostics.
    Failure {
        /// Partial or complete match report.
        report: Box<CapabilityReport>,
        /// Diagnostics that caused the failure (and any accompanying warnings).
        diagnostics: ValidationReport,
    },
}

impl CapabilityResult {
    /// The report carried by either outcome.
    pub open spec fn outcome(&self) -> CapabilityReport {
        match self {
            CapabilityResult::Success(r) => **r,
            CapabilityResult::Failure { report, .. } => **report,
        }
    }

    /// Returns the report when evaluation succeeded.
    pub fn report(self) -> (r: Option<CapabilityReport>)
        ensures
            match self {
                CapabilityResult::Success(rep) => r == Some(*rep),
                CapabilityResult::Failure { .. } => r is None,
            },
    {
        match self {
            CapabilityResult::Success(report) => Some(*report),
            CapabilityResult::Failure { .. } => None,
        }
    }

    /// Returns a reference to the structured capability report (success or failure).
    pub fn as_capability_report(&self) -> (r: &CapabilityReport)
        ensures
            *r == self.outcome(),
    {
        match self {
            CapabilityResult::Success(report) => &**report,
            CapabilityResult::Failure { report, .. } => &**report,
        }
    }

    /// Returns a reference to the report when evaluation succeeded.
    pub fn as_report(&self) -> (r: Option<&CapabilityReport>)
        ensures
            match self {
                CapabilityResult::Success(rep) => r == Some(&**rep),
                CapabilityResult::Failure { .. } => r is None,
            },
    {
        match self {
            CapabilityResult::Success(report) => Some(&**report),
            CapabilityResult::Failure { .. } => None,
        }
    }

    /// Returns whether evaluation succeeded.
    pub fn is_ok(&self) -> (r: bool)
        ensures
            r == (self is Success),
    {
        match self {
            CapabilityResult::Success(_) => true,
            CapabilityResult::Failure { .. } => false,
        }
    }

    /// Returns diagnostics when evaluation failed.
    pub fn diagnostics(&self) -> (r: Option<&ValidationReport>)
        ensures
            match self {
                CapabilityResult::Success(_) => r is None,
                CapabilityResult::Failure { diagnostics, .. } => r == Some(diagnostics),
            },
    {
        match self {
            CapabilityResult::Success(_) => None,
            CapabilityResult::Failure { diagnostics, .. } => Some(diagnostics),
        }
    }
}

/// `k` is the trimmed form of some required capability.
pub open spec fn required_demand(e: ExecutionRequirements, k: Seq<char>) -> bool {
    exists|i: int| 0 <= i < e.required_capabilities@.len() && trim(#[trigger] e.required_capabilities@[i]@) == k
}

/// `k` is the trimmed capability of some external dependency.
pub open spec fn dependency_demand(e: ExecutionRequirements, k: Seq<char>) -> bool {
    exists|i: int| 0 <= i < e.external_dependencies@.len() && trim(#[trigger] e.external_dependencies@[i].capability@) == k
}

/// The mandatory demand: trimmed, non-empty capability identifiers.
pub open spec fn demand(req: Option<ExecutionRequirements>) -> Set<Seq<char>> {
    match req {
        Some(e) => Set::new(|k: Seq<char>| k.len() > 0 && (required_demand(e, k) || dependency_demand(e, k))),
        None => Set::empty(),
    }
}

/// `k` is the trimmed identifier of some declared capability of `p`.
pub open spec fn declared(p: CapabilityProfile, k: Seq<char>) -> bool {
    exists|i: int| 0 <= i < p.capabilities@.len() && trim(#[trigger] p.capabilities@[i].id@) == k
}

/// The capabilities a profile supplies: trimmed, non-empty identifiers.
pub open spec fn supply(p: CapabilityProfile) -> Set<Seq<char>> {
    Set::new(|k: Seq<char>| k.len() > 0 && declared(p, k))
}

/// Optional capabilities of the first `n` declarations that are not demanded
/// (trimmed, non-empty), in declaration order.
pub open spec fn unused_optional(p: CapabilityProfile, d: Set<Seq<char>>, n: int) -> Seq<Seq<char>>
    decreases n,
{
    if n <= 0 {
        Seq::empty()
    } else {
        let c = p.capabilities@[n - 1];
        let k = trim(c.id@);
        unused_optional(p, d, n - 1) + (if c.optional && k.len() > 0 && !d.contains(k) { seq![k] } else { Seq::empty() })
    }
}

/// Object reference of a missing capability: where it was demanded first.
pub open spec fn demand_ref(req: Option<ExecutionRequirements>, k: Seq<char>) -> Seq<char> {
    match req {
        Some(e) => if required_demand(e, k) {
            "execution.requiredCapabilities:"@ + k
        } else {
            "execution.externalDependencies.capability:"@ + k
        },
        None => "execution.externalDependencies.capability:"@ + k,
    }
}

/// Error for a demanded capability missing from the profile.
pub open spec fn missing_view(req: Option<ExecutionRequirements>, k: Seq<char>) -> DiagnosticView {
    DiagnosticView {
        object_ref: Some(demand_ref(req, k)),
        remediation: Some("Add `"@ + k + "` to the orchestrator capability profile or remove it from execution requirements"@),
        ..Diagnostic::fresh("DPCS-CAP-005"@, Severity::Error, DiagnosticStage::CapabilityEvaluation, "capability"@,
            "unsupported mandatory capability `"@ + k + "`"@)
    }
}

/// Errors for missing capabilities, in the given order.
pub open spec fn missing_views(req: Option<ExecutionRequirements>, missing: Seq<Seq<char>>) -> Seq<DiagnosticView> {
    missing.map_values(|k: Seq<char>| missing_view(req, k))
}

/// Warning when the profile's DPCS version differs from the toolkit's, or from
/// the plan's (trimmed, when given and non-empty).
pub open spec fn version_warning(profile_version: Seq<char>, plan_version: Option<Seq<char>>) -> Seq<DiagnosticView> {
    let pv = trim(profile_version);
    let planned = match plan_version {
        Some(v) => if trim(v).len() > 0 { Some(trim(v)) } else { None },
        None => None,
    };
    let toolkit_mismatch = !compatible(pv, "1.0.0-draft"@);
    let plan_mismatch = match planned {
        Some(v) => !compatible(pv, v),
        None => false,
    };
    if pv.len() == 0 || (!toolkit_mismatch && !plan_mismatch) {
        Seq::empty()
    } else {
        let message = if plan_mismatch {
            "profile dpcsVersion `"@ + pv + "` differs from plan/contract dpcsVersion `"@ + planned.unwrap() + "` (toolkit `1.0.0-draft`)"@
        } else {
            "profile dpcsVersion `"@ + pv + "` differs from supported toolkit version `1.0.0-draft`"@
        };
        seq![DiagnosticView {
            object_ref: Some("dpcsVersion"@),
            remediation: Some("Align profile dpcsVersion with the contract and toolkit DPCS version when possible"@),
            ..Diagnostic::fresh("DPCS-CAP-006"@, Severity::Warning, DiagnosticStage::CapabilityEvaluation, "capability"@, message)
        }]
    }
}

fn trimmed(s: &str) -> (r: String)
    ensures
        r@ == trim(s@),
{
    string_of(&trim_chars(&chars_of(s)))
}

/// Whether some required capability trims to `k`.
fn is_required_demand(e: &ExecutionRequirements, k: &str) -> (r: bool)
    ensures
        r == required_demand(*e, k@),
{
    let mut i: usize = 0;
    while i < e.required_capabilities.len()
        invariant
            i <= e.required_capabilities@.len(),
            forall|m: int| 0 <= m < i ==> trim(#[trigger] e.required_capabilities@[m]@) != k@,
        decreases e.required_capabilities.len() - i,
    {
        let t = trimmed(e.required_capabilities[i].as_str());
        if str_eq(t.as_str(), k) {
            return true;
        }
        i += 1;
    }
    false
}

/// Whether the profile declares `k` (after trimming).
fn is_declared(p: &CapabilityProfile, k: &str) -> (r: bool)
    ensures
        r == declared(*p, k@),
{
    let mut i: usize = 0;
    while i < p.capabilities.len()
        invariant
            i <= p.capabilities@.len(),
            forall|m: int| 0 <= m < i ==> trim(#[trigger] p.capabilities@[m].id@) != k@,
        decreases p.capabilities.len() - i,
    {
        let t = trimmed(p.capabilities[i].id.as_str());
        if str_eq(t.as_str(), k) {
            return true;
        }
        i += 1;
    }
    false
}

/// The demand as a strictly sorted list.
fn demand_list(req: Option<&ExecutionRequirements>) -> (r: Vec<String>)
    ensures
        strictly_sorted(r@.map_values(|s: String| s@)),
        r@.map_values(|s: String| s@).to_set() == demand(match req { Some(e) => Some(*e), None => None }),
{
    let mut out: Vec<String> = Vec::new();
    assert(out@.map_values(|s: String| s@).to_set() =~= Set::<Seq<char>>::empty());
    match req {
        None => {
            assert(demand(None) =~= Set::<Seq<char>>::empty());
            out
        },
        Some(e) => {
            let ghost d = demand(Some(*e));
            let mut i: usize = 0;
            while i < e.required_capabilities.len()
                invariant
                    i <= e.required_capabilities@.len(),
                    strictly_sorted(out@.map_values(|s: String| s@)),
                    out@.map_values(|s: String| s@).to_set() == Set::new(|k: Seq<char>| k.len() > 0
                        && exists|m: int| 0 <= m < i && trim(#[trigger] e.required_capabilities@[m]@) == k),
                decreases e.required_capabilities.len() - i,
            {
                let tv = trim_chars(&chars_of(e.required_capabilities[i].as_str()));
                let ghost before = out@.map_values(|s: String| s@).to_set();
                if tv.len() > 0 {
                    insert_sorted_unique(&mut out, string_of(&tv));
                }
                i += 1;
                assert(out@.map_values(|s: String| s@).to_set() =~= Set::new(|k: Seq<char>| k.len() > 0
                    && exists|m: int| 0 <= m < i && trim(#[trigger] e.required_capabilities@[m]@) == k)) by {
                    assert forall|k: Seq<char>| (k.len() > 0 && exists|m: int| 0 <= m < i && trim(#[trigger] e.required_capabilities@[m]@) == k)
                        implies out@.map_values(|s: String| s@).to_set().contains(k) by {
                        let m = choose|m: int| 0 <= m < i && trim(#[trigger] e.required_capabilities@[m]@) == k;
                        if m < i - 1 {
                            assert(before.contains(k));
                        }
                    }
                }
            }
            let mut j: usize = 0;
            while j < e.external_dependencies.len()
                invariant
                    i == e.required_capabilities@.len(),
                    j <= e.external_dependencies@.len(),
                    d == demand(Some(*e)),
                    strictly_sorted(out@.map_values(|s: String| s@)),
                    out@.map_values(|s: String| s@).to_set() == Set::new(|k: Seq<char>| k.len() > 0
                        && (required_demand(*e, k)
                        || exists|m: int| 0 <= m < j && trim(#[trigger] e.external_dependencies@[m].capability@) == k)),
                decreases e.external_dependencies.len() - j,
            {
                let tv = trim_chars(&chars_of(e.external_dependencies[j].capability.as_str()));
                let ghost before = out@.map_values(|s: String| s@).to_set();
                if tv.len() > 0 {
                    insert_sorted_unique(&mut out, string_of(&tv));
                }
                j += 1;
                assert(out@.map_values(|s: String| s@).to_set() =~= Set::new(|k: Seq<char>| k.len() > 0
                    && (required_demand(*e, k)
                    || exists|m: int| 0 <= m < j && trim(#[trigger] e.external_dependencies@[m].capability@) == k))) by {
                    assert forall|k: Seq<char>| (k.len() > 0 && (required_demand(*e, k)
                        || exists|m: int| 0 <= m < j && trim(#[trigger] e.external_dependencies@[m].capability@) == k))
                        implies out@.map_values(|s: String| s@).to_set().contains(k) by {
                        if !required_demand(*e, k) {
                            let m = choose|m: int| 0 <= m < j && trim(#[trigger] e.external_dependencies@[m].capability@) == k;
                            if m < j - 1 {
                                assert(before.contains(k));
                            }
                        } else {
                            assert(before.contains(k));
                        }
                    }
                }
            }
            assert(out@.map_values(|s: String| s@).to_set() =~= d);
            out
        },
    }
}

/// Requirements as a value.
pub open spec fn req_value(req: Option<&ExecutionRequirements>) -> Option<ExecutionRequirements> {
    match req {
        Some(e) => Some(*e),
        None => None,
    }
}

/// Entries of `d[..n]` that the profile declares (`want`) or does not.
pub open spec fn kept(d: Seq<Seq<char>>, p: CapabilityProfile, n: int, want: bool) -> Seq<Seq<char>>
    decreases n,
{
    if n <= 0 {
        Seq::empty()
    } else {
        kept(d, p, n - 1, want) + (if declared(p, d[n - 1]) == want { seq![d[n - 1]] } else { Seq::empty() })
    }
}

proof fn lemma_kept(d: Seq<Seq<char>>, p: CapabilityProfile, n: int, want: bool)
    requires
        0 <= n <= d.len(),
        strictly_sorted(d),
    ensures
        strictly_sorted(kept(d, p, n, want)),
        forall|x: Seq<char>| #[trigger] kept(d, p, n, want).contains(x) <==> (exists|i: int| 0 <= i < n && d[i] == x) && declared(p, x) == want,
        forall|x: Seq<char>| #[trigger] kept(d, p, n, want).contains(x) ==> (exists|i: int| 0 <= i < n && d[i] == x),
    decreases n,
{
    if n > 0 {
        lemma_kept(d, p, n - 1, want);
        let a = kept(d, p, n - 1, want);
        let r = kept(d, p, n, want);
        assert forall|x: Seq<char>| #[trigger] r.contains(x) <==> (exists|i: int| 0 <= i < n && d[i] == x) && declared(p, x) == want by {
            if r.contains(x) {
                let k = choose|k: int| 0 <= k < r.len() && r[k] == x;
                if k < a.len() {
                    assert(a[k] == x);
                    assert(a.contains(x));
                } else {
                    assert(x == d[n - 1]);
                }
            }
            if (exists|i: int| 0 <= i < n && d[i] == x) && declared(p, x) == want {
                let i = choose|i: int| 0 <= i < n && d[i] == x;
                if i < n - 1 {
                    assert(a.contains(x));
                    let k = choose|k: int| 0 <= k < a.len() && a[k] == x;
                    assert(r[k] == x);
                } else {
                    assert(r[a.len() as int] == x);
                }
            }
        }
        if declared(p, d[n - 1]) == want {
            assert forall|i: int, j: int| 0 <= i < j < r.len() implies crate::text::compare(#[trigger] r[i], #[trigger] r[j]) < 0 by {
                if j == a.len() {
                    assert(a.contains(r[i]));
                    let m = choose|m: int| 0 <= m < n - 1 && d[m] == r[i];
                } else {
                    assert(r[i] == a[i] && r[j] == a[j]);
                }
            }
        } else {
            assert(r =~= a);
        }
    }
}

proof fn lemma_errors_counted(s: Seq<DiagnosticView>)
    ensures
        (with_severity(s, Severity::Error).len() == 0) == no_errors(s),
    decreases s.len(),
{
    if s.len() > 0 {
        lemma_errors_counted(s.drop_last());
        if no_errors(s.drop_last()) && s.last().severity != Severity::Error {
            assert forall|i: int| 0 <= i < s.len() implies (#[trigger] s[i]).severity != Severity::Error by {
                if i < s.len() - 1 {
                    assert(s[i] == s.drop_last()[i]);
                }
            }
        }
        if !no_errors(s.drop_last()) {
            let i = choose|i: int| 0 <= i < s.drop_last().len() && (#[trigger] s.drop_last()[i]).severity == Severity::Error;
            assert(s[i] == s.drop_last()[i]);
        }
    }
}

/// The warning for a profile's DPCS version, if any.
fn version_check(profile_version: &str, plan_version: Option<&str>) -> (r: Vec<Diagnostic>)
    ensures
        diag_views(r@) == version_warning(profile_version@, match plan_version { Some(v) => Some(v@), None => None }),
{
    let mut out: Vec<Diagnostic> = Vec::new();
    let pv = trimmed(profile_version);
    let planned: Option<String> = match plan_version {
        Some(v) => {
            let t = trim_chars(&chars_of(v));
            if t.len() > 0 { Some(string_of(&t)) } else { None }
        },
        None => None,
    };
    let toolkit_mismatch = !versions_compatible(pv.as_str(), crate::DPCS_SPEC_VERSION);
    let plan_mismatch = match &planned {
        Some(v) => !versions_compatible(pv.as_str(), v.as_str()),
        None => false,
    };
    proof { reveal_strlit("1.0.0-draft"); }
    if is_empty_text(&pv) || (!toolkit_mismatch && !plan_mismatch) {
        assert(diag_views(out@) =~= version_warning(profile_version@, match plan_version { Some(v) => Some(v@), None => None }));
        return out;
    }
    let mut message = owned("profile dpcsVersion `");
    push_str(&mut message, pv.as_str());
    if plan_mismatch {
        let v = planned.unwrap();
        push_str(&mut message, "` differs from plan/contract dpcsVersion `");
        push_str(&mut message, v.as_str());
        push_str(&mut message, "` (toolkit `1.0.0-draft`)");
    } else {
        push_str(&mut message, "` differs from supported toolkit version `1.0.0-draft`");
    }
    proof { reveal_strlit("capability"); }
    out.push(Diagnostic::capability_warning("DPCS-CAP-006", categories::CAPABILITY, message)
        .with_object_ref(owned("dpcsVersion"))
        .with_remediation(owned("Align profile dpcsVersion with the contract and toolkit DPCS version when possible")));
    assert(diag_views(out@) =~= version_warning(profile_version@, match plan_version { Some(v) => Some(v@), None => None }));
    out
}

fn is_empty_text(s: &String) -> (r: bool)
    ensures
        r == (s@.len() == 0),
{
    chars_of(s.as_str()).len() == 0
}

fn missing_diag(req: Option<&ExecutionRequirements>, k: &str) -> (r: Diagnostic)
    ensures
        r@ == missing_view(req_value(req), k@),
{
    let mut message = owned("unsupported mandatory capability `");
    push_str(&mut message, k);
    push_str(&mut message, "`");
    let from_required = match req {
        Some(e) => is_required_demand(e, k),
        None => false,
    };
    let mut object_ref = if from_required {
        owned("execution.requiredCapabilities:")
    } else {
        owned("execution.externalDependencies.capability:")
    };
    push_str(&mut object_ref, k);
    let mut remediation = owned("Add `");
    push_str(&mut remediation, k);
    push_str(&mut remediation, "` to the orchestrator capability profile or remove it from execution requirements");
    proof { reveal_strlit("capability"); }
    Diagnostic::capability_error("DPCS-CAP-005", categories::CAPABILITY, message)
        .with_object_ref(object_ref)
        .with_remediation(remediation)
}

/// Whether a strictly sorted list holds `k`.
fn list_holds(v: &Vec<String>, k: &String) -> (r: bool)
    ensures
        r == v@.map_values(|s: String| s@).contains(k@),
{
    let mut i: usize = 0;
    while i < v.len()
        invariant
            i <= v@.len(),
            forall|m: int| 0 <= m < i ==> (#[trigger] v@[m])@ != k@,
        decreases v.len() - i,
    {
        if str_eq(v[i].as_str(), k.as_str()) {
            assert(v@.map_values(|s: String| s@)[i as int] == k@);
            return true;
        }
        i += 1;
    }
    proof {
        let vs = v@.map_values(|s: String| s@);
        if vs.contains(k@) {
            let m = choose|m: int| 0 <= m < vs.len() && vs[m] == k@;
            assert(v@[m]@ == k@);
        }
    }
    false
}

/// Match execution requirements against a profile.
///
/// `profile_findings` is the validation report of the profile. When it holds
/// an error, matching fails at once with an empty match report and those
/// findings, sorted. Otherwise the demand is split into satisfied and missing
/// capabilities (each in ascending order); every missing capability is an
/// error; a version warning may be added; and matching succeeds exactly when
/// nothing is missing. The report keeps the warnings of the sorted findings.
pub fn match_requirements(
    requirements: Option<&ExecutionRequirements>,
    profile: &CapabilityProfile,
    profile_findings: ValidationReport,
    plan_contract_id: Option<String>,
    plan_dpcs_version: Option<&str>,
) -> (r: CapabilityResult)
    ensures
        r.outcome().profile_identity@ == profile.identity@,
        r.outcome().plan_contract_id == plan_contract_id,
        !no_errors(profile_findings@) ==> {
            &&& r matches CapabilityResult::Failure { diagnostics, .. } && diagnostics@ == sort_diagnostics(profile_findings@)
            &&& r.outcome().satisfied@.len() == 0
            &&& r.outcome().missing_mandatory@.len() == 0
            &&& r.outcome().unsupported_optional@.len() == 0
            &&& r.outcome().diagnostics@.len() == 0
        },
        no_errors(profile_findings@) ==> {
            let sat = r.outcome().satisfied@.map_values(|s: String| s@);
            let miss = r.outcome().missing_mandatory@.map_values(|s: String| s@);
            let all = sort_diagnostics(profile_findings@
                + version_warning(profile.dpcs_version@, match plan_dpcs_version { Some(v) => Some(v@), None => None })
                + missing_views(req_value(requirements), miss));
            &&& strictly_sorted(sat)
            &&& sat.to_set() == demand(req_value(requirements)).intersect(supply(*profile))
            &&& strictly_sorted(miss)
            &&& miss.to_set() == demand(req_value(requirements)).difference(supply(*profile))
            &&& r.outcome().unsupported_optional@.map_values(|s: String| s@)
                == unused_optional(*profile, demand(req_value(requirements)), profile.capabilities@.len() as int)
            &&& diag_views(r.outcome().diagnostics@) == with_severity(all, Severity::Warning)
            &&& (r is Success) == (miss.len() == 0)
            &&& (r is Success) == demand(req_value(requirements)).subset_of(supply(*profile))
            &&& r matches CapabilityResult::Failure { diagnostics, .. } ==> diagnostics@ == all
        },
{
    let mut report = profile_findings;
    if !report.is_valid() {
        report.sort_deterministic();
        let empty = CapabilityReport {
            profile_identity: profile.identity.clone(),
            plan_contract_id,
            satisfied: Vec::new(),
            missing_mandatory: Vec::new(),
            unsupported_optional: Vec::new(),
            diagnostics: Vec::new(),
        };
        return CapabilityResult::Failure { report: Box::new(empty), diagnostics: report };
    }
    let ghost findings = report@;
    let mut warning = version_check(profile.dpcs_version.as_str(), plan_dpcs_version);
    let ghost w = diag_views(warning@);
    report.diagnostics.append(&mut warning);
    assert(report@ =~= findings + w);

    let d = demand_list(requirements);
    let ghost ds = d@.map_values(|s: String| s@);
    let mut satisfied: Vec<String> = Vec::new();
    let mut missing: Vec<String> = Vec::new();
    let mut i: usize = 0;
    while i < d.len()
        invariant
            i <= d@.len(),
            ds == d@.map_values(|s: String| s@),
            strictly_sorted(ds),
            satisfied@.map_values(|s: String| s@) == kept(ds, *profile, i as int, true),
            missing@.map_values(|s: String| s@) == kept(ds, *profile, i as int, false),
            report@ == findings + w + missing_views(req_value(requirements), kept(ds, *profile, i as int, false)),
        decreases d.len() - i,
    {
        let k = d[i].clone();
        let ghost before = report@;
        if is_declared(profile, k.as_str()) {
            satisfied.push(k);
            assert(satisfied@.map_values(|s: String| s@) =~= kept(ds, *profile, i + 1, true));
            assert(missing@.map_values(|s: String| s@) =~= kept(ds, *profile, i + 1, false));
        } else {
            report.push(missing_diag(requirements, k.as_str()));
            missing.push(k);
            assert(satisfied@.map_values(|s: String| s@) =~= kept(ds, *profile, i + 1, true));
            assert(missing@.map_values(|s: String| s@) =~= kept(ds, *profile, i + 1, false));
        }
        assert(report@ =~= findings + w + missing_views(req_value(requirements), kept(ds, *profile, i + 1, false)));
        i += 1;
    }
    proof {
        lemma_kept(ds, *profile, ds.len() as int, true);
        lemma_kept(ds, *profile, ds.len() as int, false);
        let dem = demand(req_value(requirements));
        assert(ds.to_set() == dem);
        let sv = satisfied@.map_values(|s: String| s@);
        let mv = missing@.map_values(|s: String| s@);
        assert(sv.to_set() =~= dem.intersect(supply(*profile))) by {
            assert forall|x: Seq<char>| #[trigger] sv.to_set().contains(x) <==> dem.intersect(supply(*profile)).contains(x) by {
                if dem.contains(x) { assert(ds.contains(x)); }
                if ds.contains(x) { assert(ds.to_set().contains(x)); }
            }
        }
        assert(mv.to_set() =~= dem.difference(supply(*profile))) by {
            assert forall|x: Seq<char>| #[trigger] mv.to_set().contains(x) <==> dem.difference(supply(*profile)).contains(x) by {
                if dem.contains(x) { assert(ds.contains(x)); }
                if ds.contains(x) { assert(ds.to_set().contains(x)); }
            }
        }
    }

    let mut unsupported: Vec<String> = Vec::new();
    let mut j: usize = 0;
    while j < profile.capabilities.len()
        invariant
            j <= profile.capabilities@.len(),
            ds == d@.map_values(|s: String| s@),
            ds.to_set() == demand(req_value(requirements)),
            unsupported@.map_values(|s: String| s@) == unused_optional(*profile, demand(req_value(requirements)), j as int),
        decreases profile.capabilities.len() - j,
    {
        let c = &profile.capabilities[j];
        let t = trimmed(c.id.as_str());
        if c.optional && !is_empty_text(&t) && !list_holds(&d, &t) {
            proof { assert(!ds.to_set().contains(t@)); }
            unsupported.push(t);
        } else {
            proof {
                if c.optional && t@.len() > 0 {
                    assert(ds.contains(t@));
                    assert(ds.to_set().contains(t@));
                }
            }
        }
        j += 1;
        assert(unsupported@.map_values(|s: String| s@) =~= unused_optional(*profile, demand(req_value(requirements)), j as int));
    }

    let ghost unsorted = report@;
    report.sort_deterministic();
    let warnings = report.warnings();
    let errors = report.error_count();
    proof {
        lemma_sort_no_errors(unsorted);
        lemma_errors_counted(report@);
        let mv = missing_views(req_value(requirements), missing@.map_values(|s: String| s@));
        assert(no_errors(findings));
        assert(no_errors(w));
        if missing@.len() == 0 {
            assert(mv =~= Seq::<DiagnosticView>::empty());
            assert(unsorted =~= findings + w);
            assert forall|i: int| 0 <= i < unsorted.len() implies (#[trigger] unsorted[i]).severity != Severity::Error by {
                if i < findings.len() { assert(unsorted[i] == findings[i]); } else { assert(unsorted[i] == w[i - findings.len()]); }
            }
        } else {
            let m = missing@.map_values(|s: String| s@);
            assert(mv[0].severity == Severity::Error);
            assert(unsorted[findings.len() + w.len() + 0int] == mv[0]);
        }
    }
    proof {
        let mv = missing@.map_values(|s: String| s@);
        let dem = demand(req_value(requirements));
        let sup = supply(*profile);
        if mv.len() == 0 {
            assert forall|x: Seq<char>| dem.contains(x) implies sup.contains(x) by {
                if !sup.contains(x) {
                    assert(dem.difference(sup).contains(x));
                    assert(mv.to_set().contains(x));
                }
            }
        } else {
            assert(mv.to_set().contains(mv[0]));
            assert(dem.difference(sup).contains(mv[0]));
        }
    }
    let capability_report = CapabilityReport {
        profile_identity: profile.identity.clone(),
        plan_contract_id,
        satisfied,
        missing_mandatory: missing,
        unsupported_optional: unsupported,
        diagnostics: warnings,
    };
    if errors > 0 {
        CapabilityResult::Failure { report: Box::new(capability_report), diagnostics: report }
    } else {
        CapabilityResult::Success(Box::new(capability_report))
    }
}

/// A report of an evaluation that did not take place (the profile did not
/// validate): nothing satisfied, missing or unused, and no findings.
pub open spec fn nothing_matched(c: CapabilityReport) -> bool {
    &&& c.satisfied@.len() == 0
    &&& c.missing_mandatory@.len() == 0
    &&& c.unsupported_optional@.len() == 0
    &&& c.diagnostics@.len() == 0
}

/// `r` is what evaluating `plan` against `profile`, whose validation findings
/// are `findings`, gives.
pub open spec fn evaluated(plan: PipelinePlan, profile: CapabilityProfile, findings: Seq<DiagnosticView>,
    r: CapabilityResult) -> bool {
    &&& r.outcome().profile_identity@ == profile.identity@
    &&& r.outcome().plan_contract_id == Some(plan.contract_id)
    &&& !no_errors(findings) ==> (r matches CapabilityResult::Failure { diagnostics, .. }
        && diagnostics@ == sort_diagnostics(findings))
    &&& !no_errors(findings) ==> nothing_matched(r.outcome())
    &&& no_errors(findings) ==> {
        let miss = r.outcome().missing_mandatory@.map_values(|s: String| s@);
        let sat = r.outcome().satisfied@.map_values(|s: String| s@);
        let all = sort_diagnostics(findings + version_warning(profile.dpcs_version@, Some(plan.dpcs_version@))
            + missing_views(plan.execution, miss));
        &&& strictly_sorted(sat)
        &&& sat.to_set() == demand(plan.execution).intersect(supply(profile))
        &&& strictly_sorted(miss)
        &&& miss.to_set() == demand(plan.execution).difference(supply(profile))
        &&& r.outcome().unsupported_optional@.map_values(|s: String| s@)
            == unused_optional(profile, demand(plan.execution), profile.capabilities@.len() as int)
        &&& diag_views(r.outcome().diagnostics@) == with_severity(all, Severity::Warning)
        &&& (r is Success) == (miss.len() == 0)
        &&& (r is Success) == demand(plan.execution).subset_of(supply(profile))
        &&& r matches CapabilityResult::Failure { diagnostics, .. } ==> diagnostics@ == all
    }
}

/// Evaluate a Pipeline Plan against an orchestrator capability profile whose
/// validation report is `profile_findings`.
pub fn evaluate(plan: &PipelinePlan, profile: &CapabilityProfile, profile_findings: ValidationReport) -> (r: CapabilityResult)
    ensures
        evaluated(*plan, *profile, profile_findings@, r),
{
    let requirements = match &plan.execution {
        Some(e) => Some(e),
        None => None,
    };
    assert(req_value(requirements) == plan.execution);
    match_requirements(requirements, profile, profile_findings, Some(plan.contract_id.clone()), Some(plan.dpcs_version.as_str()))
}

/// Two capability reports agree on everything they hold, each text taken by
/// its characters: profile identity, plan contract id, the satisfied, missing
/// and unused optional capabilities, and the diagnostics.
pub open spec fn same_report(a: CapabilityReport, b: CapabilityReport) -> bool {
    &&& a.profile_identity@ == b.profile_identity@
    &&& crate::diagnostics::opt_text(a.plan_contract_id) == crate::diagnostics::opt_text(b.plan_contract_id)
    &&& a.satisfied@.map_values(|s: String| s@) == b.satisfied@.map_values(|s: String| s@)
    &&& a.missing_mandatory@.map_values(|s: String| s@) == b.missing_mandatory@.map_values(|s: String| s@)
    &&& a.unsupported_optional@.map_values(|s: String| s@) == b.unsupported_optional@.map_values(|s: String| s@)
    &&& diag_views(a.diagnostics@) == diag_views(b.diagnostics@)
}

/// Two capability results agree: both match or both fail, with reports that
/// agree and, on failure, the same findings.
pub open spec fn same_outcome(a: CapabilityResult, b: CapabilityResult) -> bool {
    &&& (a is Success) == (b is Success)
    &&& same_report(a.outcome(), b.outcome())
    &&& match (a, b) {
        (CapabilityResult::Failure { diagnostics: d1, .. }, CapabilityResult::Failure { diagnostics: d2, .. }) => d1@ == d2@,
        _ => true,
    }
}

/// Evaluating a plan against a profile has one outcome: any two results that
/// the evaluation contract admits agree.
pub proof fn law_evaluation_is_determined(plan: PipelinePlan, profile: CapabilityProfile, findings: Seq<DiagnosticView>,
    a: CapabilityResult, b: CapabilityResult)
    requires
        evaluated(plan, profile, findings, a),
        evaluated(plan, profile, findings, b),
    ensures
        same_outcome(a, b),
{
    let x = a.outcome();
    let y = b.outcome();
    if no_errors(findings) {
        lemma_sorted_set_unique(x.satisfied@.map_values(|s: String| s@), y.satisfied@.map_values(|s: String| s@));
        lemma_sorted_set_unique(x.missing_mandatory@.map_values(|s: String| s@), y.missing_mandatory@.map_values(|s: String| s@));
    } else {
        assert(x.satisfied@.map_values(|s: String| s@) =~= y.satisfied@.map_values(|s: String| s@));
        assert(x.missing_mandatory@.map_values(|s: String| s@) =~= y.missing_mandatory@.map_values(|s: String| s@));
        assert(x.unsupported_optional@.map_values(|s: String| s@) =~= y.unsupported_optional@.map_values(|s: String| s@));
        assert(diag_views(x.diagnostics@) =~= diag_views(y.diagnostics@));
    }
}

/// `r` is what evaluating declared requirements `req` against `profile`,
/// whose validation findings are `findings`, gives (no plan, so no version
/// check and no plan contract id).
pub open spec fn requirements_evaluated(req: ExecutionRequirements, profile: CapabilityProfile, findings: Seq<DiagnosticView>,
    r: CapabilityResult) -> bool {
    &&& r.outcome().profile_identity@ == profile.identity@
    &&& r.outcome().plan_contract_id is None
    &&& !no_errors(findings) ==> (r matches CapabilityResult::Failure { diagnostics, .. } && diagnostics@ == sort_diagnostics(findings))
    &&& !no_errors(findings) ==> nothing_matched(r.outcome())
    &&& no_errors(findings) ==> {
        let miss = r.outcome().missing_mandatory@.map_values(|s: String| s@);
        let sat = r.outcome().satisfied@.map_values(|s: String| s@);
        let all = sort_diagnostics(findings + version_warning(profile.dpcs_version@, None)
            + missing_views(Some(req), miss));
        &&& strictly_sorted(sat)
        &&& sat.to_set() == demand(Some(req)).intersect(supply(profile))
        &&& strictly_sorted(miss)
        &&& miss.to_set() == demand(Some(req)).difference(supply(profile))
        &&& r.outcome().unsupported_optional@.map_values(|s: String| s@)
            == unused_optional(profile, demand(Some(req)), profile.capabilities@.len() as int)
        &&& diag_views(r.outcome().diagnostics@) == with_severity(all, Severity::Warning)
        &&& (r is Success) == (miss.len() == 0)
        &&& (r is Success) == demand(Some(req)).subset_of(supply(profile))
        &&& r matches CapabilityResult::Failure { diagnostics, .. } ==> diagnostics@ == all
    }
}

/// Evaluating a plan, and evaluating the execution requirements it declares,
/// against the same profile agree: both match or both fail, with the same
/// satisfied, missing and unused optional capabilities.
pub proof fn law_requirements_agree_with_plan(plan: PipelinePlan, req: ExecutionRequirements, profile: CapabilityProfile,
    findings: Seq<DiagnosticView>, a: CapabilityResult, b: CapabilityResult)
    requires
        plan.execution == Some(req),
        evaluated(plan, profile, findings, a),
        requirements_evaluated(req, profile, findings, b),
    ensures
        (a is Success) == (b is Success),
        a.outcome().satisfied@.map_values(|s: String| s@) == b.outcome().satisfied@.map_values(|s: String| s@),
        a.outcome().missing_mandatory@.map_values(|s: String| s@) == b.outcome().missing_mandatory@.map_values(|s: String| s@),
        a.outcome().unsupported_optional@.map_values(|s: String| s@) == b.outcome().unsupported_optional@.map_values(|s: String| s@),
{
    if no_errors(findings) {
        lemma_sorted_set_unique(a.outcome().satisfied@.map_values(|s: String| s@), b.outcome().satisfied@.map_values(|s: String| s@));
        lemma_sorted_set_unique(a.outcome().missing_mandatory@.map_values(|s: String| s@),
            b.outcome().missing_mandatory@.map_values(|s: String| s@));
    } else {
        assert(a.outcome().satisfied@.map_values(|s: String| s@) =~= b.outcome().satisfied@.map_values(|s: String| s@));
        assert(a.outcome().missing_mandatory@.map_values(|s: String| s@) =~= b.outcome().missing_mandatory@.map_values(|s: String| s@));
        assert(a.outcome().unsupported_optional@.map_values(|s: String| s@) =~= b.outcome().unsupported_optional@.map_values(|s: String| s@));
    }
}

/// Evaluate declared execution requirements against a capability profile
/// whose validation report is `profile_findings` (no plan version check).
pub fn evaluate_requirements(
    requirements: &ExecutionRequirements,
    profile: &CapabilityProfile,
    profile_findings: ValidationReport,
) -> (r: CapabilityResult)
    ensures
        requirements_evaluated(*requirements, *profile, profile_findings@, r),
{
    match_requirements(Some(requirements), profile, profile_findings, None, None)
}

/// Ranking tier: 0 for a match, 1 for a failure.
pub open spec fn tier(r: CapabilityResult) -> int {
    match r {
        CapabilityResult::Success(_) => 0,
        CapabilityResult::Failure { .. } => 1,
    }
}

/// `a` ranks no later than `b`: better tier, then fewer missing
/// mandatories, then more satisfied capabilities, then profile identity.
pub open spec fn ranks_before(a: (String, CapabilityResult), b: (String, CapabilityResult)) -> bool {
    let (ta, tb) = (tier(a.1), tier(b.1));
    let (ma, mb) = (a.1.outcome().missing_mandatory@.len(), b.1.outcome().missing_mandatory@.len());
    let (sa, sb) = (a.1.outcome().satisfied@.len(), b.1.outcome().satisfied@.len());
    if ta != tb {
        ta < tb
    } else if ma != mb {
        ma < mb
    } else if sa != sb {
        sa > sb
    } else {
        crate::text::compare(a.0@, b.0@) <= 0
    }
}

fn tier_exec(r: &CapabilityResult) -> (t: u8)
    ensures
        t as int == tier(*r),
{
    match r {
        CapabilityResult::Success(_) => 0,
        CapabilityResult::Failure { .. } => 1,
    }
}

fn ranks_before_exec(a: &(String, CapabilityResult), b: &(String, CapabilityResult)) -> (r: bool)
    ensures
        r == ranks_before(*a, *b),
{
    let (ta, tb) = (tier_exec(&a.1), tier_exec(&b.1));
    let (ra, rb) = (a.1.as_capability_report(), b.1.as_capability_report());
    let (ma, mb) = (ra.missing_mandatory.len(), rb.missing_mandatory.len());
    let (sa, sb) = (ra.satisfied.len(), rb.satisfied.len());
    if ta != tb {
        ta < tb
    } else if ma != mb {
        ma < mb
    } else if sa != sb {
        sa > sb
    } else {
        crate::text::compare_str(a.0.as_str(), b.0.as_str()) <= 0
    }
}

proof fn lemma_ranks_total(a: (String, CapabilityResult), b: (String, CapabilityResult))
    ensures
        ranks_before(a, b) || ranks_before(b, a),
{
    crate::text::lemma_compare_antisym(a.0@, b.0@);
}

proof fn lemma_ranks_trans(a: (String, CapabilityResult), b: (String, CapabilityResult), c: (String, CapabilityResult))
    requires
        ranks_before(a, b),
        ranks_before(b, c),
    ensures
        ranks_before(a, c),
{
    if tier(a.1) == tier(b.1) && tier(b.1) == tier(c.1) {
        let (ma, mb, mc) = (a.1.outcome().missing_mandatory@.len(), b.1.outcome().missing_mandatory@.len(), c.1.outcome().missing_mandatory@.len());
        let (sa, sb, sc) = (a.1.outcome().satisfied@.len(), b.1.outcome().satisfied@.len(), c.1.outcome().satisfied@.len());
        if ma == mb && mb == mc && sa == sb && sb == sc {
            crate::text::lemma_compare_le_trans(a.0@, b.0@, c.0@);
        }
    }
}

/// Entries in ranking order.
pub open spec fn ranked(s: Seq<(String, CapabilityResult)>) -> bool {
    forall|i: int, j: int| 0 <= i < j < s.len() ==> ranks_before(#[trigger] s[i], #[trigger] s[j])
}

/// Entry `i` of `r` is the evaluation of profile `src[i]`, and `src` names
/// each profile once.
pub open spec fn from_profiles(src: Seq<int>, r: Seq<(String, CapabilityResult)>, plan: PipelinePlan,
    profiles: Seq<CapabilityProfile>, findings: Seq<ValidationReport>) -> bool {
    &&& src.len() == r.len()
    &&& forall|i: int| 0 <= i < src.len() ==> 0 <= #[trigger] src[i] < profiles.len()
    &&& forall|i: int, j: int| 0 <= i < j < src.len() ==> #[trigger] src[i] != #[trigger] src[j]
    &&& forall|i: int| 0 <= i < src.len() ==> #[trigger] r[i].0@ == profiles[src[i]].identity@
        && evaluated(plan, profiles[src[i]], findings[src[i]]@, r[i].1)
}

proof fn lemma_src_insert(
    before: Seq<(String, CapabilityResult)>,
    old_src: Seq<int>,
    j: int,
    entry: (String, CapabilityResult),
    k: int,
    plan: PipelinePlan,
    profiles: Seq<CapabilityProfile>,
    orig: Seq<ValidationReport>,
)
    requires
        0 <= j <= before.len(),
        0 <= k < profiles.len(),
        from_profiles(old_src, before, plan, profiles, orig),
        forall|i: int| 0 <= i < old_src.len() ==> k < #[trigger] old_src[i],
        kept_order(old_src, before),
        forall|m: int| 0 <= m < j ==> !ranks_before(entry, #[trigger] before[m]),
        entry.0@ == profiles[k].identity@,
        evaluated(plan, profiles[k], orig[k]@, entry.1),
    ensures
        from_profiles(old_src.insert(j, k), before.insert(j, entry), plan, profiles, orig),
        forall|i: int| 0 <= i < old_src.len() + 1 ==> k <= #[trigger] old_src.insert(j, k)[i],
        kept_order(old_src.insert(j, k), before.insert(j, entry)),
{
    let src = old_src.insert(j, k);
    let out = before.insert(j, entry);
    assert forall|i: int| 0 <= i < src.len() implies k <= #[trigger] src[i] && 0 <= src[i] < profiles.len() by {
        if i < j { assert(src[i] == old_src[i]); } else if i > j { assert(src[i] == old_src[i - 1]); }
    }
    assert forall|a: int, b: int| 0 <= a < b < src.len() implies #[trigger] src[a] != #[trigger] src[b] by {
        if a < j && b < j {
        } else if a < j && b == j {
            assert(src[a] == old_src[a]);
        } else if a < j {
            assert(src[a] == old_src[a]); assert(src[b] == old_src[b - 1]);
        } else if a == j {
            assert(src[b] == old_src[b - 1]);
        } else {
            assert(src[a] == old_src[a - 1]); assert(src[b] == old_src[b - 1]);
        }
    }
    assert forall|i: int| 0 <= i < src.len() implies #[trigger] out[i].0@ == profiles[src[i]].identity@
        && evaluated(plan, profiles[src[i]], orig[src[i]]@, out[i].1) by {
        if i < j {
            assert(out[i] == before[i]); assert(src[i] == old_src[i]);
        } else if i > j {
            assert(out[i] == before[i - 1]); assert(src[i] == old_src[i - 1]);
        }
    }
    assert(from_profiles(src, out, plan, profiles, orig));
    assert forall|a: int, b: int| 0 <= a < b < out.len() && ranks_before(#[trigger] out[b], #[trigger] out[a])
        implies src[a] < src[b] by {
        if a < j && b == j {
            assert(out[a] == before[a]);
            assert(!ranks_before(entry, before[a]));
        } else if a < j && b > j {
            assert(out[a] == before[a]); assert(out[b] == before[b - 1]);
            assert(src[a] == old_src[a]); assert(src[b] == old_src[b - 1]);
        } else if a < j {
            assert(out[a] == before[a]); assert(out[b] == before[b]);
            assert(src[a] == old_src[a]); assert(src[b] == old_src[b]);
        } else if a == j {
            assert(src[b] == old_src[b - 1]);
        } else {
            assert(out[a] == before[a - 1]); assert(out[b] == before[b - 1]);
            assert(src[a] == old_src[a - 1]); assert(src[b] == old_src[b - 1]);
        }
    }
}

/// Entries that rank alike keep the order of their profiles.
pub open spec fn kept_order(src: Seq<int>, r: Seq<(String, CapabilityResult)>) -> bool {
    forall|a: int, b: int| 0 <= a < b < r.len() && ranks_before(#[trigger] r[b], #[trigger] r[a]) ==> src[a] < src[b]
}

/// Evaluate a plan against several profiles (each with its validation
/// report) and rank the outcomes: successful matches first, then fewer
/// missing mandatory capabilities, then more satisfied ones, then profile
/// identity. Each entry pairs a profile identity with that profile's result.
pub fn evaluate_many(
    plan: &PipelinePlan,
    profiles: &Vec<CapabilityProfile>,
    profile_findings: Vec<ValidationReport>,
) -> (r: Vec<(String, CapabilityResult)>)
    requires
        profile_findings@.len() == profiles@.len(),
    ensures
        r@.len() == profiles@.len(),
        ranked(r@),
        r@.map_values(|e: (String, CapabilityResult)| e.0@).to_multiset()
            == profiles@.map_values(|p: CapabilityProfile| p.identity@).to_multiset(),
        forall|i: int| 0 <= i < r@.len() ==> (#[trigger] r@[i]).1.outcome().profile_identity@ == r@[i].0@,
        exists|src: Seq<int>| #[trigger] from_profiles(src, r@, *plan, profiles@, profile_findings@) && kept_order(src, r@),
{
    broadcast use vstd::seq_lib::group_to_multiset_ensures;
    let ghost orig = profile_findings@;
    let mut findings = profile_findings;
    let mut out: Vec<(String, CapabilityResult)> = Vec::new();
    let mut k: usize = profiles.len();
    let ghost ids = profiles@.map_values(|p: CapabilityProfile| p.identity@);
    let ghost mut src: Seq<int> = Seq::empty();
    assert(out@.map_values(|e: (String, CapabilityResult)| e.0@) =~= ids.skip(k as int));
    assert(findings@ =~= orig.take(k as int));
    while k > 0
        invariant
            k <= profiles@.len(),
            orig.len() == profiles@.len(),
            findings@ == orig.take(k as int),
            out@.len() == profiles@.len() - k,
            ids == profiles@.map_values(|p: CapabilityProfile| p.identity@),
            ranked(out@),
            out@.map_values(|e: (String, CapabilityResult)| e.0@).to_multiset() == ids.skip(k as int).to_multiset(),
            forall|i: int| 0 <= i < out@.len() ==> (#[trigger] out@[i]).1.outcome().profile_identity@ == out@[i].0@,
            from_profiles(src, out@, *plan, profiles@, orig),
            forall|i: int| 0 <= i < src.len() ==> k <= #[trigger] src[i],
            kept_order(src, out@),
        decreases k,
    {
        k -= 1;
        let ghost fs = findings@;
        let f = findings.pop().unwrap();
        assert(f == orig[k as int]) by { assert(fs[k as int] == orig.take(k + 1)[k as int]); }
        assert(findings@ =~= orig.take(k as int));
        let profile = &profiles[k];
        let entry = (profile.identity.clone(), evaluate(plan, profile, f));
        let mut j: usize = 0;
        while j < out.len() && !ranks_before_exec(&entry, &out[j])
            invariant
                j <= out@.len(),
                forall|m: int| 0 <= m < j ==> !ranks_before(entry, #[trigger] out@[m]),
            decreases out.len() - j,
        {
            j += 1;
        }
        proof {
            assert forall|m: int| 0 <= m < j implies ranks_before(#[trigger] out@[m], entry) by {
                lemma_ranks_total(out@[m], entry);
            }
            if j < out@.len() {
                assert forall|m: int| j <= m < out@.len() implies ranks_before(entry, #[trigger] out@[m]) by {
                    if m > j {
                        lemma_ranks_trans(entry, out@[j as int], out@[m]);
                    }
                }
            }
        }
        let ghost before = out@;
        out.insert(j, entry);
        proof {
            assert(out@ =~= before.insert(j as int, entry));
            assert forall|a: int, b: int| 0 <= a < b < out@.len() implies ranks_before(#[trigger] out@[a], #[trigger] out@[b]) by {
                if a < j && b > j {
                    assert(out@[b] == before[b - 1]);
                } else if a > j {
                    assert(out@[a] == before[a - 1]);
                    assert(out@[b] == before[b - 1]);
                } else if a == j {
                    assert(out@[b] == before[b - 1]);
                }
            }
            let bm = before.map_values(|e: (String, CapabilityResult)| e.0@);
            assert(entry.0@ == ids[k as int]);
            assert(out@.map_values(|e: (String, CapabilityResult)| e.0@) =~= bm.insert(j as int, ids[k as int]));
            assert(ids.skip(k as int) =~= ids.skip(k + 1).insert(0, ids[k as int]));
            assert(bm.len() == before.len());
            vstd::seq_lib::to_multiset_insert(bm, j as int, ids[k as int]);
            vstd::seq_lib::to_multiset_insert(ids.skip(k + 1), 0, ids[k as int]);
            assert forall|i: int| 0 <= i < out@.len() implies (#[trigger] out@[i]).1.outcome().profile_identity@ == out@[i].0@ by {
                if i < j { assert(out@[i] == before[i]); } else if i > j { assert(out@[i] == before[i - 1]); }
            }
            let old_src = src;
            lemma_src_insert(before, old_src, j as int, entry, k as int, *plan, profiles@, orig);
            src = old_src.insert(j as int, k as int);
        }
    }
    assert(ids.skip(0) =~= ids);
    assert(from_profiles(src, out@, *plan, profiles@, orig) && kept_order(src, out@));
    out
}

} // verus!
