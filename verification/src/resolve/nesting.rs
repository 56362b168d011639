//! Decisions of nested-pipeline resolution.
//!
//! Finding files, reading and parsing them is the caller's part. What a step
//! asks for, where its nested contract is looked for, when the search stops,
//! and what a failed or refused nested contract reports are decided here.
use vstd::prelude::*;

use super::{dpcs_reference_type, is_dpcs_reference_type, is_nested_step, looks_like_path, nested_step_type, MAX_NESTING_DEPTH};
use crate::diagnostics::report::{diag_views, no_errors, with_severity};
use crate::diagnostics::{categories, owned, texts, Diagnostic, DiagnosticStage, DiagnosticView, Severity, ValidationReport};
use super::NestedPipeline;
use crate::model::contract::PipelineContract;
use crate::model::extension::ExtensionMap;
use crate::model::lineage::{PipelineLineage, PipelineProvenance};
use crate::model::step::{ContractReference, PipelineStep};
use crate::text::{insert_sorted_unique, strictly_sorted, concat3, contains_char, decimal, is_blank, push_str, str_eq, trim, trim_chars, string_of, chars_of, usize_string};

verus! {

/// Model of a reference-resolution finding.
pub open spec fn reference_view(id: Seq<char>, message: Seq<char>, object_ref: Seq<char>) -> DiagnosticView {
    DiagnosticView {
        object_ref: Some(object_ref),
        ..Diagnostic::fresh(id, Severity::Error, DiagnosticStage::Validation, "reference"@, message)
    }
}

fn reference_diag(id: &str, message: String, object_ref: String) -> (r: Diagnostic)
    ensures
        r@ == reference_view(id@, message@, object_ref@),
{
    proof { reveal_strlit("reference"); }
    Diagnostic::error(id, categories::REFERENCE, message).with_object_ref(object_ref)
}

/// `contractReferences[i].location`.
pub open spec fn location_ref(i: int) -> Seq<char> {
    "contractReferences["@ + decimal(i as nat) + "].location"@
}

fn location_ref_exec(i: usize) -> (r: String)
    ensures
        r@ == location_ref(i as int),
{
    concat3("contractReferences[", usize_string(i).as_str(), "].location")
}

/// `steps.<id>.contractRef`.
pub open spec fn step_ref(step_id: Seq<char>) -> Seq<char> {
    "steps."@ + step_id + ".contractRef"@
}

fn step_ref_exec(step_id: &str) -> (r: String)
    ensures
        r@ == step_ref(step_id@),
{
    concat3("steps.", step_id, ".contractRef")
}

/// A nested DPCS reference whose location could not be found.
pub open spec fn unresolved_view(reference: ContractReference, index: int) -> DiagnosticView {
    DiagnosticView {
        remediation: Some("Provide a readable nested DPCS document under the contract directory or package root"@),
        ..reference_view("DPCS-REF-007"@, "contract reference `"@ + reference.id@ + "` location `"@
            + trim(reference.location@) + "` could not be resolved"@, location_ref(index))
    }
}

/// The finding for a nested DPCS reference (at position `index`) whose
/// location could not be found.
pub fn reference_unresolved(reference: &ContractReference, index: usize) -> (r: Diagnostic)
    ensures
        r@ == unresolved_view(*reference, index as int),
{
    let location = string_of(&trim_chars(&chars_of(reference.location.as_str())));
    let mut m = concat3("contract reference `", reference.id.as_str(), "` location `");
    push_str(&mut m, location.as_str());
    push_str(&mut m, "` could not be resolved");
    reference_diag("DPCS-REF-007", m, location_ref_exec(index)).with_remediation(
        owned("Provide a readable nested DPCS document under the contract directory or package root"))
}

/// A nested DPCS reference found at `path` that does not load as a Pipeline
/// Contract.
pub open spec fn unloadable_view(reference: ContractReference, path: Seq<char>, message: Seq<char>, index: int) -> DiagnosticView {
    DiagnosticView {
        remediation: Some("Ensure the location points to a valid DPCS YAML/JSON document"@),
        ..reference_view("DPCS-REF-007"@, "contract reference `"@ + reference.id@ + "` resolves to `"@ + path
            + "` but could not be loaded as a Pipeline Contract: "@ + message, location_ref(index))
    }
}

/// The finding for a nested DPCS reference (at position `index`) found at
/// `path` that failed to load with `message`.
pub fn reference_unloadable(reference: &ContractReference, path: &str, message: &str, index: usize) -> (r: Diagnostic)
    ensures
        r@ == unloadable_view(*reference, path@, message@, index as int),
{
    let mut m = concat3("contract reference `", reference.id.as_str(), "` resolves to `");
    push_str(&mut m, path);
    push_str(&mut m, "` but could not be loaded as a Pipeline Contract: ");
    push_str(&mut m, message);
    reference_diag("DPCS-REF-007", m, location_ref_exec(index)).with_remediation(
        owned("Ensure the location points to a valid DPCS YAML/JSON document"))
}

/// A reference whose registry base URL is not a valid URL.
pub open spec fn registry_base_invalid_view(reference: ContractReference, message: Seq<char>, index: int) -> DiagnosticView {
    reference_view("DPCS-REF-007"@, "contract reference `"@ + reference.id@ + "`: invalid registry base URL: "@ + message,
        location_ref(index))
}

/// The finding for a reference (at position `index`) that could not be
/// fetched because the registry base URL is invalid (`message` says why).
pub fn registry_base_invalid(reference: &ContractReference, message: &str, index: usize) -> (r: Diagnostic)
    ensures
        r@ == registry_base_invalid_view(*reference, message@, index as int),
{
    let mut m = concat3("contract reference `", reference.id.as_str(), "`: invalid registry base URL: ");
    push_str(&mut m, message);
    reference_diag("DPCS-REF-007", m, location_ref_exec(index))
}

/// A reference fetched from the registry whose content could not be stored.
pub open spec fn registry_cache_failed_view(reference: ContractReference, message: Seq<char>, index: int) -> DiagnosticView {
    reference_view("DPCS-REF-007"@, "contract reference `"@ + reference.id@ + "`: failed to cache registry artifact: "@
        + message, location_ref(index))
}

/// The finding for a reference (at position `index`) fetched from the
/// registry whose content could not be stored (`message` says why).
pub fn registry_cache_failed(reference: &ContractReference, message: &str, index: usize) -> (r: Diagnostic)
    ensures
        r@ == registry_cache_failed_view(*reference, message@, index as int),
{
    let mut m = concat3("contract reference `", reference.id.as_str(), "`: failed to cache registry artifact: ");
    push_str(&mut m, message);
    reference_diag("DPCS-REF-007", m, location_ref_exec(index))
}

/// Index of the last reference before `n` with this id (the one a lookup by
/// id finds).
pub open spec fn last_reference(refs: Seq<ContractReference>, id: Seq<char>, n: int) -> Option<int>
    decreases n,
{
    if n <= 0 {
        None
    } else if refs[n - 1].id@ == id {
        Some(n - 1)
    } else {
        last_reference(refs, id, n - 1)
    }
}

/// Index of the first reference before `n` with this id.
pub open spec fn first_reference(refs: Seq<ContractReference>, id: Seq<char>, n: int) -> Option<int>
    decreases n,
{
    if n <= 0 {
        None
    } else {
        match first_reference(refs, id, n - 1) {
            Some(k) => Some(k),
            None => if refs[n - 1].id@ == id { Some(n - 1) } else { None },
        }
    }
}

proof fn lemma_first_reference_stable(refs: Seq<ContractReference>, id: Seq<char>, m: int, n: int)
    requires
        0 <= m <= n,
        first_reference(refs, id, m) is Some,
    ensures
        first_reference(refs, id, n) == first_reference(refs, id, m),
    decreases n - m,
{
    if n > m {
        lemma_first_reference_stable(refs, id, m, n - 1);
    }
}

/// A reference found by id lies within the references searched.
pub proof fn lemma_last_reference_bound(refs: Seq<ContractReference>, id: Seq<char>, n: int)
    requires
        n <= refs.len(),
        last_reference(refs, id, n) is Some,
    ensures
        0 <= last_reference(refs, id, n)->0 < n,
    decreases n,
{
    if n > 0 && refs[n - 1].id@ != id {
        lemma_last_reference_bound(refs, id, n - 1);
    }
}

proof fn lemma_last_implies_first(refs: Seq<ContractReference>, id: Seq<char>, n: int)
    requires
        last_reference(refs, id, n) is Some,
    ensures
        first_reference(refs, id, n) is Some,
    decreases n,
{
    if n > 0 && refs[n - 1].id@ != id {
        lemma_last_implies_first(refs, id, n - 1);
        lemma_first_reference_stable(refs, id, n - 1, n);
    } else if n > 0 {
        if first_reference(refs, id, n - 1) is None {
        } else {
        }
    }
}

fn last_reference_exec(refs: &Vec<ContractReference>, id: &str) -> (r: Option<usize>)
    ensures
        match r {
            Some(k) => k < refs@.len() && last_reference(refs@, id@, refs@.len() as int) == Some(k as int),
            None => last_reference(refs@, id@, refs@.len() as int) is None,
        },
{
    let mut i: usize = refs.len();
    while i > 0
        invariant
            i <= refs@.len(),
            last_reference(refs@, id@, refs@.len() as int) == last_reference(refs@, id@, i as int),
        decreases i,
    {
        if str_eq(refs[i - 1].id.as_str(), id) {
            return Some(i - 1);
        }
        i -= 1;
    }
    None
}

fn first_reference_exec(refs: &Vec<ContractReference>, id: &str) -> (r: Option<usize>)
    ensures
        match r {
            Some(k) => k < refs@.len() && first_reference(refs@, id@, refs@.len() as int) == Some(k as int),
            None => first_reference(refs@, id@, refs@.len() as int) is None,
        },
{
    let mut k: usize = 0;
    while k < refs.len()
        invariant
            k <= refs@.len(),
            first_reference(refs@, id@, k as int) is None,
        decreases refs.len() - k,
    {
        if str_eq(refs[k].id.as_str(), id) {
            proof { lemma_first_reference_stable(refs@, id@, k as int + 1, refs@.len() as int); }
            return Some(k);
        }
        k += 1;
    }
    None
}

/// Whether a step names a nested pipeline: it has a `contractRef`, and the
/// reference with that id (when there is one) has a DPCS type, or else the
/// step's own type is a nested-pipeline type.
pub open spec fn wants_nested(parent: PipelineContract, step: PipelineStep) -> bool {
    match step.contract_ref {
        None => false,
        Some(cr) => match last_reference(parent.contract_references@, cr@, parent.contract_references@.len() as int) {
            Some(k) => dpcs_reference_type(parent.contract_references@[k].reference_type@),
            None => nested_step_type(step.step_type@),
        },
    }
}

/// Where a step's nested contract is looked for.
#[derive(Debug, Clone, Copy, PartialEq, Eq, Structural)]
pub enum NestedSource {
    /// The location already resolved for the reference named by the step.
    Located,
    /// Search for the reference at position `reference` (reported as the
    /// reference at position `index`, the first with its id).
    Locate {
        /// Position of the reference to search for.
        reference: usize,
        /// Position used in findings.
        index: usize,
    },
    /// The step's `contractRef` as a local path.
    LocalPath,
}

/// The finding for a step nested too deep.
pub open spec fn too_deep_view(step_id: Seq<char>) -> DiagnosticView {
    reference_view("DPCS-REF-008"@, "nested pipeline depth exceeds limit ("@ + decimal(MAX_NESTING_DEPTH as nat)
        + ") at step `"@ + step_id + "`"@, step_ref(step_id))
}

/// Decide what a step at nesting `depth` asks for. A step that names no
/// nested pipeline asks for nothing; at the depth limit it is refused with a
/// finding; otherwise its contract is taken from the location already
/// resolved for its reference (`located`), searched for by its reference, or
/// read from its `contractRef` when that is a path — and when it is none of
/// these, nothing is loaded.
pub fn nested_step_plan(parent: &PipelineContract, step: &PipelineStep, depth: usize, located: bool)
    -> (r: Result<Option<NestedSource>, Diagnostic>)
    ensures
        !wants_nested(*parent, *step) ==> r == Ok::<Option<NestedSource>, Diagnostic>(None),
        wants_nested(*parent, *step) && depth >= MAX_NESTING_DEPTH ==> (r matches Err(d) && d@ == too_deep_view(step.id@)),
        wants_nested(*parent, *step) && depth < MAX_NESTING_DEPTH ==> {
            let refs = parent.contract_references@;
            let cr = step.contract_ref->0@;
            if located {
                r == Ok::<Option<NestedSource>, Diagnostic>(Some(NestedSource::Located))
            } else {
                match last_reference(refs, cr, refs.len() as int) {
                    Some(k) => r matches Ok(Some(NestedSource::Locate { reference, index }))
                        && reference == k && first_reference(refs, cr, refs.len() as int) == Some(index as int),
                    None => if contains_char(cr, '/') {
                        r == Ok::<Option<NestedSource>, Diagnostic>(Some(NestedSource::LocalPath))
                    } else {
                        r == Ok::<Option<NestedSource>, Diagnostic>(None)
                    },
                }
            }
        },
{
    let cr = match &step.contract_ref {
        None => return Ok(None),
        Some(c) => c,
    };
    let refs = &parent.contract_references;
    let found = last_reference_exec(refs, cr.as_str());
    let wants = match found {
        Some(k) => is_dpcs_reference_type(refs[k].reference_type.as_str()),
        None => is_nested_step(step),
    };
    if !wants {
        return Ok(None);
    }
    if depth >= MAX_NESTING_DEPTH {
        let mut m = concat3("nested pipeline depth exceeds limit (", usize_string(MAX_NESTING_DEPTH).as_str(), ") at step `");
        push_str(&mut m, step.id.as_str());
        push_str(&mut m, "`");
        return Err(reference_diag("DPCS-REF-008", m, step_ref_exec(step.id.as_str())));
    }
    if located {
        return Ok(Some(NestedSource::Located));
    }
    match found {
        Some(k) => {
            proof { lemma_last_implies_first(refs@, cr@, refs@.len() as int); }
            let index = match first_reference_exec(refs, cr.as_str()) {
                Some(i) => i,
                None => 0,
            };
            Ok(Some(NestedSource::Locate { reference: k, index }))
        },
        None => {
            if looks_like_path(cr.as_str()) {
                Ok(Some(NestedSource::LocalPath))
            } else {
                Ok(None)
            }
        },
    }
}

/// Identifiers of the findings of severity error.
pub open spec fn error_ids(ds: Seq<DiagnosticView>) -> Seq<Seq<char>> {
    with_severity(ds, Severity::Error).map_values(|d: DiagnosticView| d.id)
}

/// What a loaded (or unloadable) nested contract reports, if it is refused:
/// a load failure; a contract without a stable identity; a contract among the
/// ancestors of the step (a cycle); or a contract that does not validate, in
/// which case its own findings follow.
pub open spec fn nested_refusal(
    step_id: Seq<char>,
    path: Seq<char>,
    loaded: Result<PipelineContract, String>,
    ancestors: Seq<Seq<char>>,
    nested_report: Seq<DiagnosticView>,
) -> Option<Seq<DiagnosticView>> {
    match loaded {
        Err(message) => Some(seq![reference_view("DPCS-REF-007"@, "step `"@ + step_id + "` nested contract at `"@ + path
            + "` could not be loaded: "@ + message@, step_ref(step_id))]),
        Ok(c) => if trim(c.id@).len() == 0 {
            Some(seq![reference_view("DPCS-REF-008"@, "nested pipeline for step `"@ + step_id
                + "` is missing a stable identity"@, step_ref(step_id))])
        } else if ancestors.contains(c.id@) {
            Some(seq![DiagnosticView {
                remediation: Some("Remove cyclic nested Pipeline Contract references"@),
                ..reference_view("DPCS-REF-008"@, "nested pipeline cycle detected involving `"@ + c.id@ + "` (step `"@
                    + step_id + "`)"@, step_ref(step_id))
            }])
        } else if !no_errors(nested_report) {
            Some(seq![DiagnosticView {
                remediation: Some("Fix validation errors in the nested Pipeline Contract"@),
                related_diagnostics: error_ids(nested_report),
                ..reference_view("DPCS-REF-008"@, "nested pipeline `"@ + c.id@ + "` referenced by step `"@ + step_id
                    + "` failed validation"@, step_ref(step_id))
            }] + nested_report)
        } else {
            None
        }
    }
}

fn contains_id(ids: &Vec<String>, id: &str) -> (r: bool)
    ensures
        r == texts(ids@).contains(id@),
{
    let mut i: usize = 0;
    while i < ids.len()
        invariant
            i <= ids@.len(),
            forall|k: int| 0 <= k < i ==> ids@[k]@ != id@,
        decreases ids.len() - i,
    {
        if str_eq(ids[i].as_str(), id) {
            assert(texts(ids@)[i as int] == id@);
            return true;
        }
        i += 1;
    }
    assert forall|k: int| 0 <= k < texts(ids@).len() implies texts(ids@)[k] != id@ by {
        assert(texts(ids@)[k] == ids@[k]@);
    }
    false
}

pub(crate) fn error_ids_exec(report: &ValidationReport) -> (r: Vec<String>)
    ensures
        texts(r@) == error_ids(report@),
{
    let errors = report.errors();
    let mut out: Vec<String> = Vec::new();
    let mut i: usize = 0;
    while i < errors.len()
        invariant
            i <= errors@.len(),
            diag_views(errors@) == with_severity(report@, Severity::Error),
            texts(out@) == diag_views(errors@).take(i as int).map_values(|d: DiagnosticView| d.id),
        decreases errors.len() - i,
    {
        let ghost before = out@;
        let ghost views = diag_views(errors@);
        out.push(errors[i].id.clone());
        assert(texts(out@) =~= texts(before).push(errors@[i as int].id@));
        assert(views.take(i + 1).map_values(|d: DiagnosticView| d.id)
            =~= views.take(i as int).map_values(|d: DiagnosticView| d.id).push(views[i as int].id));
        i += 1;
    }
    assert(diag_views(errors@).take(errors@.len() as int) =~= diag_views(errors@));
    out
}

/// Judge a nested contract loaded for step `step` from `path`: accepted, or
/// refused with the findings to report. `ancestors` are the identities of
/// the contracts enclosing the step; `nested_report` is the nested
/// contract's own validation report (read only when it loaded with an
/// identity that closes no cycle).
pub fn check_nested_contract(
    step: &PipelineStep,
    path: &str,
    loaded: &Result<PipelineContract, String>,
    ancestors: &Vec<String>,
    nested_report: &ValidationReport,
) -> (r: Result<(), ValidationReport>)
    ensures
        match nested_refusal(step.id@, path@, *loaded, texts(ancestors@), nested_report@) {
            None => r is Ok,
            Some(ds) => r matches Err(rep) && rep@ == ds,
        },
{
    let mut report = ValidationReport::new();
    let at = step_ref_exec(step.id.as_str());
    match loaded {
        Err(message) => {
            let mut m = concat3("step `", step.id.as_str(), "` nested contract at `");
            push_str(&mut m, path);
            push_str(&mut m, "` could not be loaded: ");
            push_str(&mut m, message.as_str());
            report.push(reference_diag("DPCS-REF-007", m, at));
            assert(report@ =~= nested_refusal(step.id@, path@, *loaded, texts(ancestors@), nested_report@)->0);
            Err(report)
        },
        Ok(c) => {
            if is_blank(c.id.as_str()) {
                let m = concat3("nested pipeline for step `", step.id.as_str(), "` is missing a stable identity");
                report.push(reference_diag("DPCS-REF-008", m, at));
                assert(report@ =~= nested_refusal(step.id@, path@, *loaded, texts(ancestors@), nested_report@)->0);
                return Err(report);
            }
            if contains_id(ancestors, c.id.as_str()) {
                let mut m = concat3("nested pipeline cycle detected involving `", c.id.as_str(), "` (step `");
                push_str(&mut m, step.id.as_str());
                push_str(&mut m, "`)");
                report.push(reference_diag("DPCS-REF-008", m, at)
                    .with_remediation(owned("Remove cyclic nested Pipeline Contract references")));
                assert(report@ =~= nested_refusal(step.id@, path@, *loaded, texts(ancestors@), nested_report@)->0);
                return Err(report);
            }
            if !nested_report.is_valid() {
                let mut m = concat3("nested pipeline `", c.id.as_str(), "` referenced by step `");
                push_str(&mut m, step.id.as_str());
                push_str(&mut m, "` failed validation");
                let related = error_ids_exec(nested_report);
                let d = reference_diag("DPCS-REF-008", m, at).with_related(related)
                    .with_remediation(owned("Fix validation errors in the nested Pipeline Contract"));
                report.push(d);
                let mut nested = ValidationReport::new();
                nested.extend(clone_report(nested_report));
                report.extend(nested);
                assert(report@ =~= nested_refusal(step.id@, path@, *loaded, texts(ancestors@), nested_report@)->0);
                return Err(report);
            }
            Ok(())
        },
    }
}

fn clone_report(r: &ValidationReport) -> (out: ValidationReport)
    ensures
        out@ == r@,
{
    let mut diagnostics: Vec<Diagnostic> = Vec::new();
    let mut i: usize = 0;
    while i < r.diagnostics.len()
        invariant
            i <= r.diagnostics@.len(),
            diag_views(diagnostics@) == diag_views(r.diagnostics@).take(i as int),
        decreases r.diagnostics.len() - i,
    {
        let ghost before = diagnostics@;
        let d = r.diagnostics[i].clone();
        diagnostics.push(d);
        assert(diag_views(diagnostics@) =~= diag_views(before).push(d@));
        assert(diag_views(r.diagnostics@).take(i + 1) =~= diag_views(r.diagnostics@).take(i as int).push(r.diagnostics@[i as int]@));
        i += 1;
    }
    assert(diag_views(r.diagnostics@).take(r.diagnostics@.len() as int) =~= diag_views(r.diagnostics@));
    ValidationReport { diagnostics }
}

/// Identities of the contracts of a forest of nested pipelines, children
/// included.
pub open spec fn tree_ids(ns: Seq<NestedPipeline>) -> Set<Seq<char>>
    decreases ns,
{
    if ns.len() == 0 {
        Set::empty()
    } else {
        let last = ns[ns.len() - 1];
        proof {
            assert(decreases_to!(ns => ns[ns.len() - 1]));
            assert(decreases_to!(ns[ns.len() - 1] => ns[ns.len() - 1].children));
            assert(decreases_to!(ns[ns.len() - 1].children => ns[ns.len() - 1].children@));
        }
        tree_ids(ns.drop_last()) + set![last.contract.id@] + tree_ids(last.children@)
    }
}

fn collect_nested_ids(nested: &Vec<NestedPipeline>, out: &mut Vec<String>)
    requires
        strictly_sorted(texts(old(out)@)),
    ensures
        strictly_sorted(texts(final(out)@)),
        texts(final(out)@).to_set() == texts(old(out)@).to_set() + tree_ids(nested@),
    decreases nested@,
{
    let ghost start = texts(out@).to_set();
    let mut i: usize = 0;
    while i < nested.len()
        invariant
            i <= nested@.len(),
            strictly_sorted(texts(out@)),
            texts(out@).to_set() == start + tree_ids(nested@.take(i as int)),
        decreases nested.len() - i,
    {
        let child = &nested[i];
        insert_sorted_unique(out, child.contract.id.clone());
        proof {
            assert(decreases_to!(nested@ => nested@[i as int]));
            assert(decreases_to!(nested@[i as int] => nested@[i as int].children));
            assert(decreases_to!(nested@[i as int].children => nested@[i as int].children@));
        }
        collect_nested_ids(&child.children, out);
        proof {
            let t = nested@.take(i + 1);
            assert(t.drop_last() =~= nested@.take(i as int));
            assert(t[t.len() - 1] == nested@[i as int]);
            assert(texts(out@).to_set() =~= start + tree_ids(t));
        }
        i += 1;
    }
    assert(nested@.take(nested@.len() as int) =~= nested@);
}

fn empty_provenance() -> (r: PipelineProvenance)
    ensures
        r.originating is None,
        r.parents@.len() == 0,
        r.nested@.len() == 0,
        r.imported@.len() == 0,
        r.version_history@.len() == 0,
        r.extensions.entries@.len() == 0,
{
    PipelineProvenance {
        originating: None,
        parents: Vec::new(),
        nested: Vec::new(),
        imported: Vec::new(),
        version_history: Vec::new(),
        extensions: ExtensionMap::empty(),
    }
}

fn empty_lineage() -> (r: PipelineLineage)
    ensures
        r.datasets@.len() == 0,
        r.steps@.len() == 0,
        r.provenance is None,
        r.audit is None,
        r.extensions.entries@.len() == 0,
{
    PipelineLineage {
        datasets: Vec::new(),
        steps: Vec::new(),
        provenance: None,
        audit: None,
        extensions: ExtensionMap::empty(),
    }
}

fn sorted_copy(v: &Vec<String>) -> (r: Vec<String>)
    ensures
        strictly_sorted(texts(r@)),
        texts(r@).to_set() == texts(v@).to_set(),
{
    let mut out: Vec<String> = Vec::new();
    let mut i: usize = 0;
    while i < v.len()
        invariant
            i <= v@.len(),
            strictly_sorted(texts(out@)),
            texts(out@).to_set() == texts(v@.take(i as int)).to_set(),
        decreases v.len() - i,
    {
        insert_sorted_unique(&mut out, v[i].clone());
        assert(texts(v@.take(i + 1)) =~= texts(v@.take(i as int)).push(v@[i as int]@));
        proof { texts(v@.take(i as int)).lemma_push_to_set_commute(v@[i as int]@); }
        i += 1;
    }
    assert(v@.take(v@.len() as int) =~= v@);
    out
}

/// The lineage `l` is `old` (or an empty lineage) with nested pipelines
/// recorded in its provenance by a parent with identity `parent`.
pub open spec fn provenance_applied(old: Option<PipelineLineage>, l: PipelineLineage, parent: Seq<char>, ns: Seq<NestedPipeline>) -> bool {
    let old_prov = match old {
        Some(ol) => ol.provenance,
        None => None,
    };
    &&& l.provenance matches Some(p) && {
        &&& crate::diagnostics::opt_text(p.originating) == match old_prov {
            Some(op) => if op.originating is Some { crate::diagnostics::opt_text(op.originating) } else { Some(parent) },
            None => Some(parent),
        }
        &&& strictly_sorted(texts(p.nested@))
        &&& texts(p.nested@).to_set() == (match old_prov {
            Some(op) => texts(op.nested@).to_set(),
            None => Set::empty(),
        }) + tree_ids(ns)
        &&& match old_prov {
            Some(op) => p.parents == op.parents && p.imported == op.imported
                && p.version_history == op.version_history && p.extensions == op.extensions,
            None => p.parents@.len() == 0 && p.imported@.len() == 0 && p.version_history@.len() == 0
                && p.extensions.entries@.len() == 0,
        }
    }
    &&& match old {
        Some(ol) => l.datasets == ol.datasets && l.steps == ol.steps && l.audit == ol.audit
            && l.extensions == ol.extensions,
        None => l.datasets@.len() == 0 && l.steps@.len() == 0 && l.audit is None
            && l.extensions.entries@.len() == 0,
    }
}

/// The identities of a nested tree are those of its nodes at every depth:
/// each top-level node's contract id, and every identity below it.
pub proof fn law_tree_ids_cover_every_node(ns: Seq<NestedPipeline>, k: int)
    requires
        0 <= k < ns.len(),
    ensures
        tree_ids(ns).contains(ns[k].contract.id@),
        tree_ids(ns[k].children@).subset_of(tree_ids(ns)),
    decreases ns.len(),
{
    if k < ns.len() - 1 {
        let d = ns.drop_last();
        law_tree_ids_cover_every_node(d, k);
        assert(d[k] == ns[k]);
    }
}

/// `x` is the contract id of node `n` or an identity below it.
pub open spec fn node_holds(n: NestedPipeline, x: Seq<char>) -> bool {
    n.contract.id@ == x || tree_ids(n.children@).contains(x)
}

/// Every identity of a nested tree is the contract id of one of its nodes at
/// some depth.
pub proof fn law_tree_ids_come_from_nodes(ns: Seq<NestedPipeline>, x: Seq<char>)
    requires
        tree_ids(ns).contains(x),
    ensures
        exists|k: int| 0 <= k < ns.len() && #[trigger] node_holds(ns[k], x),
    decreases ns,
{
    let last = ns[ns.len() - 1];
    let d = ns.drop_last();
    if tree_ids(d).contains(x) {
        assert(decreases_to!(ns => d)) by {
            assert(d =~= ns.subrange(0, ns.len() - 1));
        }
        law_tree_ids_come_from_nodes(d, x);
        let k = choose|k: int| 0 <= k < d.len() && #[trigger] node_holds(d[k], x);
        assert(d[k] == ns[k]);
        assert(node_holds(ns[k], x));
    } else {
        assert(node_holds(ns[ns.len() - 1], x));
    }
}

/// After nested pipelines are recorded, the provenance's nested list holds
/// the recorded identities and the contract id of every nested node at every
/// depth, and nothing else.
pub proof fn law_provenance_lists_every_node(old: Option<PipelineLineage>, l: PipelineLineage, parent: Seq<char>,
    ns: Seq<NestedPipeline>, x: Seq<char>)
    requires
        provenance_applied(old, l, parent, ns),
    ensures
        l.provenance matches Some(p) && (texts(p.nested@).contains(x) <==> (
            (old matches Some(ol) && ol.provenance matches Some(op) && texts(op.nested@).contains(x))
            || exists|k: int| 0 <= k < ns.len() && #[trigger] node_holds(ns[k], x))),
{
    let p = l.provenance.unwrap();
    assert(texts(p.nested@).contains(x) <==> texts(p.nested@).to_set().contains(x));
    if tree_ids(ns).contains(x) {
        law_tree_ids_come_from_nodes(ns, x);
    }
    if exists|k: int| 0 <= k < ns.len() && #[trigger] node_holds(ns[k], x) {
        let k = choose|k: int| 0 <= k < ns.len() && #[trigger] node_holds(ns[k], x);
        law_tree_ids_cover_every_node(ns, k);
    }
    match old {
        Some(ol) => match ol.provenance {
            Some(op) => {
                assert(texts(op.nested@).contains(x) <==> texts(op.nested@).to_set().contains(x));
            },
            None => {},
        },
        None => {},
    }
}

/// Record nested pipelines in a parent's lineage provenance: the parent
/// becomes the originating contract unless one is recorded, and the nested
/// list becomes the sorted, duplicate-free union of the recorded identities
/// and those of every nested contract (children included). With no nested
/// pipelines the lineage is left as it is.
pub fn apply_nested_provenance(lineage: &mut Option<PipelineLineage>, parent_id: &str, nested: &Vec<NestedPipeline>)
    ensures
        nested@.len() == 0 ==> *final(lineage) == *old(lineage),
        nested@.len() > 0 ==> (*final(lineage) matches Some(l) && provenance_applied(*old(lineage), l, parent_id@, nested@)),
{
    if nested.len() == 0 {
        return;
    }
    let mut current: Option<PipelineLineage> = None;
    std::mem::swap(&mut current, lineage);
    let lin = match current {
        Some(l) => l,
        None => empty_lineage(),
    };
    let PipelineLineage { datasets, steps, provenance, audit, extensions } = lin;
    let prov = match provenance {
        Some(p) => p,
        None => empty_provenance(),
    };
    let PipelineProvenance { originating, parents, nested: recorded, imported, version_history, extensions: prov_ext } = prov;
    let originating = match originating {
        Some(o) => Some(o),
        None => Some(String::from_str(parent_id)),
    };
    let mut ids = sorted_copy(&recorded);
    collect_nested_ids(nested, &mut ids);
    proof {
        if recorded@.len() == 0 {
            assert(texts(recorded@).to_set() =~= Set::<Seq<char>>::empty());
        }
    }
    let p = PipelineProvenance { originating, parents, nested: ids, imported, version_history, extensions: prov_ext };
    *lineage = Some(PipelineLineage { datasets, steps, provenance: Some(p), audit, extensions });
}
/// A lineage that records `parent` among the parents of its provenance: the
/// parents become the sorted, duplicate-free union of those recorded and
/// `parent`; everything else is kept (or empty when absent).
pub open spec fn parent_stamped(old: Option<PipelineLineage>, new: Option<PipelineLineage>, parent: Seq<char>) -> bool {
    let old_prov = match old {
        Some(ol) => ol.provenance,
        None => None,
    };
    &&& new matches Some(l) && l.provenance matches Some(p) && {
        &&& strictly_sorted(texts(p.parents@))
        &&& texts(p.parents@).to_set() == (match old_prov {
            Some(op) => texts(op.parents@).to_set(),
            None => Set::empty(),
        }).insert(parent)
        &&& match old_prov {
            Some(op) => p == PipelineProvenance { parents: p.parents, ..op },
            None => p.originating is None && p.nested@.len() == 0 && p.imported@.len() == 0
                && p.version_history@.len() == 0 && p.extensions.entries@.len() == 0,
        }
        &&& match old {
            Some(ol) => l == PipelineLineage { provenance: l.provenance, ..ol },
            None => l.datasets@.len() == 0 && l.steps@.len() == 0 && l.audit is None
                && l.extensions.entries@.len() == 0,
        }
    }
}

/// `new` is the forest `old` with every nested contract's lineage recording
/// its enclosing contract (`parent` for the roots, each node's own identity
/// for its children); nothing else changes.
pub open spec fn stamped(old: Seq<NestedPipeline>, new: Seq<NestedPipeline>, parent: Seq<char>) -> bool
    decreases old,
{
    if old.len() == 0 {
        new.len() == 0
    } else {
        let o = old[old.len() - 1];
        let n = new[new.len() - 1];
        proof {
            assert(decreases_to!(old => old[old.len() - 1]));
            assert(decreases_to!(old[old.len() - 1] => old[old.len() - 1].children));
            assert(decreases_to!(old[old.len() - 1].children => old[old.len() - 1].children@));
        }
        &&& new.len() == old.len()
        &&& stamped(old.drop_last(), new.drop_last(), parent)
        &&& n.parent_step_id == o.parent_step_id
        &&& n.contract_ref == o.contract_ref
        &&& n.contract == PipelineContract { lineage: n.contract.lineage, ..o.contract }
        &&& parent_stamped(o.contract.lineage, n.contract.lineage, parent)
        &&& stamped(o.children@, n.children@, o.contract.id@)
    }
}

fn stamp_lineage(lineage: Option<PipelineLineage>, parent_id: &str) -> (r: Option<PipelineLineage>)
    ensures
        parent_stamped(lineage, r, parent_id@),
{
    let lin = match lineage {
        Some(l) => l,
        None => empty_lineage(),
    };
    let ghost lin0 = lin;
    let mut lin = lin;
    let mut current: Option<PipelineProvenance> = None;
    std::mem::swap(&mut current, &mut lin.provenance);
    let mut prov = match current {
        Some(p) => p,
        None => empty_provenance(),
    };
    let ghost prov0 = prov;
    let mut parents: Vec<String> = Vec::new();
    std::mem::swap(&mut parents, &mut prov.parents);
    let mut sorted = sorted_copy(&parents);
    insert_sorted_unique(&mut sorted, String::from_str(parent_id));
    prov.parents = sorted;
    proof {
        if parents@.len() == 0 {
            assert(texts(parents@).to_set() =~= Set::<Seq<char>>::empty());
        }
    }
    lin.provenance = Some(prov);
    Some(lin)
}

/// Record each nested contract's enclosing contract in its lineage
/// provenance (`parent_id` for the given pipelines, each pipeline's own
/// identity for its children).
pub fn stamp_nested_parents(nested: &mut Vec<NestedPipeline>, parent_id: &str)
    ensures
        stamped(old(nested)@, final(nested)@, parent_id@),
    decreases old(nested)@,
{
    let ghost orig = nested@;
    let n = nested.len();
    let mut todo: Vec<NestedPipeline> = Vec::new();
    std::mem::swap(&mut todo, nested);
    let mut done: Vec<NestedPipeline> = Vec::new();
    let mut i: usize = 0;
    while todo.len() > 0
        invariant
            i <= orig.len(),
            orig.len() == n,
            orig == old(nested)@,
            todo@ == orig.skip(i as int),
            stamped(orig.take(i as int), done@, parent_id@),
        decreases todo.len(),
    {
        let node = todo.remove(0);
        assert(node == orig[i as int]);
        let NestedPipeline { parent_step_id, contract_ref, contract, children } = node;
        let mut contract = contract;
        let mut children = children;
        let mut current: Option<PipelineLineage> = None;
        std::mem::swap(&mut current, &mut contract.lineage);
        contract.lineage = stamp_lineage(current, parent_id);
        proof {
            assert(decreases_to!(orig => orig[i as int]));
            assert(decreases_to!(orig[i as int] => orig[i as int].children));
            assert(decreases_to!(orig[i as int].children => orig[i as int].children@));
            assert(decreases_to!(orig => orig[i as int].children@));
            assert(children@ == orig[i as int].children@);
        }
        let child_id = contract.id.clone();
        stamp_nested_parents(&mut children, child_id.as_str());
        let ghost before = done@;
        done.push(NestedPipeline { parent_step_id, contract_ref, contract, children });
        proof {
            let t = orig.take(i + 1);
            assert(t.drop_last() =~= orig.take(i as int));
            assert(done@.drop_last() =~= before);
            assert(t[t.len() - 1] == orig[i as int]);
            assert(orig.skip(i + 1) =~= orig.skip(i as int).drop_first());
        }
        i += 1;
    }
    assert(orig.take(i as int) =~= orig);
    *nested = done;
}
} // verus!
