//! Deterministic compatibility evaluation.
//!
//! A comparison collects findings section by section, sorts them
//! deterministically, and classifies the change from four observations:
//! whether anything breaks, whether the comparison is only conditionally
//! meaningful, whether content was added, and whether optional content was
//! removed. Version identifiers alone never decide the category.
use vstd::prelude::*;

use crate::diagnostics::report::{diag_views, no_errors, sort_diagnostics};
use crate::diagnostics::{texts, Diagnostic, DiagnosticView, ValidationReport};
use crate::model::contract::PipelineContract;
use crate::model::execution::{ExecutionRequirements, SchedulingIntent};
use crate::model::extension::{ExtensionEntry, ExtensionMap};
use crate::model::failure::FailureSemantics;
use crate::model::graph::{ControlFlow, DataFlow, GraphEdge};
use crate::model::lineage::PipelineLineage;
use crate::model::quality_gate::QualityGate;
use crate::plan::{PipelinePlan, PlanDependencyEdge};
use crate::model::interface::InterfacePort;
use crate::model::step::PipelineStep;
use crate::text::push_str;

use super::fingerprint::{fingerprint_set, same_fingerprint_set, Fingerprint};
use super::sets::{
    additions_between, has_new_entry, has_new_text, removals_between, set_additions, set_removals,
    set_warnings, warnings_between,
};
use super::keyed::{
    additions, additions_of, additive_diag, additive_view, breaking_diag, breaking_view, cat2, cat3, find_last, has_duplicate_keys,
    has_duplicates, has_new, has_new_key, is_last, last_index, lemma_last_index, removals_and_changes,
    removals_and_changes_of, warning_diag, warning_view, when_changed, Compared, Keyed,
};

verus! {

/// Compatibility category between two artifacts.
#[derive(Debug, Clone, Copy, PartialEq, Eq, Structural)]
pub enum CompatibilityCategory {
    /// No semantic differences in considered fields.
    FullyCompatible,
    /// Candidate preserves baseline observable semantics (additive OK).
    BackwardCompatible,
    /// Candidate removes optional content while preserving core semantics.
    ForwardCompatible,
    /// Compatible only under declared conditions / warnings.
    ConditionallyCompatible,
    /// Mandatory observable semantics diverge.
    Incompatible,
}

impl CompatibilityCategory {
    /// Every category but `Incompatible` is a successful match.
    pub open spec fn compatible(self) -> bool {
        self != CompatibilityCategory::Incompatible
    }

    /// Returns `true` when the category is considered a successful match.
    pub fn is_compatible(self) -> (r: bool)
        ensures
            r == self.compatible(),
    {
        !(self == CompatibilityCategory::Incompatible)
    }

    /// Wire-form name of the category.
    pub open spec fn label(self) -> Seq<char> {
        match self {
            CompatibilityCategory::FullyCompatible => "fullyCompatible"@,
            CompatibilityCategory::BackwardCompatible => "backwardCompatible"@,
            CompatibilityCategory::ForwardCompatible => "forwardCompatible"@,
            CompatibilityCategory::ConditionallyCompatible => "conditionallyCompatible"@,
            CompatibilityCategory::Incompatible => "incompatible"@,
        }
    }

    /// Wire-form name of the category.
    pub fn as_str(self) -> (r: &'static str)
        ensures
            r@ == self.label(),
    {
        match self {
            CompatibilityCategory::FullyCompatible => {
                proof { reveal_strlit("fullyCompatible"); }
                "fullyCompatible"
            },
            CompatibilityCategory::BackwardCompatible => {
                proof { reveal_strlit("backwardCompatible"); }
                "backwardCompatible"
            },
            CompatibilityCategory::ForwardCompatible => {
                proof { reveal_strlit("forwardCompatible"); }
                "forwardCompatible"
            },
            CompatibilityCategory::ConditionallyCompatible => {
                proof { reveal_strlit("conditionallyCompatible"); }
                "conditionallyCompatible"
            },
            CompatibilityCategory::Incompatible => {
                proof { reveal_strlit("incompatible"); }
                "incompatible"
            },
        }
    }
}

/// Structured compatibility report.
#[derive(Debug)]
pub struct CompatibilityReport {
    /// Baseline artifact identity.
    pub baseline_id: String,
    /// Baseline artifact version.
    pub baseline_version: String,
    /// Candidate artifact identity.
    pub candidate_id: String,
    /// Candidate artifact version.
    pub candidate_version: String,
    /// Resulting compatibility category.
    pub category: CompatibilityCategory,
    /// Breaking-change findings and related diagnostics.
    pub diagnostics: Vec<Diagnostic>,
}

/// Result of compatibility evaluation.
#[derive(Debug)]
pub enum CompatibilityResult {
    /// Compatible (fully / backward / forward / conditional).
    Success(Box<CompatibilityReport>),
    /// Incompatible.
    Failure {
        /// Structured report retaining category and detail.
        report: Box<CompatibilityReport>,
        /// Diagnostics for tooling.
        diagnostics: ValidationReport,
    },
}

impl CompatibilityResult {
    /// The report carried by either outcome.
    pub open spec fn outcome(&self) -> CompatibilityReport {
        match self {
            CompatibilityResult::Success(r) => **r,
            CompatibilityResult::Failure { report, .. } => **report,
        }
    }

    /// Returns whether evaluation concluded a compatible category.
    pub fn is_ok(&self) -> (r: bool)
        ensures
            r == (self is Success),
    {
        match self {
            CompatibilityResult::Success(_) => true,
            CompatibilityResult::Failure { .. } => false,
        }
    }

    /// Returns the compatibility report in either outcome.
    pub fn report(&self) -> (r: &CompatibilityReport)
        ensures
            *r == self.outcome(),
    {
        match self {
            CompatibilityResult::Success(report) => &**report,
            CompatibilityResult::Failure { report, .. } => &**report,
        }
    }
}

/// Category from the four observations of a comparison.
pub open spec fn classify(breaking: bool, conditional: bool, additive: bool, removed_optional: bool) -> CompatibilityCategory {
    if breaking {
        CompatibilityCategory::Incompatible
    } else if conditional {
        CompatibilityCategory::ConditionallyCompatible
    } else if additive && !removed_optional {
        CompatibilityCategory::BackwardCompatible
    } else if removed_optional && !additive {
        CompatibilityCategory::ForwardCompatible
    } else if additive && removed_optional {
        CompatibilityCategory::ConditionallyCompatible
    } else {
        CompatibilityCategory::FullyCompatible
    }
}

fn classify_exec(breaking: bool, conditional: bool, additive: bool, removed_optional: bool) -> (r: CompatibilityCategory)
    ensures
        r == classify(breaking, conditional, additive, removed_optional),
{
    if breaking {
        CompatibilityCategory::Incompatible
    } else if conditional {
        CompatibilityCategory::ConditionallyCompatible
    } else if additive && !removed_optional {
        CompatibilityCategory::BackwardCompatible
    } else if removed_optional && !additive {
        CompatibilityCategory::ForwardCompatible
    } else if additive && removed_optional {
        CompatibilityCategory::ConditionallyCompatible
    } else {
        CompatibilityCategory::FullyCompatible
    }
}

/// Copy of a list of diagnostics.
pub fn clone_diagnostics(v: &Vec<Diagnostic>) -> (r: Vec<Diagnostic>)
    ensures
        diag_views(r@) == diag_views(v@),
{
    let mut out: Vec<Diagnostic> = Vec::new();
    let mut i: usize = 0;
    while i < v.len()
        invariant
            i <= v@.len(),
            out@.len() == i,
            forall|k: int| 0 <= k < i ==> (#[trigger] out@[k])@ == v@[k]@,
        decreases v.len() - i,
    {
        out.push(v[i].clone());
        i += 1;
    }
    assert(diag_views(out@) =~= diag_views(v@));
    out
}

/// Assemble the result: compatible categories succeed, `Incompatible` fails
/// and also hands the diagnostics back as a report.
fn finish(
    baseline_id: String,
    baseline_version: String,
    candidate_id: String,
    candidate_version: String,
    category: CompatibilityCategory,
    diagnostics: ValidationReport,
) -> (r: CompatibilityResult)
    ensures
        r.outcome().baseline_id == baseline_id,
        r.outcome().baseline_version == baseline_version,
        r.outcome().candidate_id == candidate_id,
        r.outcome().candidate_version == candidate_version,
        r.outcome().category == category,
        diag_views(r.outcome().diagnostics@) == diagnostics@,
        (r is Success) == category.compatible(),
        r matches CompatibilityResult::Failure { diagnostics: d, .. } ==> d@ == diagnostics@,
{
    let report = CompatibilityReport {
        baseline_id,
        baseline_version,
        candidate_id,
        candidate_version,
        category,
        diagnostics: clone_diagnostics(&diagnostics.diagnostics),
    };
    if category.is_compatible() {
        CompatibilityResult::Success(Box::new(report))
    } else {
        CompatibilityResult::Failure { report: Box::new(report), diagnostics }
    }
}

/// Append `more` to `out`.
fn append_all(out: &mut Vec<Diagnostic>, more: Vec<Diagnostic>)
    ensures
        diag_views(final(out)@) == diag_views(old(out)@) + diag_views(more@),
{
    let mut more = more;
    let ghost m = more@;
    out.append(&mut more);
    assert(diag_views(out@) =~= diag_views(old(out)@) + diag_views(m));
}

// ---------------------------------------------------------------- interface ports

/// Findings for one interface side (`path` is `interface.inputs` or
/// `interface.outputs`): duplicate ids on either side, removed ports, changed
/// contract reference / name / purpose, and added ports.
pub open spec fn port_findings(path: Seq<char>, b: Seq<InterfacePort>, c: Seq<InterfacePort>) -> Seq<DiagnosticView> {
    (if has_duplicate_keys(b) {
        seq![breaking_view("DPCS-COMPAT-012"@, "baseline `"@ + path + "` contains duplicate port ids"@, path)]
    } else {
        Seq::empty()
    })
    + (if has_duplicate_keys(c) {
        seq![breaking_view("DPCS-COMPAT-012"@, "candidate `"@ + path + "` contains duplicate port ids"@, path)]
    } else {
        Seq::empty()
    })
    + removals_and_changes(b, c, b.len() as int, "DPCS-COMPAT-002"@, "interface port `"@, path + "."@)
    + additions(b, c, c.len() as int, "DPCS-COMPAT-004"@, "interface port `"@, path + "."@)
}

fn compare_ports(path: &str, b: &Vec<InterfacePort>, c: &Vec<InterfacePort>) -> (r: Vec<Diagnostic>)
    ensures
        diag_views(r@) == port_findings(path@, b@, c@),
{
    let mut out: Vec<Diagnostic> = Vec::new();
    if has_duplicates(b) {
        out.push(breaking_diag("DPCS-COMPAT-012", cat3("baseline `", path, "` contains duplicate port ids"), String::from_str(path)));
    }
    if has_duplicates(c) {
        out.push(breaking_diag("DPCS-COMPAT-012", cat3("candidate `", path, "` contains duplicate port ids"), String::from_str(path)));
    }
    let prefix = cat2(path, ".");
    let ghost head = diag_views(out@);
    append_all(&mut out, removals_and_changes_of(b, c, "DPCS-COMPAT-002", "interface port `", prefix.as_str()));
    append_all(&mut out, additions_of(b, c, "DPCS-COMPAT-004", "interface port `", prefix.as_str()));
    proof {
        reveal_strlit("DPCS-COMPAT-012");
        assert(diag_views(out@) =~= port_findings(path@, b@, c@));
    }
    out
}

// ---------------------------------------------------------------- steps

impl Compared for PipelineStep {
    /// Type, contract reference, and transform reference changes, then input
    /// and output port removals and contract reference changes.
    open spec fn change_views(&self, other: &Self, msgp: Seq<char>, objp: Seq<char>) -> Seq<DiagnosticView> {
        let id = self.id@;
        (if self.step_type@ != other.step_type@ {
            seq![breaking_view("DPCS-COMPAT-006"@, msgp + id + "` type changed"@, objp + id + ".type"@)]
        } else {
            Seq::empty()
        })
        + when_changed(crate::diagnostics::opt_text(self.contract_ref), crate::diagnostics::opt_text(other.contract_ref),
            breaking_view("DPCS-COMPAT-007"@, msgp + id + "` contractRef changed"@, objp + id + ".contractRef"@))
        + when_changed(crate::diagnostics::opt_text(self.transform_ref), crate::diagnostics::opt_text(other.transform_ref),
            breaking_view("DPCS-COMPAT-016"@, msgp + id + "` transformRef changed"@, objp + id + ".transformRef"@))
        + removals_and_changes(self.inputs@, other.inputs@, self.inputs@.len() as int, "DPCS-COMPAT-017"@,
            msgp + id + "` inputs port `"@, objp + id + ".inputs."@)
        + removals_and_changes(self.outputs@, other.outputs@, self.outputs@.len() as int, "DPCS-COMPAT-017"@,
            msgp + id + "` outputs port `"@, objp + id + ".outputs."@)
    }

    fn changes(&self, other: &Self, msgp: &str, objp: &str) -> (r: Vec<Diagnostic>) {
        let id = self.id.as_str();
        let at = cat2(objp, id);
        let mut out: Vec<Diagnostic> = Vec::new();
        if !crate::text::str_eq(self.step_type.as_str(), other.step_type.as_str()) {
            out.push(breaking_diag("DPCS-COMPAT-006", cat3(msgp, id, "` type changed"), cat2(at.as_str(), ".type")));
        }
        if !super::fingerprint::same_opt(&self.contract_ref, &other.contract_ref) {
            out.push(breaking_diag("DPCS-COMPAT-007", cat3(msgp, id, "` contractRef changed"), cat2(at.as_str(), ".contractRef")));
        }
        if !super::fingerprint::same_opt(&self.transform_ref, &other.transform_ref) {
            out.push(breaking_diag("DPCS-COMPAT-016", cat3(msgp, id, "` transformRef changed"), cat2(at.as_str(), ".transformRef")));
        }
        let in_msg = cat3(msgp, id, "` inputs port `");
        let in_obj = cat2(at.as_str(), ".inputs.");
        append_all(&mut out, removals_and_changes_of(&self.inputs, &other.inputs, "DPCS-COMPAT-017", in_msg.as_str(), in_obj.as_str()));
        let out_msg = cat3(msgp, id, "` outputs port `");
        let out_obj = cat2(at.as_str(), ".outputs.");
        append_all(&mut out, removals_and_changes_of(&self.outputs, &other.outputs, "DPCS-COMPAT-017", out_msg.as_str(), out_obj.as_str()));
        proof {
            assert(in_obj@ =~= objp@ + id@ + ".inputs."@);
            assert(out_obj@ =~= objp@ + id@ + ".outputs."@);
            assert(diag_views(out@) =~= self.change_views(other, msgp@, objp@));
        }
        out
    }
}

/// Findings for the step lists: duplicate ids, removed steps, changed steps
/// (with their ports), and added steps.
pub open spec fn step_findings(b: Seq<PipelineStep>, c: Seq<PipelineStep>) -> Seq<DiagnosticView> {
    (if has_duplicate_keys(b) || has_duplicate_keys(c) {
        seq![breaking_view("DPCS-COMPAT-015"@, "duplicate step ids prevent reliable compatibility analysis"@, "steps"@)]
    } else {
        Seq::empty()
    })
    + removals_and_changes(b, c, b.len() as int, "DPCS-COMPAT-005"@, "step `"@, "steps."@)
    + additions(b, c, c.len() as int, "DPCS-COMPAT-008"@, "step `"@, "steps."@)
}

/// A step kept in the candidate gained an input or output port.
pub open spec fn step_ports_grew(b: Seq<PipelineStep>, c: Seq<PipelineStep>) -> bool {
    exists|i: int| 0 <= i < b.len() && is_last(b, i) && #[trigger] matched_step_grew(b, c, i)
}

/// Baseline step `i` has a candidate match that gained a port.
pub open spec fn matched_step_grew(b: Seq<PipelineStep>, c: Seq<PipelineStep>, i: int) -> bool {
    match last_index(c, b[i].key()) {
        Some(j) => has_new_key(b[i].inputs@, c[j].inputs@) || has_new_key(b[i].outputs@, c[j].outputs@),
        None => false,
    }
}

fn compare_steps(b: &Vec<PipelineStep>, c: &Vec<PipelineStep>) -> (r: Vec<Diagnostic>)
    ensures
        diag_views(r@) == step_findings(b@, c@),
{
    let mut out: Vec<Diagnostic> = Vec::new();
    if has_duplicates(b) || has_duplicates(c) {
        out.push(breaking_diag(
            "DPCS-COMPAT-015",
            String::from_str("duplicate step ids prevent reliable compatibility analysis"),
            String::from_str("steps"),
        ));
    }
    append_all(&mut out, removals_and_changes_of(b, c, "DPCS-COMPAT-005", "step `", "steps."));
    append_all(&mut out, additions_of(b, c, "DPCS-COMPAT-008", "step `", "steps."));
    proof {
        reveal_strlit("DPCS-COMPAT-015");
        assert(diag_views(out@) =~= step_findings(b@, c@));
    }
    out
}

fn steps_grew(b: &Vec<PipelineStep>, c: &Vec<PipelineStep>) -> (r: bool)
    ensures
        r == step_ports_grew(b@, c@),
{
    let mut i: usize = 0;
    while i < b.len()
        invariant
            i <= b@.len(),
            forall|k: int| 0 <= k < i ==> !(is_last(b@, k) && #[trigger] matched_step_grew(b@, c@, k)),
        decreases b.len() - i,
    {
        let id = b[i].key_str();
        if find_last(b, id) == Some(i) {
            proof { lemma_last_index(c@, id@); }
            match find_last(c, id) {
                Some(j) => {
                    if has_new(&b[i].inputs, &c[j].inputs) || has_new(&b[i].outputs, &c[j].outputs) {
                        assert(matched_step_grew(b@, c@, i as int));
                        return true;
                    }
                },
                None => {},
            }
        }
        i += 1;
    }
    false
}

// ---------------------------------------------------------------- relations

/// Optional text, empty when absent.
pub open spec fn or_empty(o: Option<String>) -> Seq<char> {
    match o {
        Some(s) => s@,
        None => Seq::empty(),
    }
}

fn or_empty_str(o: &Option<String>) -> (r: &str)
    ensures
        r@ == or_empty(*o),
{
    match o {
        Some(s) => s.as_str(),
        None => {
            proof { reveal_strlit(""); }
            ""
        },
    }
}

/// Graph edges as `from->to:kind`.
pub open spec fn edge_texts(c: PipelineContract) -> Seq<Seq<char>> {
    c.graph.edges@.map_values(|e: GraphEdge| e.from@ + "->"@ + e.to@ + ":"@ + or_empty(e.kind))
}

/// Data flows as `from=>to:dataset`.
pub open spec fn flow_texts(c: PipelineContract) -> Seq<Seq<char>> {
    c.data_flow@.map_values(|f: DataFlow| f.from@ + "=>"@ + f.to@ + ":"@ + or_empty(f.dataset))
}

/// Control flows as `from=>to:kind`.
pub open spec fn control_texts(c: PipelineContract) -> Seq<Seq<char>> {
    c.control_flow@.map_values(|f: ControlFlow| f.from@ + "=>"@ + f.to@ + ":"@ + or_empty(f.kind))
}

/// Extension field names.
pub open spec fn extension_keys(m: ExtensionMap) -> Seq<Seq<char>> {
    m.entries@.map_values(|e: ExtensionEntry| e.key@)
}

fn relation(from: &str, arrow: &str, to: &str, tag: &str) -> (r: String)
    ensures
        r@ == from@ + arrow@ + to@ + ":"@ + tag@,
{
    let mut out = String::new();
    push_str(&mut out, from);
    push_str(&mut out, arrow);
    push_str(&mut out, to);
    push_str(&mut out, ":");
    push_str(&mut out, tag);
    assert(out@ =~= from@ + arrow@ + to@ + ":"@ + tag@);
    out
}

fn edge_strings(c: &PipelineContract) -> (r: Vec<String>)
    ensures
        texts(r@) == edge_texts(*c),
{
    let v = &c.graph.edges;
    let mut out: Vec<String> = Vec::new();
    let mut i: usize = 0;
    while i < v.len()
        invariant
            i <= v@.len(),
            v == &c.graph.edges,
            out@.len() == i,
            forall|k: int| 0 <= k < i ==> (#[trigger] out@[k])@ == edge_texts(*c)[k],
        decreases v.len() - i,
    {
        let e = &v[i];
        out.push(relation(e.from.as_str(), "->", e.to.as_str(), or_empty_str(&e.kind)));
        i += 1;
    }
    assert(texts(out@) =~= edge_texts(*c));
    out
}

fn flow_strings(c: &PipelineContract) -> (r: Vec<String>)
    ensures
        texts(r@) == flow_texts(*c),
{
    let v = &c.data_flow;
    let mut out: Vec<String> = Vec::new();
    let mut i: usize = 0;
    while i < v.len()
        invariant
            i <= v@.len(),
            v == &c.data_flow,
            out@.len() == i,
            forall|k: int| 0 <= k < i ==> (#[trigger] out@[k])@ == flow_texts(*c)[k],
        decreases v.len() - i,
    {
        let f = &v[i];
        out.push(relation(f.from.as_str(), "=>", f.to.as_str(), or_empty_str(&f.dataset)));
        i += 1;
    }
    assert(texts(out@) =~= flow_texts(*c));
    out
}

fn control_strings(c: &PipelineContract) -> (r: Vec<String>)
    ensures
        texts(r@) == control_texts(*c),
{
    let v = &c.control_flow;
    let mut out: Vec<String> = Vec::new();
    let mut i: usize = 0;
    while i < v.len()
        invariant
            i <= v@.len(),
            v == &c.control_flow,
            out@.len() == i,
            forall|k: int| 0 <= k < i ==> (#[trigger] out@[k])@ == control_texts(*c)[k],
        decreases v.len() - i,
    {
        let f = &v[i];
        out.push(relation(f.from.as_str(), "=>", f.to.as_str(), or_empty_str(&f.kind)));
        i += 1;
    }
    assert(texts(out@) =~= control_texts(*c));
    out
}

fn extension_key_strings(m: &ExtensionMap) -> (r: Vec<String>)
    ensures
        texts(r@) == extension_keys(*m),
{
    let mut out: Vec<String> = Vec::new();
    let mut i: usize = 0;
    while i < m.entries.len()
        invariant
            i <= m.entries@.len(),
            out@.len() == i,
            forall|k: int| 0 <= k < i ==> (#[trigger] out@[k])@ == extension_keys(*m)[k],
        decreases m.entries.len() - i,
    {
        out.push(m.entries[i].key.clone());
        i += 1;
    }
    assert(texts(out@) =~= extension_keys(*m));
    out
}

/// Findings for a relation list: each distinct baseline relation missing
/// from the candidate breaks.
pub open spec fn relation_findings(path: Seq<char>, b: Seq<Seq<char>>, c: Seq<Seq<char>>) -> Seq<DiagnosticView> {
    set_removals(b, c, b.len() as int, "DPCS-COMPAT-009"@, "`"@ + path + "` relation `"@, "` removed"@, path, false)
}

fn compare_relations(path: &str, b: &Vec<String>, c: &Vec<String>) -> (r: Vec<Diagnostic>)
    ensures
        diag_views(r@) == relation_findings(path@, texts(b@), texts(c@)),
{
    let msgp = cat3("`", path, "` relation `");
    removals_between(b, c, "DPCS-COMPAT-009", msgp.as_str(), "` removed", path, false)
}

// ---------------------------------------------------------------- sections

/// Finding when the pipeline identities differ.
pub open spec fn identity_findings(b: PipelineContract, c: PipelineContract) -> Seq<DiagnosticView> {
    if b.id@ != c.id@ {
        seq![warning_view(
            "DPCS-COMPAT-001"@,
            "pipeline identity differs (`"@ + b.id@ + "` vs `"@ + c.id@ + "`); comparison continues on structure"@,
            "id"@,
        )]
    } else {
        Seq::empty()
    }
}

/// Findings for execution requirements: removal and incompatible change break,
/// addition is noted.
pub open spec fn execution_findings(b: Option<ExecutionRequirements>, c: Option<ExecutionRequirements>) -> Seq<DiagnosticView> {
    match (b, c) {
        (Some(_), None) => seq![breaking_view("DPCS-COMPAT-020"@, "execution requirements removed"@, "execution"@)],
        (None, Some(_)) => seq![additive_view("DPCS-COMPAT-021"@, "execution requirements added"@, "execution"@)],
        (Some(x), Some(y)) => if x.fingerprint() != y.fingerprint() {
            seq![breaking_view("DPCS-COMPAT-022"@, "execution requirements changed incompatibly"@, "execution"@)]
        } else {
            Seq::empty()
        },
        (None, None) => Seq::empty(),
    }
}

/// Findings for scheduling intents, compared as sets of fingerprints.
pub open spec fn scheduling_findings(b: Seq<SchedulingIntent>, c: Seq<SchedulingIntent>) -> Seq<DiagnosticView> {
    if fingerprint_set(b) == fingerprint_set(c) {
        Seq::empty()
    } else if c.len() == 0 && b.len() > 0 {
        seq![breaking_view("DPCS-COMPAT-023"@, "scheduling intents removed"@, "scheduling"@)]
    } else if b.len() == 0 && c.len() > 0 {
        seq![additive_view("DPCS-COMPAT-024"@, "scheduling intents added"@, "scheduling"@)]
    } else {
        seq![breaking_view("DPCS-COMPAT-025"@, "scheduling intents changed incompatibly"@, "scheduling"@)]
    }
}

/// Finding when the quality gates differ as sets of fingerprints.
pub open spec fn gate_findings(b: Seq<QualityGate>, c: Seq<QualityGate>) -> Seq<DiagnosticView> {
    if fingerprint_set(b) != fingerprint_set(c) {
        seq![breaking_view("DPCS-COMPAT-026"@, "quality gates changed"@, "qualityGates"@)]
    } else {
        Seq::empty()
    }
}

/// Finding when the failure semantics differ as sets of fingerprints.
pub open spec fn failure_findings(b: Seq<FailureSemantics>, c: Seq<FailureSemantics>) -> Seq<DiagnosticView> {
    if fingerprint_set(b) != fingerprint_set(c) {
        seq![breaking_view("DPCS-COMPAT-027"@, "failure semantics changed"@, "failureSemantics"@)]
    } else {
        Seq::empty()
    }
}

/// Findings for lineage: removal and incompatible change break.
pub open spec fn lineage_findings(b: Option<PipelineLineage>, c: Option<PipelineLineage>) -> Seq<DiagnosticView> {
    match (b, c) {
        (Some(_), None) => seq![breaking_view("DPCS-COMPAT-028"@, "lineage removed"@, "lineage"@)],
        (Some(x), Some(y)) => if x.fingerprint() != y.fingerprint() {
            seq![breaking_view("DPCS-COMPAT-029"@, "lineage changed incompatibly"@, "lineage"@)]
        } else {
            Seq::empty()
        },
        _ => Seq::empty(),
    }
}

/// Warnings for removed extension fields.
pub open spec fn extension_findings(b: ExtensionMap, c: ExtensionMap) -> Seq<DiagnosticView> {
    set_warnings(extension_keys(b), extension_keys(c), extension_keys(b).len() as int, "DPCS-COMPAT-030"@, "extension `"@, "` removed"@)
}

/// Every finding of a contract comparison, section by section.
pub open spec fn contract_findings(b: PipelineContract, c: PipelineContract) -> Seq<DiagnosticView> {
    identity_findings(b, c)
    + port_findings("interface.inputs"@, b.interface.inputs@, c.interface.inputs@)
    + port_findings("interface.outputs"@, b.interface.outputs@, c.interface.outputs@)
    + step_findings(b.steps@, c.steps@)
    + relation_findings("graph.edges"@, edge_texts(b), edge_texts(c))
    + relation_findings("dataFlow"@, flow_texts(b), flow_texts(c))
    + relation_findings("controlFlow"@, control_texts(b), control_texts(c))
    + removals_and_changes(b.contract_references@, c.contract_references@, b.contract_references@.len() as int,
        "DPCS-COMPAT-010"@, "contract reference `"@, "contractReferences."@)
    + execution_findings(b.execution, c.execution)
    + scheduling_findings(b.scheduling@, c.scheduling@)
    + gate_findings(b.quality_gates@, c.quality_gates@)
    + failure_findings(b.failure_semantics@, c.failure_semantics@)
    + lineage_findings(b.lineage, c.lineage)
    + extension_findings(b.extensions, c.extensions)
}

/// The candidate adds content: ports, steps, step ports, relations,
/// references, execution requirements, scheduling, lineage, or extensions.
pub open spec fn contract_additive(b: PipelineContract, c: PipelineContract) -> bool {
    ||| has_new_key(b.interface.inputs@, c.interface.inputs@)
    ||| has_new_key(b.interface.outputs@, c.interface.outputs@)
    ||| has_new_key(b.steps@, c.steps@)
    ||| step_ports_grew(b.steps@, c.steps@)
    ||| has_new_text(edge_texts(b), edge_texts(c))
    ||| has_new_text(flow_texts(b), flow_texts(c))
    ||| has_new_text(control_texts(b), control_texts(c))
    ||| has_new_key(b.contract_references@, c.contract_references@)
    ||| (b.execution is None && c.execution is Some)
    ||| (b.scheduling@.len() == 0 && c.scheduling@.len() > 0)
    ||| (b.lineage is None && c.lineage is Some)
    ||| has_new_text(extension_keys(b.extensions), extension_keys(c.extensions))
}

/// Category of a contract comparison: breaking when any finding is an error;
/// conditional when identities differ; removal of extension fields is the
/// removal of optional content.
pub open spec fn contract_category(b: PipelineContract, c: PipelineContract) -> CompatibilityCategory {
    classify(
        !no_errors(contract_findings(b, c)),
        b.id@ != c.id@,
        contract_additive(b, c),
        has_new_text(extension_keys(c.extensions), extension_keys(b.extensions)),
    )
}

fn compare_execution(b: &Option<ExecutionRequirements>, c: &Option<ExecutionRequirements>) -> (r: Vec<Diagnostic>)
    ensures
        diag_views(r@) == execution_findings(*b, *c),
{
    let mut out: Vec<Diagnostic> = Vec::new();
    match (b, c) {
        (Some(_), None) => {
            out.push(breaking_diag("DPCS-COMPAT-020", String::from_str("execution requirements removed"), String::from_str("execution")));
        },
        (None, Some(_)) => {
            out.push(additive_diag("DPCS-COMPAT-021", String::from_str("execution requirements added"), String::from_str("execution")));
        },
        (Some(x), Some(y)) => {
            if !x.same_fingerprint(y) {
                out.push(breaking_diag("DPCS-COMPAT-022", String::from_str("execution requirements changed incompatibly"), String::from_str("execution")));
            }
        },
        (None, None) => {},
    }
    assert(diag_views(out@) =~= execution_findings(*b, *c));
    out
}

fn compare_scheduling(b: &Vec<SchedulingIntent>, c: &Vec<SchedulingIntent>) -> (r: Vec<Diagnostic>)
    ensures
        diag_views(r@) == scheduling_findings(b@, c@),
{
    let mut out: Vec<Diagnostic> = Vec::new();
    if same_fingerprint_set(b, c) {
    } else if c.len() == 0 && b.len() > 0 {
        out.push(breaking_diag("DPCS-COMPAT-023", String::from_str("scheduling intents removed"), String::from_str("scheduling")));
    } else if b.len() == 0 && c.len() > 0 {
        out.push(additive_diag("DPCS-COMPAT-024", String::from_str("scheduling intents added"), String::from_str("scheduling")));
    } else {
        out.push(breaking_diag("DPCS-COMPAT-025", String::from_str("scheduling intents changed incompatibly"), String::from_str("scheduling")));
    }
    assert(diag_views(out@) =~= scheduling_findings(b@, c@));
    out
}

fn compare_gates(b: &Vec<QualityGate>, c: &Vec<QualityGate>) -> (r: Vec<Diagnostic>)
    ensures
        diag_views(r@) == gate_findings(b@, c@),
{
    let mut out: Vec<Diagnostic> = Vec::new();
    if !same_fingerprint_set(b, c) {
        out.push(breaking_diag("DPCS-COMPAT-026", String::from_str("quality gates changed"), String::from_str("qualityGates")));
    }
    assert(diag_views(out@) =~= gate_findings(b@, c@));
    out
}

fn compare_failures(b: &Vec<FailureSemantics>, c: &Vec<FailureSemantics>) -> (r: Vec<Diagnostic>)
    ensures
        diag_views(r@) == failure_findings(b@, c@),
{
    let mut out: Vec<Diagnostic> = Vec::new();
    if !same_fingerprint_set(b, c) {
        out.push(breaking_diag("DPCS-COMPAT-027", String::from_str("failure semantics changed"), String::from_str("failureSemantics")));
    }
    assert(diag_views(out@) =~= failure_findings(b@, c@));
    out
}

fn compare_lineage(b: &Option<PipelineLineage>, c: &Option<PipelineLineage>) -> (r: Vec<Diagnostic>)
    ensures
        diag_views(r@) == lineage_findings(*b, *c),
{
    let mut out: Vec<Diagnostic> = Vec::new();
    match (b, c) {
        (Some(_), None) => {
            out.push(breaking_diag("DPCS-COMPAT-028", String::from_str("lineage removed"), String::from_str("lineage")));
        },
        (Some(x), Some(y)) => {
            if !x.same_fingerprint(y) {
                out.push(breaking_diag("DPCS-COMPAT-029", String::from_str("lineage changed incompatibly"), String::from_str("lineage")));
            }
        },
        _ => {},
    }
    assert(diag_views(out@) =~= lineage_findings(*b, *c));
    out
}

/// Compare two Pipeline Contracts for semantic compatibility.
///
/// Version identifiers alone never decide the category.
pub fn compare_contracts(baseline: &PipelineContract, candidate: &PipelineContract) -> (r: CompatibilityResult)
    ensures
        r.outcome().baseline_id@ == baseline.id@,
        r.outcome().baseline_version@ == baseline.version@,
        r.outcome().candidate_id@ == candidate.id@,
        r.outcome().candidate_version@ == candidate.version@,
        r.outcome().category == contract_category(*baseline, *candidate),
        diag_views(r.outcome().diagnostics@) == sort_diagnostics(contract_findings(*baseline, *candidate)),
        (r is Success) == contract_category(*baseline, *candidate).compatible(),
        r matches CompatibilityResult::Failure { diagnostics: d, .. } ==> d@ == sort_diagnostics(contract_findings(*baseline, *candidate)),
{
    let b = baseline;
    let c = candidate;
    let mut out: Vec<Diagnostic> = Vec::new();
    let conditional = !crate::text::str_eq(b.id.as_str(), c.id.as_str());
    if conditional {
        let mut message = String::from_str("pipeline identity differs (`");
        push_str(&mut message, b.id.as_str());
        push_str(&mut message, "` vs `");
        push_str(&mut message, c.id.as_str());
        push_str(&mut message, "`); comparison continues on structure");
        out.push(warning_diag("DPCS-COMPAT-001", message, String::from_str("id")));
    }
    proof { assert(diag_views(out@) =~= identity_findings(*b, *c)); }
    append_all(&mut out, compare_ports("interface.inputs", &b.interface.inputs, &c.interface.inputs));
    append_all(&mut out, compare_ports("interface.outputs", &b.interface.outputs, &c.interface.outputs));
    append_all(&mut out, compare_steps(&b.steps, &c.steps));
    let (be, ce) = (edge_strings(b), edge_strings(c));
    let (bf, cf) = (flow_strings(b), flow_strings(c));
    let (bc, cc) = (control_strings(b), control_strings(c));
    append_all(&mut out, compare_relations("graph.edges", &be, &ce));
    append_all(&mut out, compare_relations("dataFlow", &bf, &cf));
    append_all(&mut out, compare_relations("controlFlow", &bc, &cc));
    append_all(&mut out, removals_and_changes_of(&b.contract_references, &c.contract_references, "DPCS-COMPAT-010", "contract reference `", "contractReferences."));
    append_all(&mut out, compare_execution(&b.execution, &c.execution));
    append_all(&mut out, compare_scheduling(&b.scheduling, &c.scheduling));
    append_all(&mut out, compare_gates(&b.quality_gates, &c.quality_gates));
    append_all(&mut out, compare_failures(&b.failure_semantics, &c.failure_semantics));
    append_all(&mut out, compare_lineage(&b.lineage, &c.lineage));
    let (bk, ck) = (extension_key_strings(&b.extensions), extension_key_strings(&c.extensions));
    append_all(&mut out, warnings_between(&bk, &ck, "DPCS-COMPAT-030", "extension `", "` removed"));

    let additive = has_new(&b.interface.inputs, &c.interface.inputs)
        || has_new(&b.interface.outputs, &c.interface.outputs)
        || has_new(&b.steps, &c.steps)
        || steps_grew(&b.steps, &c.steps)
        || has_new_entry(&be, &ce)
        || has_new_entry(&bf, &cf)
        || has_new_entry(&bc, &cc)
        || has_new(&b.contract_references, &c.contract_references)
        || (b.execution.is_none() && c.execution.is_some())
        || (b.scheduling.len() == 0 && c.scheduling.len() > 0)
        || (b.lineage.is_none() && c.lineage.is_some())
        || has_new_entry(&bk, &ck);
    let removed_optional = has_new_entry(&ck, &bk);

    let mut diagnostics = ValidationReport { diagnostics: out };
    proof {
        reveal_strlit("interface.inputs");
        reveal_strlit("interface.outputs");
        assert(diagnostics@ =~= contract_findings(*b, *c));
    }
    let breaking = !diagnostics.is_valid();
    diagnostics.sort_deterministic();
    let category = classify_exec(breaking, conditional, additive, removed_optional);
    finish(b.id.clone(), b.version.clone(), c.id.clone(), c.version.clone(), category, diagnostics)
}

// ---------------------------------------------------------------- plans

/// Step identifiers of a plan, in declaration order.
pub open spec fn plan_step_texts(p: PipelinePlan) -> Seq<Seq<char>> {
    p.steps@.map_values(|s: PipelineStep| s.id@)
}

/// Dependency edges of a plan as `from->to`.
pub open spec fn dependency_texts(p: PipelinePlan) -> Seq<Seq<char>> {
    p.dependency_edges@.map_values(|e: PlanDependencyEdge| e.from@ + "->"@ + e.to@)
}

/// Only the step order differs: the step sets and dependency edge sets are equal.
pub open spec fn order_only_change(b: PipelinePlan, c: PipelinePlan) -> bool {
    &&& texts(b.step_order@) != texts(c.step_order@)
    &&& plan_step_texts(b).to_set() == plan_step_texts(c).to_set()
    &&& dependency_texts(b).to_set() == dependency_texts(c).to_set()
}

/// Every finding of a plan comparison.
pub open spec fn plan_findings(b: PipelinePlan, c: PipelinePlan) -> Seq<DiagnosticView> {
    (if b.contract_id@ != c.contract_id@ {
        seq![warning_view("DPCS-COMPAT-040"@, "plan contract ids differ"@, "contractId"@)]
    } else {
        Seq::empty()
    })
    + set_removals(plan_step_texts(b), plan_step_texts(c), plan_step_texts(b).len() as int, "DPCS-COMPAT-041"@,
        "plan step `"@, "` removed"@, "steps."@, true)
    + set_additions(plan_step_texts(b), plan_step_texts(c), plan_step_texts(c).len() as int, "DPCS-COMPAT-042"@,
        "plan step `"@, "steps."@)
    + set_removals(dependency_texts(b), dependency_texts(c), dependency_texts(b).len() as int, "DPCS-COMPAT-043"@,
        "dependency edge `"@, "` removed"@, "dependencyEdges"@, false)
    + (if order_only_change(b, c) {
        seq![warning_view("DPCS-COMPAT-044"@, "stepOrder differs while step set and dependency edges remain equal"@, "stepOrder"@)]
    } else {
        Seq::empty()
    })
}

/// Category of a plan comparison.
pub open spec fn plan_category(b: PipelinePlan, c: PipelinePlan) -> CompatibilityCategory {
    classify(
        !no_errors(plan_findings(b, c)),
        b.contract_id@ != c.contract_id@ || order_only_change(b, c),
        has_new_text(plan_step_texts(b), plan_step_texts(c)) || has_new_text(dependency_texts(b), dependency_texts(c)),
        false,
    )
}

fn plan_step_strings(p: &PipelinePlan) -> (r: Vec<String>)
    ensures
        texts(r@) == plan_step_texts(*p),
{
    let mut out: Vec<String> = Vec::new();
    let mut i: usize = 0;
    while i < p.steps.len()
        invariant
            i <= p.steps@.len(),
            out@.len() == i,
            forall|k: int| 0 <= k < i ==> (#[trigger] out@[k])@ == plan_step_texts(*p)[k],
        decreases p.steps.len() - i,
    {
        out.push(p.steps[i].id.clone());
        i += 1;
    }
    assert(texts(out@) =~= plan_step_texts(*p));
    out
}

fn dependency_strings(p: &PipelinePlan) -> (r: Vec<String>)
    ensures
        texts(r@) == dependency_texts(*p),
{
    let mut out: Vec<String> = Vec::new();
    let mut i: usize = 0;
    while i < p.dependency_edges.len()
        invariant
            i <= p.dependency_edges@.len(),
            out@.len() == i,
            forall|k: int| 0 <= k < i ==> (#[trigger] out@[k])@ == dependency_texts(*p)[k],
        decreases p.dependency_edges.len() - i,
    {
        let e = &p.dependency_edges[i];
        out.push(cat3(e.from.as_str(), "->", e.to.as_str()));
        i += 1;
    }
    assert(texts(out@) =~= dependency_texts(*p));
    out
}

/// Whether two lists of strings hold the same texts in the same order.
pub fn same_text_list(a: &Vec<String>, b: &Vec<String>) -> (r: bool)
    ensures
        r == (texts(a@) == texts(b@)),
{
    if a.len() != b.len() {
        assert(texts(a@).len() != texts(b@).len());
        return false;
    }
    let mut i: usize = 0;
    while i < a.len()
        invariant
            i <= a@.len(),
            a@.len() == b@.len(),
            forall|k: int| 0 <= k < i ==> (#[trigger] a@[k])@ == b@[k]@,
        decreases a.len() - i,
    {
        if !crate::text::str_eq(a[i].as_str(), b[i].as_str()) {
            assert(texts(a@)[i as int] != texts(b@)[i as int]);
            return false;
        }
        i += 1;
    }
    assert(texts(a@) =~= texts(b@));
    true
}

/// Whether two lists of strings hold the same set of texts.
fn same_entries(a: &Vec<String>, b: &Vec<String>) -> (r: bool)
    ensures
        r == (texts(a@).to_set() == texts(b@).to_set()),
{
    proof { super::fingerprint::lemma_to_set_eq(texts(a@), texts(b@)); }
    !has_new_entry(a, b) && !has_new_entry(b, a)
}

/// Compare two Pipeline Plans for dependency / step-order compatibility.
pub fn compare_plans(baseline: &PipelinePlan, candidate: &PipelinePlan) -> (r: CompatibilityResult)
    ensures
        r.outcome().baseline_id@ == baseline.contract_id@,
        r.outcome().baseline_version@ == baseline.contract_version@,
        r.outcome().candidate_id@ == candidate.contract_id@,
        r.outcome().candidate_version@ == candidate.contract_version@,
        r.outcome().category == plan_category(*baseline, *candidate),
        diag_views(r.outcome().diagnostics@) == sort_diagnostics(plan_findings(*baseline, *candidate)),
        (r is Success) == plan_category(*baseline, *candidate).compatible(),
        r matches CompatibilityResult::Failure { diagnostics: d, .. } ==> d@ == sort_diagnostics(plan_findings(*baseline, *candidate)),
{
    let b = baseline;
    let c = candidate;
    let mut out: Vec<Diagnostic> = Vec::new();
    let ids_differ = !crate::text::str_eq(b.contract_id.as_str(), c.contract_id.as_str());
    if ids_differ {
        out.push(warning_diag("DPCS-COMPAT-040", String::from_str("plan contract ids differ"), String::from_str("contractId")));
    }
    let ghost head = diag_views(out@);
    let (bs, cs) = (plan_step_strings(b), plan_step_strings(c));
    let (be, ce) = (dependency_strings(b), dependency_strings(c));
    append_all(&mut out, removals_between(&bs, &cs, "DPCS-COMPAT-041", "plan step `", "` removed", "steps.", true));
    append_all(&mut out, additions_between(&bs, &cs, "DPCS-COMPAT-042", "plan step `", "steps."));
    append_all(&mut out, removals_between(&be, &ce, "DPCS-COMPAT-043", "dependency edge `", "` removed", "dependencyEdges", false));
    let ghost middle = diag_views(out@);
    let order_only = !same_text_list(&b.step_order, &c.step_order) && same_entries(&bs, &cs) && same_entries(&be, &ce);
    assert(order_only == order_only_change(*b, *c));
    if order_only {
        out.push(warning_diag(
            "DPCS-COMPAT-044",
            String::from_str("stepOrder differs while step set and dependency edges remain equal"),
            String::from_str("stepOrder"),
        ));
    }
    let additive = has_new_entry(&bs, &cs) || has_new_entry(&be, &ce);
    let mut diagnostics = ValidationReport { diagnostics: out };
    proof {
        assert(head =~= (if b.contract_id@ != c.contract_id@ {
            seq![warning_view("DPCS-COMPAT-040"@, "plan contract ids differ"@, "contractId"@)]
        } else {
            Seq::empty()
        }));
        assert(diagnostics@ =~= plan_findings(*b, *c));
    }
    let breaking = !diagnostics.is_valid();
    diagnostics.sort_deterministic();
    let category = classify_exec(breaking, ids_differ || order_only, additive, false);
    finish(b.contract_id.clone(), b.contract_version.clone(), c.contract_id.clone(), c.contract_version.clone(), category, diagnostics)
}

} // verus!
