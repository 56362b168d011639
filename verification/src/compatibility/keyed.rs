//! Comparison of identified items between a baseline and a candidate list.
//!
//! Items are matched by identifier; when an identifier occurs more than once,
//! its last occurrence is the one compared.
use vstd::prelude::*;

use crate::diagnostics::report::diag_views;
use crate::diagnostics::{categories, owned, opt_text, Diagnostic, DiagnosticStage, DiagnosticView, Severity};
use crate::model::interface::InterfacePort;
use crate::model::step::{ContractReference, PipelineStep, StepPort};
use crate::text::{push_str, str_eq};
use super::fingerprint::same_opt;

verus! {

/// Text of three parts joined.
pub fn cat3(a: &str, b: &str, c: &str) -> (r: String)
    ensures
        r@ == a@ + b@ + c@,
{
    let mut out = String::new();
    push_str(&mut out, a);
    push_str(&mut out, b);
    push_str(&mut out, c);
    assert(out@ =~= a@ + b@ + c@);
    out
}

/// Text of two parts joined.
pub fn cat2(a: &str, b: &str) -> (r: String)
    ensures
        r@ == a@ + b@,
{
    let mut out = String::new();
    push_str(&mut out, a);
    push_str(&mut out, b);
    assert(out@ =~= a@ + b@);
    out
}

/// Model of a breaking-change finding.
pub open spec fn breaking_view(id: Seq<char>, message: Seq<char>, object_ref: Seq<char>) -> DiagnosticView {
    DiagnosticView {
        object_ref: Some(object_ref),
        remediation: Some("Treat as a breaking change and bump accordingly"@),
        ..Diagnostic::fresh(id, Severity::Error, DiagnosticStage::CompatibilityAnalysis, "compatibility"@, message)
    }
}

/// Model of an additive-change note.
pub open spec fn additive_view(id: Seq<char>, message: Seq<char>, object_ref: Seq<char>) -> DiagnosticView {
    DiagnosticView {
        object_ref: Some(object_ref),
        remediation: Some("Additive changes are typically backward compatible"@),
        ..Diagnostic::fresh(id, Severity::Information, DiagnosticStage::CompatibilityAnalysis, "compatibility"@, message)
    }
}

/// Model of a compatibility warning.
pub open spec fn warning_view(id: Seq<char>, message: Seq<char>, object_ref: Seq<char>) -> DiagnosticView {
    DiagnosticView {
        object_ref: Some(object_ref),
        ..Diagnostic::fresh(id, Severity::Warning, DiagnosticStage::CompatibilityAnalysis, "compatibility"@, message)
    }
}

/// Breaking-change finding.
pub fn breaking_diag(id: &str, message: String, object_ref: String) -> (r: Diagnostic)
    ensures
        r@ == breaking_view(id@, message@, object_ref@),
{
    proof { reveal_strlit("compatibility"); }
    Diagnostic::compatibility_error(id, categories::COMPATIBILITY, message).with_object_ref(object_ref).with_remediation(
        owned("Treat as a breaking change and bump accordingly"),
    )
}

/// Additive-change note.
pub fn additive_diag(id: &str, message: String, object_ref: String) -> (r: Diagnostic)
    ensures
        r@ == additive_view(id@, message@, object_ref@),
{
    proof { reveal_strlit("compatibility"); }
    Diagnostic::new(id, Severity::Information, DiagnosticStage::CompatibilityAnalysis, categories::COMPATIBILITY, message)
        .with_object_ref(object_ref).with_remediation(owned("Additive changes are typically backward compatible"))
}

/// Compatibility warning.
pub fn warning_diag(id: &str, message: String, object_ref: String) -> (r: Diagnostic)
    ensures
        r@ == warning_view(id@, message@, object_ref@),
{
    proof { reveal_strlit("compatibility"); }
    Diagnostic::compatibility_warning(id, categories::COMPATIBILITY, message).with_object_ref(object_ref)
}

/// An item identified by a key.
pub trait Keyed {
    /// The item's identifier.
    spec fn key(&self) -> Seq<char>;

    /// The item's identifier.
    fn key_str(&self) -> (r: &str)
        ensures
            r@ == self.key(),
    ;
}

/// Index of the last item of `s` with key `k`.
pub open spec fn last_index<T: Keyed>(s: Seq<T>, k: Seq<char>) -> Option<int>
    decreases s.len(),
{
    if s.len() == 0 {
        None
    } else if s.last().key() == k {
        Some(s.len() - 1)
    } else {
        last_index(s.drop_last(), k)
    }
}

/// Item `i` is the last occurrence of its key.
pub open spec fn is_last<T: Keyed>(s: Seq<T>, i: int) -> bool {
    last_index(s, s[i].key()) == Some(i)
}

/// Some key occurs twice.
pub open spec fn has_duplicate_keys<T: Keyed>(s: Seq<T>) -> bool {
    exists|i: int, j: int| 0 <= i < j < s.len() && #[trigger] s[i].key() == #[trigger] s[j].key()
}

/// Some key of `c` does not occur in `b`.
pub open spec fn has_new_key<T: Keyed>(b: Seq<T>, c: Seq<T>) -> bool {
    exists|j: int| 0 <= j < c.len() && #[trigger] last_index(b, c[j].key()) is None
}

pub proof fn lemma_last_index<T: Keyed>(s: Seq<T>, k: Seq<char>)
    ensures
        match last_index(s, k) {
            Some(j) => 0 <= j < s.len() && s[j].key() == k && forall|m: int| j < m < s.len() ==> (#[trigger] s[m]).key() != k,
            None => forall|m: int| 0 <= m < s.len() ==> (#[trigger] s[m]).key() != k,
        },
    decreases s.len(),
{
    if s.len() > 0 {
        lemma_last_index(s.drop_last(), k);
        if s.last().key() != k {
            assert forall|m: int| 0 <= m < s.len() - 1 implies #[trigger] s[m] == s.drop_last()[m] by {}
        }
    }
}

proof fn lemma_last_index_prefix<T: Keyed>(s: Seq<T>, k: Seq<char>, i: int)
    requires
        0 <= i <= s.len(),
        forall|m: int| i <= m < s.len() ==> (#[trigger] s[m]).key() != k,
    ensures
        last_index(s, k) == last_index(s.take(i), k),
    decreases s.len(),
{
    if s.len() > i {
        assert(s.drop_last().take(i) =~= s.take(i));
        lemma_last_index_prefix(s.drop_last(), k, i);
    } else {
        assert(s.take(i) =~= s);
    }
}

/// Index of the last item of `v` with key `k`.
pub fn find_last<T: Keyed>(v: &Vec<T>, k: &str) -> (r: Option<usize>)
    ensures
        match r {
            Some(j) => last_index(v@, k@) == Some(j as int),
            None => last_index(v@, k@) is None,
        },
{
    let mut i: usize = v.len();
    while i > 0
        invariant
            i <= v@.len(),
            forall|m: int| i <= m < v@.len() ==> (#[trigger] v@[m]).key() != k@,
        decreases i,
    {
        i -= 1;
        if str_eq(v[i].key_str(), k) {
            proof {
                lemma_last_index_prefix(v@, k@, i + 1);
                assert(v@.take(i + 1).last() == v@[i as int]);
            }
            return Some(i);
        }
    }
    proof {
        lemma_last_index_prefix(v@, k@, 0);
    }
    None
}

/// Whether some key of `v` occurs twice.
pub fn has_duplicates<T: Keyed>(v: &Vec<T>) -> (r: bool)
    ensures
        r == has_duplicate_keys(v@),
{
    let mut i: usize = 0;
    while i < v.len()
        invariant
            i <= v@.len(),
            forall|k: int| 0 <= k < i ==> is_last(v@, k),
        decreases v.len() - i,
    {
        let j = find_last(v, v[i].key_str());
        proof { lemma_last_index(v@, v@[i as int].key()); }
        match j {
            Some(j) => {
                if j != i {
                    assert(v@[i as int].key() == v@[j as int].key());
                    return true;
                }
            },
            None => {},
        }
        i += 1;
    }
    proof {
        if has_duplicate_keys(v@) {
            let (a, b) = choose|a: int, b: int| 0 <= a < b < v@.len() && #[trigger] v@[a].key() == #[trigger] v@[b].key();
            assert(is_last(v@, a));
            lemma_last_index(v@, v@[a].key());
        }
    }
    false
}

/// Whether some key of `c` does not occur in `b`.
pub fn has_new<T: Keyed>(b: &Vec<T>, c: &Vec<T>) -> (r: bool)
    ensures
        r == has_new_key(b@, c@),
{
    let mut j: usize = 0;
    while j < c.len()
        invariant
            j <= c@.len(),
            forall|k: int| 0 <= k < j ==> !(#[trigger] last_index(b@, c@[k].key()) is None),
        decreases c.len() - j,
    {
        if find_last(b, c[j].key_str()).is_none() {
            return true;
        }
        j += 1;
    }
    false
}

impl Keyed for InterfacePort {
    open spec fn key(&self) -> Seq<char> {
        self.id@
    }

    fn key_str(&self) -> (r: &str) {
        self.id.as_str()
    }
}

impl Keyed for StepPort {
    open spec fn key(&self) -> Seq<char> {
        self.id@
    }

    fn key_str(&self) -> (r: &str) {
        self.id.as_str()
    }
}

impl Keyed for PipelineStep {
    open spec fn key(&self) -> Seq<char> {
        self.id@
    }

    fn key_str(&self) -> (r: &str) {
        self.id.as_str()
    }
}

impl Keyed for ContractReference {
    open spec fn key(&self) -> Seq<char> {
        self.id@
    }

    fn key_str(&self) -> (r: &str) {
        self.id.as_str()
    }
}

/// Items whose matched pairs can be compared field by field.
pub trait Compared: Keyed {
    /// Findings for a baseline item and its matched candidate item; messages
    /// start with `msgp` and the item's key, object references with `objp`
    /// and the item's key.
    spec fn change_views(&self, other: &Self, msgp: Seq<char>, objp: Seq<char>) -> Seq<DiagnosticView>;

    /// Findings for a baseline item and its matched candidate item.
    fn changes(&self, other: &Self, msgp: &str, objp: &str) -> (r: Vec<Diagnostic>)
        ensures
            diag_views(r@) == self.change_views(other, msgp@, objp@),
    ;
}

/// Findings for baseline item `i`: removal when its key is gone from the
/// candidate, otherwise the field changes against the matched item. Only the
/// last occurrence of a key is considered.
pub open spec fn removal_or_changes<T: Compared>(
    b: Seq<T>,
    c: Seq<T>,
    i: int,
    code: Seq<char>,
    msgp: Seq<char>,
    objp: Seq<char>,
) -> Seq<DiagnosticView> {
    if !is_last(b, i) {
        Seq::empty()
    } else {
        match last_index(c, b[i].key()) {
            None => seq![breaking_view(code, msgp + b[i].key() + "` removed"@, objp + b[i].key())],
            Some(j) => b[i].change_views(&c[j], msgp, objp),
        }
    }
}

/// Findings for the first `k` baseline items.
pub open spec fn removals_and_changes<T: Compared>(
    b: Seq<T>,
    c: Seq<T>,
    k: int,
    code: Seq<char>,
    msgp: Seq<char>,
    objp: Seq<char>,
) -> Seq<DiagnosticView>
    decreases k,
{
    if k <= 0 {
        Seq::empty()
    } else {
        removals_and_changes(b, c, k - 1, code, msgp, objp) + removal_or_changes(b, c, k - 1, code, msgp, objp)
    }
}

/// Note for candidate item `j` when its key is new (last occurrence only).
pub open spec fn addition<T: Keyed>(
    b: Seq<T>,
    c: Seq<T>,
    j: int,
    code: Seq<char>,
    msgp: Seq<char>,
    objp: Seq<char>,
) -> Seq<DiagnosticView> {
    if is_last(c, j) && last_index(b, c[j].key()) is None {
        seq![additive_view(code, msgp + c[j].key() + "` added"@, objp + c[j].key())]
    } else {
        Seq::empty()
    }
}

/// Notes for the first `k` candidate items.
pub open spec fn additions<T: Keyed>(
    b: Seq<T>,
    c: Seq<T>,
    k: int,
    code: Seq<char>,
    msgp: Seq<char>,
    objp: Seq<char>,
) -> Seq<DiagnosticView>
    decreases k,
{
    if k <= 0 {
        Seq::empty()
    } else {
        additions(b, c, k - 1, code, msgp, objp) + addition(b, c, k - 1, code, msgp, objp)
    }
}

/// Removal and change findings for every baseline item.
pub fn removals_and_changes_of<T: Compared>(b: &Vec<T>, c: &Vec<T>, code: &str, msgp: &str, objp: &str) -> (r: Vec<Diagnostic>)
    ensures
        diag_views(r@) == removals_and_changes(b@, c@, b@.len() as int, code@, msgp@, objp@),
{
    let mut out: Vec<Diagnostic> = Vec::new();
    let mut i: usize = 0;
    while i < b.len()
        invariant
            i <= b@.len(),
            diag_views(out@) == removals_and_changes(b@, c@, i as int, code@, msgp@, objp@),
        decreases b.len() - i,
    {
        let ghost before = diag_views(out@);
        let id = b[i].key_str();
        let last = find_last(b, id);
        if last == Some(i) {
            proof { lemma_last_index(c@, id@); }
            match find_last(c, id) {
                None => {
                    out.push(breaking_diag(code, cat3(msgp, id, "` removed"), cat2(objp, id)));
                },
                Some(j) => {
                    let mut found = b[i].changes(&c[j], msgp, objp);
                    let ghost f = diag_views(found@);
                    let ghost o = out@;
                    out.append(&mut found);
                    assert(diag_views(out@) =~= diag_views(o) + f);
                },
            }
        }
        assert(diag_views(out@) =~= before + removal_or_changes(b@, c@, i as int, code@, msgp@, objp@));
        i += 1;
    }
    out
}

/// Additive notes for every candidate item with a new key.
pub fn additions_of<T: Keyed>(b: &Vec<T>, c: &Vec<T>, code: &str, msgp: &str, objp: &str) -> (r: Vec<Diagnostic>)
    ensures
        diag_views(r@) == additions(b@, c@, c@.len() as int, code@, msgp@, objp@),
{
    let mut out: Vec<Diagnostic> = Vec::new();
    let mut j: usize = 0;
    while j < c.len()
        invariant
            j <= c@.len(),
            diag_views(out@) == additions(b@, c@, j as int, code@, msgp@, objp@),
        decreases c.len() - j,
    {
        let ghost before = diag_views(out@);
        let id = c[j].key_str();
        if find_last(c, id) == Some(j) && find_last(b, id).is_none() {
            out.push(additive_diag(code, cat3(msgp, id, "` added"), cat2(objp, id)));
        }
        assert(diag_views(out@) =~= before + addition(b@, c@, j as int, code@, msgp@, objp@));
        j += 1;
    }
    out
}

/// A finding when two optional texts differ.
pub open spec fn when_changed(a: Option<Seq<char>>, b: Option<Seq<char>>, d: DiagnosticView) -> Seq<DiagnosticView> {
    if a != b { seq![d] } else { Seq::empty() }
}

impl Compared for InterfacePort {
    /// Contract reference, name, and purpose changes.
    open spec fn change_views(&self, other: &Self, msgp: Seq<char>, objp: Seq<char>) -> Seq<DiagnosticView> {
        let id = self.id@;
        when_changed(opt_text(self.contract_ref), opt_text(other.contract_ref),
            breaking_view("DPCS-COMPAT-003"@, msgp + id + "` contractRef changed"@, objp + id + ".contractRef"@))
        + when_changed(opt_text(self.name), opt_text(other.name),
            breaking_view("DPCS-COMPAT-013"@, msgp + id + "` name changed"@, objp + id + ".name"@))
        + when_changed(opt_text(self.purpose), opt_text(other.purpose),
            breaking_view("DPCS-COMPAT-014"@, msgp + id + "` purpose changed"@, objp + id + ".purpose"@))
    }

    fn changes(&self, other: &Self, msgp: &str, objp: &str) -> (r: Vec<Diagnostic>) {
        let id = self.id.as_str();
        let at = cat2(objp, id);
        let mut out: Vec<Diagnostic> = Vec::new();
        if !same_opt(&self.contract_ref, &other.contract_ref) {
            out.push(breaking_diag("DPCS-COMPAT-003", cat3(msgp, id, "` contractRef changed"), cat2(at.as_str(), ".contractRef")));
        }
        let ghost first = diag_views(out@);
        if !same_opt(&self.name, &other.name) {
            out.push(breaking_diag("DPCS-COMPAT-013", cat3(msgp, id, "` name changed"), cat2(at.as_str(), ".name")));
        }
        let ghost second = diag_views(out@);
        if !same_opt(&self.purpose, &other.purpose) {
            out.push(breaking_diag("DPCS-COMPAT-014", cat3(msgp, id, "` purpose changed"), cat2(at.as_str(), ".purpose")));
        }
        proof {
            reveal_strlit("DPCS-COMPAT-003");
            reveal_strlit("DPCS-COMPAT-013");
            reveal_strlit("DPCS-COMPAT-014");
            assert(diag_views(out@) =~= self.change_views(other, msgp@, objp@));
        }
        out
    }
}

impl Compared for StepPort {
    /// Contract reference change.
    open spec fn change_views(&self, other: &Self, msgp: Seq<char>, objp: Seq<char>) -> Seq<DiagnosticView> {
        let id = self.id@;
        when_changed(opt_text(self.contract_ref), opt_text(other.contract_ref),
            breaking_view("DPCS-COMPAT-018"@, msgp + id + "` contractRef changed"@, objp + id + ".contractRef"@))
    }

    fn changes(&self, other: &Self, msgp: &str, objp: &str) -> (r: Vec<Diagnostic>) {
        let id = self.id.as_str();
        let mut out: Vec<Diagnostic> = Vec::new();
        if !same_opt(&self.contract_ref, &other.contract_ref) {
            let at = cat2(objp, id);
            out.push(breaking_diag("DPCS-COMPAT-018", cat3(msgp, id, "` contractRef changed"), cat2(at.as_str(), ".contractRef")));
        }
        assert(diag_views(out@) =~= self.change_views(other, msgp@, objp@));
        out
    }
}

impl Compared for ContractReference {
    /// Reference type or location change.
    open spec fn change_views(&self, other: &Self, msgp: Seq<char>, objp: Seq<char>) -> Seq<DiagnosticView> {
        let id = self.id@;
        if self.reference_type@ != other.reference_type@ || self.location@ != other.location@ {
            seq![breaking_view("DPCS-COMPAT-011"@, msgp + id + "` type/location changed"@, objp + id)]
        } else {
            Seq::empty()
        }
    }

    fn changes(&self, other: &Self, msgp: &str, objp: &str) -> (r: Vec<Diagnostic>) {
        let id = self.id.as_str();
        let mut out: Vec<Diagnostic> = Vec::new();
        if !str_eq(self.reference_type.as_str(), other.reference_type.as_str())
            || !str_eq(self.location.as_str(), other.location.as_str()) {
            out.push(breaking_diag("DPCS-COMPAT-011", cat3(msgp, id, "` type/location changed"), cat2(objp, id)));
        }
        assert(diag_views(out@) =~= self.change_views(other, msgp@, objp@));
        out
    }
}

} // verus!
