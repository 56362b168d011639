//! Validation report aggregation and Diagnostic Reports.
use vstd::prelude::*;

use super::{owned, Diagnostic, DiagnosticView, Severity};
use crate::text::{compare, compare_str, lemma_compare_antisym, lemma_compare_le_trans};

verus! {

/// Deterministic collection of diagnostics produced by validation.
#[derive(Debug)]
pub struct ValidationReport {
    /// Diagnostics in deterministic order.
    pub diagnostics: Vec<Diagnostic>,
}

/// Models of a list of diagnostics.
pub open spec fn diag_views(v: Seq<Diagnostic>) -> Seq<DiagnosticView> {
    v.map_values(|d: Diagnostic| d@)
}

impl View for ValidationReport {
    type V = Seq<DiagnosticView>;

    open spec fn view(&self) -> Seq<DiagnosticView> {
        diag_views(self.diagnostics@)
    }
}

/// The diagnostics of `s` with severity `sev`, in order.
pub open spec fn with_severity(s: Seq<DiagnosticView>, sev: Severity) -> Seq<DiagnosticView>
    decreases s.len(),
{
    if s.len() == 0 {
        Seq::empty()
    } else if s.last().severity == sev {
        with_severity(s.drop_last(), sev).push(s.last())
    } else {
        with_severity(s.drop_last(), sev)
    }
}

/// No diagnostic of `s` is an error.
pub open spec fn no_errors(s: Seq<DiagnosticView>) -> bool {
    forall|i: int| 0 <= i < s.len() ==> (#[trigger] s[i]).severity != Severity::Error
}

/// Three-way comparison of optional text (`None` first).
pub open spec fn compare_opt(a: Option<Seq<char>>, b: Option<Seq<char>>) -> int {
    match (a, b) {
        (None, None) => 0,
        (None, Some(_)) => -1,
        (Some(_), None) => 1,
        (Some(x), Some(y)) => compare(x, y),
    }
}

/// Deterministic order of diagnostics: by id, then object reference, then message.
pub open spec fn key_compare(a: DiagnosticView, b: DiagnosticView) -> int {
    let c = compare(a.id, b.id);
    if c != 0 {
        c
    } else {
        let o = compare_opt(a.object_ref, b.object_ref);
        if o != 0 { o } else { compare(a.message, b.message) }
    }
}

/// Insert `x` after every element that does not sort after it.
pub open spec fn insert_sorted(s: Seq<DiagnosticView>, x: DiagnosticView) -> Seq<DiagnosticView>
    decreases s.len(),
{
    if s.len() == 0 {
        seq![x]
    } else if key_compare(s.last(), x) <= 0 {
        s.push(x)
    } else {
        insert_sorted(s.drop_last(), x).push(s.last())
    }
}

/// Stable sort of diagnostics by [`key_compare`].
pub open spec fn sort_diagnostics(s: Seq<DiagnosticView>) -> Seq<DiagnosticView>
    decreases s.len(),
{
    if s.len() == 0 {
        s
    } else {
        insert_sorted(sort_diagnostics(s.drop_last()), s.last())
    }
}

proof fn lemma_insert_at(s: Seq<DiagnosticView>, x: DiagnosticView, j: int)
    requires
        0 <= j <= s.len(),
        forall|k: int| j <= k < s.len() ==> key_compare(#[trigger] s[k], x) > 0,
        j == 0 || key_compare(s[j - 1], x) <= 0,
    ensures
        insert_sorted(s, x) == s.take(j).push(x) + s.skip(j),
    decreases s.len(),
{
    if s.len() == 0 {
        assert(s.take(j).push(x) + s.skip(j) =~= seq![x]);
    } else if j == s.len() {
        assert(s.take(j).push(x) + s.skip(j) =~= s.push(x));
    } else {
        let t = s.drop_last();
        assert forall|k: int| j <= k < t.len() implies key_compare(#[trigger] t[k], x) > 0 by {
            assert(t[k] == s[k]);
        }
        lemma_insert_at(t, x, j);
        assert(t.take(j).push(x) + t.skip(j) + seq![s.last()] =~= s.take(j).push(x) + s.skip(j));
    }
}

/// Three-way comparison of optional text.
fn compare_opt_exec(a: &Option<String>, b: &Option<String>) -> (r: i8)
    ensures
        r as int == compare_opt(super::opt_text(*a), super::opt_text(*b)),
{
    match (a, b) {
        (None, None) => 0,
        (None, Some(_)) => -1,
        (Some(_), None) => 1,
        (Some(x), Some(y)) => compare_str(x.as_str(), y.as_str()),
    }
}

/// Deterministic three-way comparison of two diagnostics.
pub fn key_compare_exec(a: &Diagnostic, b: &Diagnostic) -> (r: i8)
    ensures
        r as int == key_compare(a@, b@),
{
    let c = compare_str(a.id.as_str(), b.id.as_str());
    if c != 0 {
        return c;
    }
    let o = compare_opt_exec(&a.object_ref, &b.object_ref);
    if o != 0 {
        return o;
    }
    compare_str(a.message.as_str(), b.message.as_str())
}

impl ValidationReport {
    /// Create an empty report.
    pub fn new() -> (r: ValidationReport)
        ensures
            r@ == Seq::<DiagnosticView>::empty(),
    {
        let r = ValidationReport { diagnostics: Vec::new() };
        assert(r@ =~= Seq::<DiagnosticView>::empty());
        r
    }

    /// Append a diagnostic.
    pub fn push(&mut self, diagnostic: Diagnostic)
        ensures
            final(self)@ == old(self)@.push(diagnostic@),
    {
        self.diagnostics.push(diagnostic);
        assert(self@ =~= old(self)@.push(diagnostic@));
    }

    /// Extend with diagnostics from another report.
    pub fn extend(&mut self, other: ValidationReport)
        ensures
            final(self)@ == old(self)@ + other@,
    {
        let mut other = other;
        let ghost o = other@;
        self.diagnostics.append(&mut other.diagnostics);
        assert(self@ =~= old(self)@ + o);
    }

    /// Returns `true` when the report contains no error-severity diagnostics.
    pub fn is_valid(&self) -> (r: bool)
        ensures
            r == no_errors(self@),
    {
        let mut i: usize = 0;
        while i < self.diagnostics.len()
            invariant
                i <= self.diagnostics@.len(),
                forall|k: int| 0 <= k < i ==> (#[trigger] self@[k]).severity != Severity::Error,
            decreases self.diagnostics.len() - i,
        {
            if self.diagnostics[i].severity == Severity::Error {
                assert(self@[i as int].severity == Severity::Error);
                return false;
            }
            i += 1;
        }
        true
    }

    fn of_severity(&self, sev: Severity) -> (r: Vec<Diagnostic>)
        ensures
            diag_views(r@) == with_severity(self@, sev),
    {
        let mut out: Vec<Diagnostic> = Vec::new();
        let mut i: usize = 0;
        while i < self.diagnostics.len()
            invariant
                i <= self.diagnostics@.len(),
                diag_views(out@) == with_severity(self@.take(i as int), sev),
            decreases self.diagnostics.len() - i,
        {
            assert(self@.take(i + 1).drop_last() =~= self@.take(i as int));
            if self.diagnostics[i].severity == sev {
                out.push(self.diagnostics[i].clone());
            }
            assert(diag_views(out@) =~= with_severity(self@.take(i + 1), sev));
            i += 1;
        }
        assert(self@.take(self@.len() as int) =~= self@);
        out
    }

    /// Error diagnostics, in report order.
    pub fn errors(&self) -> (r: Vec<Diagnostic>)
        ensures
            diag_views(r@) == with_severity(self@, Severity::Error),
    {
        self.of_severity(Severity::Error)
    }

    /// Warning diagnostics, in report order.
    pub fn warnings(&self) -> (r: Vec<Diagnostic>)
        ensures
            diag_views(r@) == with_severity(self@, Severity::Warning),
    {
        self.of_severity(Severity::Warning)
    }

    /// Informational diagnostics, in report order.
    pub fn informations(&self) -> (r: Vec<Diagnostic>)
        ensures
            diag_views(r@) == with_severity(self@, Severity::Information),
    {
        self.of_severity(Severity::Information)
    }

    /// Number of error diagnostics.
    pub fn error_count(&self) -> (r: usize)
        ensures
            r == with_severity(self@, Severity::Error).len(),
    {
        self.errors().len()
    }

    /// Number of warning diagnostics.
    pub fn warning_count(&self) -> (r: usize)
        ensures
            r == with_severity(self@, Severity::Warning).len(),
    {
        self.warnings().len()
    }

    /// Number of informational diagnostics.
    pub fn information_count(&self) -> (r: usize)
        ensures
            r == with_severity(self@, Severity::Information).len(),
    {
        self.informations().len()
    }

    /// Sort diagnostics deterministically by id, then object_ref, then message.
    pub fn sort_deterministic(&mut self)
        ensures
            final(self)@ == sort_diagnostics(old(self)@),
    {
        let ghost input = self@;
        let mut out: Vec<Diagnostic> = Vec::new();
        let mut i: usize = 0;
        assert(input.take(0) =~= Seq::<DiagnosticView>::empty());
        while i < self.diagnostics.len()
            invariant
                i <= self.diagnostics@.len(),
                input == self@,
                diag_views(out@) == sort_diagnostics(input.take(i as int)),
            decreases self.diagnostics.len() - i,
        {
            let d = self.diagnostics[i].clone();
            let mut j: usize = out.len();
            while j > 0 && key_compare_exec(&out[j - 1], &d) > 0
                invariant
                    j <= out@.len(),
                    forall|k: int| j <= k < out@.len() ==> key_compare(#[trigger] diag_views(out@)[k], d@) > 0,
                decreases j,
            {
                j -= 1;
            }
            proof {
                lemma_insert_at(diag_views(out@), d@, j as int);
                assert(input.take(i + 1).drop_last() =~= input.take(i as int));
            }
            let ghost before = out@;
            out.insert(j, d);
            assert(diag_views(out@) =~= diag_views(before).take(j as int).push(d@) + diag_views(before).skip(j as int));
            i += 1;
        }
        assert(input.take(input.len() as int) =~= input);
        self.diagnostics = out;
    }

    /// Wrap this report as a [`DiagnosticReport`] with processing metadata.
    pub fn into_diagnostic_report(
        self,
        artifact_id: Option<String>,
        processing_result: ProcessingResult,
    ) -> (r: DiagnosticReport)
        ensures
            r.processing_result == processing_result,
            r.artifact_id == artifact_id,
            r.implementation.is_default(),
            diag_views(r.diagnostics@) == self@,
    {
        DiagnosticReport {
            processing_result,
            artifact_id,
            implementation: ImplementationMetadata::dpcs_default(),
            diagnostics: self.diagnostics,
        }
    }
}

/// Overall processing result for a diagnostic report.
#[derive(Debug, Clone, Copy, PartialEq, Eq, Structural)]
pub enum ProcessingResult {
    /// No error-severity diagnostics.
    Valid,
    /// One or more error-severity diagnostics.
    Invalid,
}

impl ProcessingResult {
    /// Derive processing result from a validation report.
    pub fn from_report(report: &ValidationReport) -> (r: ProcessingResult)
        ensures
            r == (if no_errors(report@) { ProcessingResult::Valid } else { ProcessingResult::Invalid }),
    {
        if report.is_valid() {
            ProcessingResult::Valid
        } else {
            ProcessingResult::Invalid
        }
    }

    /// Display label (`valid` / `invalid`).
    pub fn as_str(&self) -> (r: &'static str)
        ensures
            r@ == (if *self == ProcessingResult::Valid { "valid"@ } else { "invalid"@ }),
    {
        match self {
            ProcessingResult::Valid => {
                proof { reveal_strlit("valid"); }
                "valid"
            },
            ProcessingResult::Invalid => {
                proof { reveal_strlit("invalid"); }
                "invalid"
            },
        }
    }
}

/// Implementation identity metadata attached to diagnostic reports.
#[derive(Debug)]
pub struct ImplementationMetadata {
    /// Implementation name.
    pub name: String,
    /// Implementation version.
    pub version: String,
    /// Supported DPCS specification version.
    pub dpcs_spec_version: String,
}

impl ImplementationMetadata {
    /// This toolkit's identity.
    pub open spec fn is_default(&self) -> bool {
        &&& self.name@ == "dpcs"@
        &&& self.version@ == crate::VERSION@
        &&& self.dpcs_spec_version@ == crate::DPCS_SPEC_VERSION@
    }

    /// Metadata for this `dpcs` toolkit.
    pub fn dpcs_default() -> (r: ImplementationMetadata)
        ensures
            r.is_default(),
    {
        ImplementationMetadata {
            name: owned("dpcs"),
            version: owned(crate::VERSION),
            dpcs_spec_version: owned(crate::DPCS_SPEC_VERSION),
        }
    }
}

/// Aggregated diagnostic report with processing metadata.
#[derive(Debug)]
pub struct DiagnosticReport {
    /// Overall processing result.
    pub processing_result: ProcessingResult,
    /// Optional associated artifact identity.
    pub artifact_id: Option<String>,
    /// Implementation that produced the report.
    pub implementation: ImplementationMetadata,
    /// Diagnostics in deterministic order.
    pub diagnostics: Vec<Diagnostic>,
}

impl DiagnosticReport {
    /// Build a diagnostic report from a validation report.
    pub fn from_validation(report: ValidationReport, artifact_id: Option<String>) -> (r: DiagnosticReport)
        ensures
            r.processing_result == (if no_errors(report@) { ProcessingResult::Valid } else { ProcessingResult::Invalid }),
            r.artifact_id == artifact_id,
            r.implementation.is_default(),
            diag_views(r.diagnostics@) == report@,
    {
        let processing_result = ProcessingResult::from_report(&report);
        report.into_diagnostic_report(artifact_id, processing_result)
    }

    /// Returns `true` when processing result is valid.
    pub fn is_valid(&self) -> (r: bool)
        ensures
            r == (self.processing_result == ProcessingResult::Valid),
    {
        self.processing_result == ProcessingResult::Valid
    }
}

/// Diagnostics in non-decreasing [`key_compare`] order.
pub open spec fn diagnostics_sorted(s: Seq<DiagnosticView>) -> bool {
    forall|i: int, j: int| 0 <= i < j < s.len() ==> key_compare(#[trigger] s[i], #[trigger] s[j]) <= 0
}

proof fn lemma_compare_opt(a: Option<Seq<char>>, b: Option<Seq<char>>)
    ensures
        compare_opt(a, b) == -compare_opt(b, a),
        (compare_opt(a, b) == 0) == (a == b),
{
    match (a, b) {
        (Some(x), Some(y)) => lemma_compare_antisym(x, y),
        _ => {},
    }
}

proof fn lemma_key_antisym(a: DiagnosticView, b: DiagnosticView)
    ensures
        key_compare(a, b) == -key_compare(b, a),
{
    lemma_compare_antisym(a.id, b.id);
    lemma_compare_opt(a.object_ref, b.object_ref);
    lemma_compare_antisym(a.message, b.message);
}

proof fn lemma_compare_opt_le_trans(a: Option<Seq<char>>, b: Option<Seq<char>>, c: Option<Seq<char>>)
    requires
        compare_opt(a, b) <= 0,
        compare_opt(b, c) <= 0,
    ensures
        compare_opt(a, c) <= 0,
{
    match (a, b, c) {
        (Some(x), Some(y), Some(z)) => lemma_compare_le_trans(x, y, z),
        _ => {},
    }
}

proof fn lemma_key_le_trans(a: DiagnosticView, b: DiagnosticView, c: DiagnosticView)
    requires
        key_compare(a, b) <= 0,
        key_compare(b, c) <= 0,
    ensures
        key_compare(a, c) <= 0,
{
    lemma_compare_antisym(a.id, b.id);
    lemma_compare_antisym(b.id, c.id);
    lemma_compare_antisym(a.id, c.id);
    lemma_compare_opt(a.object_ref, b.object_ref);
    lemma_compare_opt(b.object_ref, c.object_ref);
    lemma_compare_opt(a.object_ref, c.object_ref);
    lemma_compare_antisym(a.message, b.message);
    lemma_compare_antisym(b.message, c.message);
    lemma_compare_le_trans(a.id, b.id, c.id);
    if compare(a.id, c.id) == 0 {
        lemma_compare_opt_le_trans(a.object_ref, b.object_ref, c.object_ref);
        if compare_opt(a.object_ref, c.object_ref) == 0 {
            lemma_compare_le_trans(a.message, b.message, c.message);
        }
    }
}

proof fn lemma_insert_sorted(s: Seq<DiagnosticView>, x: DiagnosticView)
    ensures
        insert_sorted(s, x).to_multiset() == s.to_multiset().insert(x),
        forall|e: DiagnosticView| #[trigger] insert_sorted(s, x).contains(e) ==> s.contains(e) || e == x,
        diagnostics_sorted(s) ==> diagnostics_sorted(insert_sorted(s, x)),
    decreases s.len(),
{
    broadcast use vstd::seq_lib::group_to_multiset_ensures;
    if s.len() == 0 {
        assert(seq![x] =~= Seq::<DiagnosticView>::empty().push(x));
    } else if key_compare(s.last(), x) <= 0 {
        if diagnostics_sorted(s) {
            let r = s.push(x);
            assert forall|i: int, j: int| 0 <= i < j < r.len() implies key_compare(#[trigger] r[i], #[trigger] r[j]) <= 0 by {
                if j == s.len() && i < s.len() - 1 {
                    lemma_key_le_trans(s[i], s.last(), x);
                }
            }
        }
    } else {
        let t = s.drop_last();
        let l = s.last();
        lemma_insert_sorted(t, x);
        let u = insert_sorted(t, x);
        assert(s =~= t.push(l));
        assert forall|e: DiagnosticView| #[trigger] insert_sorted(s, x).contains(e) implies s.contains(e) || e == x by {
            if u.contains(e) {
                if t.contains(e) {
                    let k = choose|k: int| 0 <= k < t.len() && t[k] == e;
                    assert(s[k] == e);
                }
            } else {
                assert(e == l);
                assert(s[s.len() - 1] == l);
            }
        }
        if diagnostics_sorted(s) {
            let r = u.push(l);
            lemma_key_antisym(l, x);
            assert forall|i: int, j: int| 0 <= i < j < r.len() implies key_compare(#[trigger] r[i], #[trigger] r[j]) <= 0 by {
                if j == u.len() {
                    assert(u.contains(u[i]));
                    if u[i] != x {
                        let k = choose|k: int| 0 <= k < t.len() && t[k] == u[i];
                        assert(s[k] == t[k]);
                    }
                } else {
                    assert(r[i] == u[i] && r[j] == u[j]);
                }
            }
        }
    }
}

/// Sorting diagnostics keeps every diagnostic (it is a permutation) and puts
/// them in non-decreasing order of id, object reference, and message.
pub proof fn law_sort_is_sorted_permutation(s: Seq<DiagnosticView>)
    ensures
        sort_diagnostics(s).to_multiset() == s.to_multiset(),
        diagnostics_sorted(sort_diagnostics(s)),
    decreases s.len(),
{
    broadcast use vstd::seq_lib::group_to_multiset_ensures;
    if s.len() > 0 {
        law_sort_is_sorted_permutation(s.drop_last());
        lemma_insert_sorted(sort_diagnostics(s.drop_last()), s.last());
        assert(s =~= s.drop_last().push(s.last()));
    }
}

/// Sorting neither adds nor removes an error.
pub proof fn lemma_sort_no_errors(s: Seq<DiagnosticView>)
    ensures
        no_errors(sort_diagnostics(s)) == no_errors(s),
{
    broadcast use vstd::seq_lib::group_to_multiset_ensures;
    law_sort_is_sorted_permutation(s);
    let t = sort_diagnostics(s);
    assert forall|x: DiagnosticView| t.contains(x) <==> s.contains(x) by {
        assert(t.to_multiset().count(x) == s.to_multiset().count(x));
    }
    if !no_errors(s) {
        let i = choose|i: int| 0 <= i < s.len() && (#[trigger] s[i]).severity == Severity::Error;
        assert(s.contains(s[i]));
        assert(t.contains(s[i]));
    }
    if !no_errors(t) {
        let i = choose|i: int| 0 <= i < t.len() && (#[trigger] t[i]).severity == Severity::Error;
        assert(t.contains(t[i]));
        assert(s.contains(t[i]));
    }
}


/// Diagnostics whose sort key equals that of `x`.
pub open spec fn same_key(x: DiagnosticView) -> spec_fn(DiagnosticView) -> bool {
    |d: DiagnosticView| key_compare(d, x) == 0
}

proof fn lemma_insert_keeps_class(s: Seq<DiagnosticView>, y: DiagnosticView, x: DiagnosticView)
    ensures
        insert_sorted(s, y).filter(same_key(x)) == (if key_compare(y, x) == 0 {
            s.filter(same_key(x)).push(y)
        } else {
            s.filter(same_key(x))
        }),
    decreases s.len(),
{
    reveal(Seq::filter);
    let p = same_key(x);
    let r = insert_sorted(s, y);
    assert(p(y) == (key_compare(y, x) == 0));
    if s.len() == 0 {
        assert(r == seq![y]);
        assert(r.drop_last() =~= s);
        assert(s.filter(p) == s);
        assert(r.last() == y);
    } else if key_compare(s.last(), y) <= 0 {
        assert(r == s.push(y));
        assert(r.drop_last() =~= s);
        assert(r.last() == y);
    } else {
        let t = s.drop_last();
        let l = s.last();
        lemma_insert_keeps_class(t, y, x);
        let u = insert_sorted(t, y);
        assert(r == u.push(l));
        assert(r.drop_last() =~= u);
        assert(r.last() == l);
        assert(p(l) == (key_compare(l, x) == 0));
        if key_compare(y, x) == 0 && key_compare(l, x) == 0 {
            lemma_key_antisym(y, x);
            lemma_key_le_trans(l, x, y);
            assert(false);
        }
        assert(r.filter(p) == if p(l) { u.filter(p).push(l) } else { u.filter(p) });
        assert(s.filter(p) == if p(l) { t.filter(p).push(l) } else { t.filter(p) });
    }
}

/// Sorting is stable: diagnostics with equal keys (id, object reference and
/// message) keep their relative order.
pub proof fn law_sort_is_stable(s: Seq<DiagnosticView>, x: DiagnosticView)
    ensures
        sort_diagnostics(s).filter(same_key(x)) == s.filter(same_key(x)),
    decreases s.len(),
{
    reveal(Seq::filter);
    let p = same_key(x);
    if s.len() > 0 {
        law_sort_is_stable(s.drop_last(), x);
        lemma_insert_keeps_class(sort_diagnostics(s.drop_last()), s.last(), x);
        assert(p(s.last()) == (key_compare(s.last(), x) == 0));
        assert(s.filter(p) == if p(s.last()) { s.drop_last().filter(p).push(s.last()) } else { s.drop_last().filter(p) });
    } else {
        assert(sort_diagnostics(s) == s);
    }
}

/// Sorting diagnostics that are already in order changes nothing; so sorting
/// twice gives what sorting once gives.
pub proof fn law_sort_is_idempotent(s: Seq<DiagnosticView>)
    ensures
        diagnostics_sorted(s) ==> sort_diagnostics(s) == s,
        sort_diagnostics(sort_diagnostics(s)) == sort_diagnostics(s),
{
    if diagnostics_sorted(s) {
        lemma_sorted_is_fixed(s);
    }
    law_sort_is_sorted_permutation(s);
    lemma_sorted_is_fixed(sort_diagnostics(s));
}

proof fn lemma_sorted_is_fixed(s: Seq<DiagnosticView>)
    requires
        diagnostics_sorted(s),
    ensures
        sort_diagnostics(s) == s,
    decreases s.len(),
{
    if s.len() > 0 {
        let t = s.drop_last();
        assert(diagnostics_sorted(t)) by {
            assert forall|i: int, j: int| 0 <= i < j < t.len() implies key_compare(#[trigger] t[i], #[trigger] t[j]) <= 0 by {
                assert(t[i] == s[i] && t[j] == s[j]);
            }
        }
        lemma_sorted_is_fixed(t);
        if t.len() == 0 {
            assert(seq![s.last()] =~= s);
        } else {
            assert(key_compare(s[t.len() - 1], s[s.len() - 1]) <= 0);
            assert(t.push(s.last()) =~= s);
        }
    }
}

/// A concatenation holds no error exactly when neither part does.
pub proof fn lemma_no_errors_concat(a: Seq<DiagnosticView>, b: Seq<DiagnosticView>)
    ensures
        no_errors(a + b) == (no_errors(a) && no_errors(b)),
{
    if no_errors(a) && no_errors(b) {
        assert forall|i: int| 0 <= i < (a + b).len() implies (#[trigger] (a + b)[i]).severity != Severity::Error by {
            if i < a.len() {
                assert((a + b)[i] == a[i]);
            } else {
                assert((a + b)[i] == b[i - a.len()]);
            }
        }
    }
    if !no_errors(a) {
        let i = choose|i: int| 0 <= i < a.len() && (#[trigger] a[i]).severity == Severity::Error;
        assert((a + b)[i] == a[i]);
    }
    if !no_errors(b) {
        let i = choose|i: int| 0 <= i < b.len() && (#[trigger] b[i]).severity == Severity::Error;
        assert((a + b)[a.len() + i] == b[i]);
    }
}

} // verus!
