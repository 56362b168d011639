//! Set differences of text lists, reported in list order.
use vstd::prelude::*;

use crate::diagnostics::report::diag_views;
use crate::diagnostics::{texts, Diagnostic, DiagnosticView};

use super::fingerprint::Fingerprint;
use super::keyed::{additive_diag, additive_view, breaking_diag, breaking_view, cat2, cat3, warning_diag, warning_view};

verus! {

/// Entry `i` is the first occurrence of its text.
pub open spec fn is_first(s: Seq<Seq<char>>, i: int) -> bool {
    forall|k: int| 0 <= k < i ==> s[k] != s[i]
}

/// Some entry of `c` is missing from `b`.
pub open spec fn has_new_text(b: Seq<Seq<char>>, c: Seq<Seq<char>>) -> bool {
    exists|j: int| 0 <= j < c.len() && !b.contains(#[trigger] c[j])
}

/// Finding for baseline entry `i` missing from the candidate (first
/// occurrence only).
pub open spec fn set_removal(
    b: Seq<Seq<char>>,
    c: Seq<Seq<char>>,
    i: int,
    code: Seq<char>,
    msgp: Seq<char>,
    msgs: Seq<char>,
    objp: Seq<char>,
    with_entry: bool,
) -> Seq<DiagnosticView> {
    if is_first(b, i) && !c.contains(b[i]) {
        seq![breaking_view(code, msgp + b[i] + msgs, if with_entry { objp + b[i] } else { objp })]
    } else {
        Seq::empty()
    }
}

/// Findings for the first `k` baseline entries.
pub open spec fn set_removals(
    b: Seq<Seq<char>>,
    c: Seq<Seq<char>>,
    k: int,
    code: Seq<char>,
    msgp: Seq<char>,
    msgs: Seq<char>,
    objp: Seq<char>,
    with_entry: bool,
) -> Seq<DiagnosticView>
    decreases k,
{
    if k <= 0 {
        Seq::empty()
    } else {
        set_removals(b, c, k - 1, code, msgp, msgs, objp, with_entry) + set_removal(b, c, k - 1, code, msgp, msgs, objp, with_entry)
    }
}

/// Note for candidate entry `j` missing from the baseline (first occurrence only).
pub open spec fn set_addition(b: Seq<Seq<char>>, c: Seq<Seq<char>>, j: int, code: Seq<char>, msgp: Seq<char>, objp: Seq<char>) -> Seq<DiagnosticView> {
    if is_first(c, j) && !b.contains(c[j]) {
        seq![additive_view(code, msgp + c[j] + "` added"@, objp + c[j])]
    } else {
        Seq::empty()
    }
}

/// Notes for the first `k` candidate entries.
pub open spec fn set_additions(b: Seq<Seq<char>>, c: Seq<Seq<char>>, k: int, code: Seq<char>, msgp: Seq<char>, objp: Seq<char>) -> Seq<DiagnosticView>
    decreases k,
{
    if k <= 0 {
        Seq::empty()
    } else {
        set_additions(b, c, k - 1, code, msgp, objp) + set_addition(b, c, k - 1, code, msgp, objp)
    }
}

/// Warning for baseline entry `i` missing from the candidate (first occurrence only).
pub open spec fn set_warning(b: Seq<Seq<char>>, c: Seq<Seq<char>>, i: int, code: Seq<char>, msgp: Seq<char>, msgs: Seq<char>) -> Seq<DiagnosticView> {
    if is_first(b, i) && !c.contains(b[i]) {
        seq![warning_view(code, msgp + b[i] + msgs, b[i])]
    } else {
        Seq::empty()
    }
}

/// Warnings for the first `k` baseline entries.
pub open spec fn set_warnings(b: Seq<Seq<char>>, c: Seq<Seq<char>>, k: int, code: Seq<char>, msgp: Seq<char>, msgs: Seq<char>) -> Seq<DiagnosticView>
    decreases k,
{
    if k <= 0 {
        Seq::empty()
    } else {
        set_warnings(b, c, k - 1, code, msgp, msgs) + set_warning(b, c, k - 1, code, msgp, msgs)
    }
}

/// Whether `v` holds the text `x`.
pub fn holds(v: &Vec<String>, x: &String) -> (r: bool)
    ensures
        r == texts(v@).contains(x@),
{
    let mut i: usize = 0;
    while i < v.len()
        invariant
            i <= v@.len(),
            forall|k: int| 0 <= k < i ==> (#[trigger] v@[k])@ != x@,
        decreases v.len() - i,
    {
        if v[i].same_fingerprint(x) {
            assert(texts(v@)[i as int] == x@);
            return true;
        }
        i += 1;
    }
    proof {
        if texts(v@).contains(x@) {
            let k = choose|k: int| 0 <= k < texts(v@).len() && texts(v@)[k] == x@;
            assert(v@[k]@ == x@);
        }
    }
    false
}

/// Whether entry `i` of `v` is the first occurrence of its text.
fn first_occurrence(v: &Vec<String>, i: usize) -> (r: bool)
    requires
        i < v@.len(),
    ensures
        r == is_first(texts(v@), i as int),
{
    let mut k: usize = 0;
    while k < i
        invariant
            k <= i < v@.len(),
            forall|m: int| 0 <= m < k ==> texts(v@)[m] != texts(v@)[i as int],
        decreases i - k,
    {
        if v[k].same_fingerprint(&v[i]) {
            assert(texts(v@)[k as int] == texts(v@)[i as int]);
            return false;
        }
        k += 1;
    }
    true
}

/// Whether some entry of `c` is missing from `b`.
pub fn has_new_entry(b: &Vec<String>, c: &Vec<String>) -> (r: bool)
    ensures
        r == has_new_text(texts(b@), texts(c@)),
{
    let mut j: usize = 0;
    while j < c.len()
        invariant
            j <= c@.len(),
            forall|k: int| 0 <= k < j ==> texts(b@).contains(#[trigger] texts(c@)[k]),
        decreases c.len() - j,
    {
        if !holds(b, &c[j]) {
            assert(!texts(b@).contains(texts(c@)[j as int]));
            return true;
        }
        j += 1;
    }
    false
}

/// Breaking findings for baseline entries missing from the candidate.
pub fn removals_between(
    b: &Vec<String>,
    c: &Vec<String>,
    code: &str,
    msgp: &str,
    msgs: &str,
    objp: &str,
    with_entry: bool,
) -> (r: Vec<Diagnostic>)
    ensures
        diag_views(r@) == set_removals(texts(b@), texts(c@), b@.len() as int, code@, msgp@, msgs@, objp@, with_entry),
{
    let mut out: Vec<Diagnostic> = Vec::new();
    let mut i: usize = 0;
    while i < b.len()
        invariant
            i <= b@.len(),
            diag_views(out@) == set_removals(texts(b@), texts(c@), i as int, code@, msgp@, msgs@, objp@, with_entry),
        decreases b.len() - i,
    {
        let ghost before = diag_views(out@);
        if first_occurrence(b, i) && !holds(c, &b[i]) {
            let e = b[i].as_str();
            let obj = if with_entry { cat2(objp, e) } else { String::from_str(objp) };
            out.push(breaking_diag(code, cat3(msgp, e, msgs), obj));
        }
        assert(diag_views(out@) =~= before + set_removal(texts(b@), texts(c@), i as int, code@, msgp@, msgs@, objp@, with_entry));
        i += 1;
    }
    out
}

/// Additive notes for candidate entries missing from the baseline.
pub fn additions_between(b: &Vec<String>, c: &Vec<String>, code: &str, msgp: &str, objp: &str) -> (r: Vec<Diagnostic>)
    ensures
        diag_views(r@) == set_additions(texts(b@), texts(c@), c@.len() as int, code@, msgp@, objp@),
{
    let mut out: Vec<Diagnostic> = Vec::new();
    let mut j: usize = 0;
    while j < c.len()
        invariant
            j <= c@.len(),
            diag_views(out@) == set_additions(texts(b@), texts(c@), j as int, code@, msgp@, objp@),
        decreases c.len() - j,
    {
        let ghost before = diag_views(out@);
        if first_occurrence(c, j) && !holds(b, &c[j]) {
            let e = c[j].as_str();
            out.push(additive_diag(code, cat3(msgp, e, "` added"), cat2(objp, e)));
        }
        assert(diag_views(out@) =~= before + set_addition(texts(b@), texts(c@), j as int, code@, msgp@, objp@));
        j += 1;
    }
    out
}

/// Warnings for baseline entries missing from the candidate.
pub fn warnings_between(b: &Vec<String>, c: &Vec<String>, code: &str, msgp: &str, msgs: &str) -> (r: Vec<Diagnostic>)
    ensures
        diag_views(r@) == set_warnings(texts(b@), texts(c@), b@.len() as int, code@, msgp@, msgs@),
{
    let mut out: Vec<Diagnostic> = Vec::new();
    let mut i: usize = 0;
    while i < b.len()
        invariant
            i <= b@.len(),
            diag_views(out@) == set_warnings(texts(b@), texts(c@), i as int, code@, msgp@, msgs@),
        decreases b.len() - i,
    {
        let ghost before = diag_views(out@);
        if first_occurrence(b, i) && !holds(c, &b[i]) {
            let e = b[i].as_str();
            out.push(warning_diag(code, cat3(msgp, e, msgs), String::from_str(e)));
        }
        assert(diag_views(out@) =~= before + set_warning(texts(b@), texts(c@), i as int, code@, msgp@, msgs@));
        i += 1;
    }
    out
}

} // verus!
