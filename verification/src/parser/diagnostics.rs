//! Parse-stage diagnostics for invalid documents.
//!
//! A parser reports a failure as a message and, when it knows one, a line and
//! column; these functions turn that into diagnostics.
use vstd::prelude::*;

use crate::diagnostics::report::{diag_views, sort_diagnostics};
use crate::diagnostics::{opt_text, owned, Diagnostic, DiagnosticStage, DiagnosticView, Severity, ValidationReport};
use crate::error::Error;
use crate::text::{
    chars_of, contains_seq, decimal, digit, find_char, first_index, is_digit, lower, push_chars, push_str, slice_of,
    string_of, to_lower, usize_string,
};

verus! {

/// ASCII lower-case form of a text.
pub open spec fn ascii_lower(s: Seq<char>) -> Seq<char> {
    s.map_values(|c: char| lower(c))
}

/// Index of the first occurrence of `p` in `s` at or after `i`.
pub open spec fn find_from(s: Seq<char>, p: Seq<char>, i: int) -> Option<int>
    decreases s.len() + 1 - i,
{
    if i < 0 || i + p.len() > s.len() {
        None
    } else if s.subrange(i, i + p.len() as int) == p {
        Some(i)
    } else {
        find_from(s, p, i + 1)
    }
}

/// Index of the first occurrence of `p` in `s`.
pub open spec fn find(s: Seq<char>, p: Seq<char>) -> Option<int> {
    find_from(s, p, 0)
}

/// Number of leading ASCII digits.
pub open spec fn digit_run(s: Seq<char>) -> nat
    decreases s.len(),
{
    if s.len() == 0 || !is_digit(s[0]) { 0 } else { 1 + digit_run(s.drop_first()) }
}

/// The first token quoted by backticks (or, when there is no backtick, by
/// double quotes), when non-empty.
pub open spec fn quoted_token_spec(message: Seq<char>) -> Option<Seq<char>> {
    let start = match first_index(message, '`') {
        Some(i) => Some(i),
        None => first_index(message, '"'),
    };
    match start {
        None => None,
        Some(i) => {
            let rest = message.subrange(i + 1, message.len() as int);
            match first_index(rest, message[i]) {
                None => None,
                Some(e) => if e == 0 { None } else { Some(rest.subrange(0, e)) },
            }
        },
    }
}

/// Classification of a parser message: diagnostic id and remediation.
pub open spec fn classify_spec(message: Seq<char>) -> (Seq<char>, Seq<char>) {
    let low = ascii_lower(message);
    if contains_seq(low, "missing field"@) || contains_seq(low, "missing struct field"@) {
        ("DPCS-PARSE-002"@, match quoted_token_spec(message) {
            Some(f) => "Provide the required field `"@ + f + "`"@,
            None => "Provide all required fields such as dpcsVersion, id, version, interface, and graph"@,
        })
    } else if contains_seq(low, "invalid type"@) || contains_seq(low, "invalid value"@) {
        ("DPCS-PARSE-002"@, "Ensure field values match the Pipeline Contract schema types"@)
    } else {
        ("DPCS-PARSE-001"@, "Fix YAML or JSON syntax and ensure the document matches the Pipeline Contract schema"@)
    }
}

/// `line L, column C` read from a message that mentions `line L` followed
/// (after any text) by `column C`, case-insensitively.
pub open spec fn location_spec(message: Seq<char>) -> Option<Seq<char>> {
    match find(ascii_lower(message), "line "@) {
        None => None,
        Some(li) => {
            let after_line = message.subrange(li + 5, message.len() as int);
            let d = digit_run(after_line) as int;
            if d == 0 {
                None
            } else {
                let tail = after_line.subrange(d, after_line.len() as int);
                match find(ascii_lower(tail), "column "@) {
                    None => None,
                    Some(ci) => {
                        let after_col = after_line.subrange(d + ci + 7, after_line.len() as int);
                        let e = digit_run(after_col) as int;
                        if e == 0 {
                            None
                        } else {
                            Some("line "@ + after_line.subrange(0, d) + ", column "@ + after_col.subrange(0, e))
                        }
                    },
                }
            }
        },
    }
}

fn lower_chars(v: &Vec<char>) -> (r: Vec<char>)
    ensures
        r@ == ascii_lower(v@),
{
    let mut out: Vec<char> = Vec::new();
    let mut i: usize = 0;
    while i < v.len()
        invariant
            i <= v@.len(),
            out@ == v@.take(i as int).map_values(|c: char| lower(c)),
        decreases v.len() - i,
    {
        out.push(to_lower(v[i]));
        assert(out@ =~= v@.take(i + 1).map_values(|c: char| lower(c)));
        i += 1;
    }
    assert(v@.take(v@.len() as int) =~= v@);
    out
}

fn matches_at(s: &Vec<char>, p: &Vec<char>, i: usize) -> (r: bool)
    requires
        i + p@.len() <= s@.len(),
    ensures
        r == (s@.subrange(i as int, i + p@.len()) == p@),
{
    let n = s.len();
    let mut k: usize = 0;
    while k < p.len()
        invariant
            k <= p@.len(),
            n == s@.len(),
            i + p@.len() <= s@.len(),
            forall|m: int| 0 <= m < k ==> s@[i + m] == p@[m],
        decreases p.len() - k,
    {
        if s[i + k] != p[k] {
            assert(s@.subrange(i as int, i + p@.len())[k as int] != p@[k as int]);
            return false;
        }
        k += 1;
    }
    assert(s@.subrange(i as int, i + p@.len()) =~= p@);
    true
}

/// Index of the first occurrence of `p` in `s`.
fn find_chars(s: &Vec<char>, p: &Vec<char>) -> (r: Option<usize>)
    ensures
        match r {
            Some(i) => find(s@, p@) == Some(i as int) && i + p@.len() <= s@.len(),
            None => find(s@, p@) is None,
        },
{
    let n = s.len();
    let q = p.len();
    if q > n {
        return None;
    }
    if q == 0 {
        assert(s@.subrange(0, 0) =~= p@);
        return Some(0);
    }
    let last = n - q;
    let mut i: usize = 0;
    while i <= last
        invariant
            q == p@.len(),
            n == s@.len(),
            last == n - q,
            q >= 1,
            i <= last + 1,
            find(s@, p@) == find_from(s@, p@, i as int),
        decreases last + 1 - i,
    {
        if matches_at(s, p, i) {
            return Some(i);
        }
        i += 1;
    }
    None
}

proof fn lemma_contains_find(s: Seq<char>, p: Seq<char>, i: int)
    requires
        0 <= i,
        forall|k: int| 0 <= k < i ==> #[trigger] s.subrange(k, k + p.len()) != p || k + p.len() > s.len(),
    ensures
        contains_seq(s, p) == (find_from(s, p, i) is Some),
    decreases s.len() + 1 - i,
{
    if i + p.len() > s.len() {
        if contains_seq(s, p) {
            let k = choose|k: int| 0 <= k && k + p.len() <= s.len() && #[trigger] s.subrange(k, k + p.len()) == p;
        }
    } else if s.subrange(i, i + p.len() as int) == p {
    } else {
        lemma_contains_find(s, p, i + 1);
    }
}

/// Whether `s` contains `p`.
fn has_text(s: &Vec<char>, p: &str) -> (r: bool)
    ensures
        r == contains_seq(s@, p@),
{
    let pv = chars_of(p);
    proof { lemma_contains_find(s@, p@, 0); }
    find_chars(s, &pv).is_some()
}

fn digit_run_exec(v: &Vec<char>, from: usize) -> (r: usize)
    requires
        from <= v@.len(),
    ensures
        r as int == digit_run(v@.subrange(from as int, v@.len() as int)),
        from + r <= v@.len(),
{
    let mut k: usize = from;
    while k < v.len() && digit(v[k])
        invariant
            from <= k <= v@.len(),
            digit_run(v@.subrange(from as int, v@.len() as int)) == (k - from) + digit_run(v@.subrange(k as int, v@.len() as int)),
        decreases v.len() - k,
    {
        assert(v@.subrange(k as int, v@.len() as int).drop_first() =~= v@.subrange(k + 1, v@.len() as int));
        k += 1;
    }
    k - from
}

/// The first token quoted by backticks (or double quotes), when non-empty.
pub fn quoted_token(message: &str) -> (r: Option<String>)
    ensures
        match quoted_token_spec(message@) {
            Some(t) => r matches Some(s) && s@ == t,
            None => r is None,
        },
{
    let m = chars_of(message);
    let n = m.len();
    let start = match find_char(&m, '`') {
        Some(i) => Some(i),
        None => find_char(&m, '"'),
    };
    match start {
        None => None,
        Some(i) => {
            let quote = m[i];
            let rest = slice_of(&m, i + 1, n);
            match find_char(&rest, quote) {
                None => None,
                Some(e) => {
                    if e == 0 {
                        None
                    } else {
                        Some(string_of(&slice_of(&rest, 0, e)))
                    }
                },
            }
        },
    }
}

/// Classify a parser message: `DPCS-PARSE-002` with a remediation naming the
/// field for missing fields, `DPCS-PARSE-002` for type or value mismatches,
/// else `DPCS-PARSE-001` (syntax).
pub fn classify_message(message: &str) -> (r: (&'static str, String))
    ensures
        r.0@ == classify_spec(message@).0,
        r.1@ == classify_spec(message@).1,
{
    let low = lower_chars(&chars_of(message));
    proof {
        reveal_strlit("DPCS-PARSE-002");
        reveal_strlit("DPCS-PARSE-001");
    }
    if has_text(&low, "missing field") || has_text(&low, "missing struct field") {
        let remediation = match quoted_token(message) {
            Some(field) => {
                let mut s = owned("Provide the required field `");
                push_str(&mut s, field.as_str());
                push_str(&mut s, "`");
                s
            },
            None => owned("Provide all required fields such as dpcsVersion, id, version, interface, and graph"),
        };
        ("DPCS-PARSE-002", remediation)
    } else if has_text(&low, "invalid type") || has_text(&low, "invalid value") {
        ("DPCS-PARSE-002", owned("Ensure field values match the Pipeline Contract schema types"))
    } else {
        ("DPCS-PARSE-001", owned("Fix YAML or JSON syntax and ensure the document matches the Pipeline Contract schema"))
    }
}

/// Read `line L, column C` from a parser message.
pub fn location_from_message(message: &str) -> (r: Option<String>)
    ensures
        match location_spec(message@) {
            Some(t) => r matches Some(s) && s@ == t,
            None => r is None,
        },
{
    let m = chars_of(message);
    let n = m.len();
    let low = lower_chars(&m);
    let line_key = chars_of("line ");
    proof { reveal_strlit("line "); reveal_strlit("column "); }
    let li = match find_chars(&low, &line_key) {
        None => return None,
        Some(i) => i,
    };
    assert(li + 5 <= m@.len());
    let after_line = slice_of(&m, li + 5, n);
    let d = digit_run_exec(&after_line, 0);
    assert(after_line@.subrange(0, after_line@.len() as int) =~= after_line@);
    if d == 0 {
        return None;
    }
    let tail = slice_of(&after_line, d, after_line.len());
    let tail_low = lower_chars(&tail);
    let col_key = chars_of("column ");
    let ci = match find_chars(&tail_low, &col_key) {
        None => return None,
        Some(i) => i,
    };
    let after_col = slice_of(&after_line, d + ci + 7, after_line.len());
    let e = digit_run_exec(&after_col, 0);
    assert(after_col@.subrange(0, after_col@.len() as int) =~= after_col@);
    if e == 0 {
        return None;
    }
    let mut out = owned("line ");
    push_chars(&mut out, &slice_of(&after_line, 0, d));
    push_str(&mut out, ", column ");
    push_chars(&mut out, &slice_of(&after_col, 0, e));
    Some(out)
}

/// Source location of a parse failure: the parser's own line and column
/// when it reports a line above zero, else one read from the message.
pub open spec fn parse_location(message: Seq<char>, location: Option<(usize, usize)>) -> Option<Seq<char>> {
    match location {
        Some((l, c)) => if l > 0 {
            Some("line "@ + decimal(l as nat) + ", column "@ + decimal(c as nat))
        } else {
            location_spec(message)
        },
        None => location_spec(message),
    }
}

/// Model of the diagnostic for a parse failure.
pub open spec fn parse_failure_view(message: Seq<char>, location: Option<(usize, usize)>) -> DiagnosticView {
    DiagnosticView {
        remediation: Some(classify_spec(message).1),
        source_location: parse_location(message, location),
        ..Diagnostic::fresh(classify_spec(message).0, Severity::Error, DiagnosticStage::Parse, "syntax"@, message)
    }
}

/// Report for a parse failure with `message` and, when the parser knows it,
/// its (line, column).
pub fn parse_failure_report(message: String, location: Option<(usize, usize)>) -> (r: ValidationReport)
    ensures
        r@ == seq![parse_failure_view(message@, location)],
{
    let (id, remediation) = classify_message(message.as_str());
    let loc: Option<String> = match location {
        Some((l, c)) => {
            if l > 0 {
                let mut s = owned("line ");
                push_str(&mut s, usize_string(l).as_str());
                push_str(&mut s, ", column ");
                push_str(&mut s, usize_string(c).as_str());
                Some(s)
            } else {
                location_from_message(message.as_str())
            }
        },
        None => location_from_message(message.as_str()),
    };
    let text = message.clone();
    let mut d = Diagnostic::parse_error(id, text).with_remediation(remediation);
    match loc {
        Some(s) => {
            d = d.with_source_location(s);
        },
        None => {},
    }
    let ghost dv = d@;
    let mut report = ValidationReport::new();
    report.push(d);
    assert(report@ =~= seq![dv]);
    report
}

/// Invalid-document error for a YAML parse failure.
pub fn yaml_parse_error(message: String, location: Option<(usize, usize)>) -> (r: Error)
    ensures
        r matches Error::InvalidDocument { report } && report@ == seq![parse_failure_view(message@, location)],
{
    Error::InvalidDocument { report: parse_failure_report(message, location) }
}

/// Invalid-document error for a JSON parse failure.
pub fn json_parse_error(message: String, location: Option<(usize, usize)>) -> (r: Error)
    ensures
        r matches Error::InvalidDocument { report } && report@ == seq![parse_failure_view(message@, location)],
{
    Error::InvalidDocument { report: parse_failure_report(message, location) }
}

/// Source location after attaching a document path.
pub open spec fn located(path: Seq<char>, loc: Option<Seq<char>>) -> Option<Seq<char>> {
    match loc {
        Some(l) => Some(path + ": "@ + l),
        None => Some(path),
    }
}

/// Attach a source document path to parse diagnostics when present: every
/// diagnostic's location becomes `path: location`, or `path` alone.
pub fn with_source_path(err: Error, path: &str) -> (r: Error)
    ensures
        match err {
            Error::InvalidDocument { report } => r matches Error::InvalidDocument { report: out }
                && out@.len() == report@.len()
                && forall|i: int| 0 <= i < report@.len() ==> (#[trigger] out@[i]) == (DiagnosticView {
                    source_location: located(path@, report@[i].source_location),
                    ..report@[i]
                }),
            _ => r == err,
        },
{
    match err {
        Error::InvalidDocument { report } => {
            let ghost before = report@;
            let mut out: Vec<Diagnostic> = Vec::new();
            let mut ds = report.diagnostics;
            let n = ds.len();
            let mut i: usize = 0;
            while i < n
                invariant
                    n == ds@.len(),
                    i <= n,
                    before == diag_views(ds@),
                    out@.len() == i,
                    forall|k: int| 0 <= k < i ==> (#[trigger] out@[k])@ == (DiagnosticView {
                        source_location: located(path@, before[k].source_location),
                        ..before[k]
                    }),
                decreases n - i,
            {
                let d = ds[i].clone();
                let loc = match &d.source_location {
                    Some(l) => {
                        let mut s = owned(path);
                        push_str(&mut s, ": ");
                        push_str(&mut s, l.as_str());
                        s
                    },
                    None => owned(path),
                };
                out.push(d.with_source_location(loc));
                i += 1;
            }
            Error::InvalidDocument { report: ValidationReport { diagnostics: out } }
        },
        other => other,
    }
}

} // verus!
