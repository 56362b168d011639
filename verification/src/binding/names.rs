//! Identifier sanitizers and string escapers used by orchestrator adapters.
use vstd::prelude::*;

use crate::text::{
    chars_of, decimal, decimal_u64, ends_with, ends_with_chars, is_alnum, is_digit, is_lower, is_upper, lemma_decimal_injective,
    lower, push_chars, push_str, str_eq, string_of, to_lower, to_upper, upper, alnum, digit,
};

verus! {

/// One character of a Python identifier.
pub open spec fn ident_char(c: char) -> char {
    if is_alnum(c) || c == '_' { c } else { '_' }
}

/// Python identifier for `raw`.
pub open spec fn python_ident_spec(raw: Seq<char>) -> Seq<char> {
    let m = raw.map_values(|c: char| ident_char(c));
    if m.len() == 0 {
        "_unnamed"@
    } else if is_digit(m[0]) {
        seq!['_'] + m
    } else {
        m
    }
}

/// Letters and digits of `s`, each run capitalized (PascalCase body).
pub open spec fn pascal_body(s: Seq<char>) -> Seq<char>
    decreases s.len(),
{
    if s.len() == 0 {
        Seq::empty()
    } else {
        let t = pascal_body(s.drop_last());
        let i = s.len() - 1;
        if is_alnum(s[i]) {
            if i == 0 || !is_alnum(s[i - 1]) { t.push(upper(s[i])) } else { t.push(lower(s[i])) }
        } else {
            t
        }
    }
}

/// PascalCase Python class name ending in `Workflow`.
pub open spec fn python_class_name_spec(raw: Seq<char>) -> Seq<char> {
    let body = pascal_body(raw);
    let named = if body.len() == 0 { "Pipeline"@ } else { body };
    let safe = if is_digit(named[0]) { seq!['_'] + named } else { named };
    if ends_with(safe, "Workflow"@) { safe } else { safe + "Workflow"@ }
}

/// One character of a Kubernetes name.
pub open spec fn k8s_char(c: char) -> char {
    if is_alnum(c) { lower(c) } else { '-' }
}

/// Runs of `-` collapsed to a single `-`.
pub open spec fn collapse_dashes(s: Seq<char>) -> Seq<char>
    decreases s.len(),
{
    if s.len() == 0 {
        s
    } else {
        let t = collapse_dashes(s.drop_last());
        if s.last() == '-' && t.len() > 0 && t.last() == '-' { t } else { t.push(s.last()) }
    }
}

/// `s` without leading `-`.
pub open spec fn trim_dash_start(s: Seq<char>) -> Seq<char>
    decreases s.len(),
{
    if s.len() > 0 && s[0] == '-' { trim_dash_start(s.drop_first()) } else { s }
}

/// `s` without trailing `-`.
pub open spec fn trim_dash_end(s: Seq<char>) -> Seq<char>
    decreases s.len(),
{
    if s.len() > 0 && s.last() == '-' { trim_dash_end(s.drop_last()) } else { s }
}

/// Kubernetes label / resource name fragment for `raw` (at most 63 characters).
pub open spec fn k8s_name_spec(raw: Seq<char>) -> Seq<char> {
    let out = trim_dash_end(trim_dash_start(collapse_dashes(raw.map_values(|c: char| k8s_char(c)))));
    if out.len() == 0 {
        "pipeline"@
    } else if out.len() > 63 {
        trim_dash_end(out.take(63))
    } else {
        out
    }
}

/// Unicode general category `Cc` (control characters).
pub open spec fn is_control(c: char) -> bool {
    c <= '\u{1f}' || ('\u{7f}' <= c && c <= '\u{9f}')
}

/// Lower-case hexadecimal digit for `d < 16`.
pub open spec fn hex_digit(d: nat) -> char {
    if d < 10 { (('0' as u32) + d) as char } else { (('a' as u32) + d - 10) as char }
}

/// Four lower-case hexadecimal digits of `n < 65536`.
pub open spec fn hex4(n: nat) -> Seq<char> {
    seq![hex_digit(n / 4096), hex_digit((n / 256) % 16), hex_digit((n / 16) % 16), hex_digit(n % 16)]
}

/// Escape of one character inside a double-quoted Python or YAML literal:
/// backslash, quote, line feed, carriage return and tab by their short
/// escapes, any other control character as `\u` and four hex digits.
pub open spec fn escape_char(c: char) -> Seq<char> {
    if c == '\\' {
        "\\\\"@
    } else if c == '"' {
        "\\\""@
    } else if c == '\n' {
        "\\n"@
    } else if c == '\r' {
        "\\r"@
    } else if c == '\t' {
        "\\t"@
    } else if is_control(c) {
        "\\u"@ + hex4(c as nat)
    } else {
        seq![c]
    }
}

/// Escape of a whole string.
pub open spec fn escape(s: Seq<char>) -> Seq<char>
    decreases s.len(),
{
    if s.len() == 0 {
        Seq::empty()
    } else {
        escape(s.drop_last()) + escape_char(s.last())
    }
}

/// Sanitize an identifier for use as a Python name.
pub fn python_ident(raw: &str) -> (r: String)
    ensures
        r@ == python_ident_spec(raw@),
{
    let v = chars_of(raw);
    let mut out: Vec<char> = Vec::new();
    let mut i: usize = 0;
    while i < v.len()
        invariant
            i <= v@.len(),
            out@ == v@.take(i as int).map_values(|c: char| ident_char(c)),
        decreases v.len() - i,
    {
        let c = v[i];
        if alnum(c) || c == '_' {
            out.push(c);
        } else {
            out.push('_');
        }
        assert(v@.take(i + 1).map_values(|c: char| ident_char(c)) =~= out@);
        i += 1;
    }
    assert(v@.take(v@.len() as int) =~= v@);
    if out.len() == 0 {
        return String::from_str("_unnamed");
    }
    if digit(out[0]) {
        let mut s = String::from_str("_");
        proof { reveal_strlit("_"); }
        push_chars(&mut s, &out);
        return s;
    }
    string_of(&out)
}

/// Build a PascalCase Python class name (Temporal workflow class).
pub fn python_class_name(raw: &str) -> (r: String)
    ensures
        r@ == python_class_name_spec(raw@),
{
    let v = chars_of(raw);
    let mut body: Vec<char> = Vec::new();
    let mut i: usize = 0;
    while i < v.len()
        invariant
            i <= v@.len(),
            body@ == pascal_body(v@.take(i as int)),
        decreases v.len() - i,
    {
        let c = v[i];
        proof {
            let s = v@.take(i + 1);
            assert(s.drop_last() =~= v@.take(i as int));
            assert(s[i as int] == c);
            if i > 0 { assert(s[i - 1] == v@[i - 1]); }
        }
        if alnum(c) {
            if i == 0 || !alnum(v[i - 1]) {
                body.push(to_upper(c));
            } else {
                body.push(to_lower(c));
            }
        }
        i += 1;
    }
    assert(v@.take(v@.len() as int) =~= v@);
    let named = if body.len() == 0 { chars_of("Pipeline") } else { body };
    proof { reveal_strlit("Pipeline"); }
    let mut safe: Vec<char> = Vec::new();
    if digit(named[0]) {
        safe.push('_');
    }
    let mut k: usize = 0;
    let ghost pre = safe@;
    while k < named.len()
        invariant
            k <= named@.len(),
            safe@ == pre + named@.take(k as int),
        decreases named.len() - k,
    {
        safe.push(named[k]);
        k += 1;
        assert(safe@ =~= pre + named@.take(k as int));
    }
    assert(named@.take(named@.len() as int) =~= named@);
    assert(is_digit(named@[0]) ==> safe@ =~= seq!['_'] + named@);
    assert(!is_digit(named@[0]) ==> safe@ =~= named@);
    let suffix = chars_of("Workflow");
    let mut out = string_of(&safe);
    if !ends_with_chars(&safe, &suffix) {
        push_str(&mut out, "Workflow");
    }
    out
}

/// Sanitize an identifier for use as a Kubernetes label / resource name fragment.
pub fn k8s_name(raw: &str) -> (r: String)
    ensures
        r@ == k8s_name_spec(raw@),
{
    let v = chars_of(raw);
    let ghost mapped = v@.map_values(|c: char| k8s_char(c));
    let mut col: Vec<char> = Vec::new();
    let mut i: usize = 0;
    while i < v.len()
        invariant
            i <= v@.len(),
            mapped == v@.map_values(|c: char| k8s_char(c)),
            col@ == collapse_dashes(mapped.take(i as int)),
        decreases v.len() - i,
    {
        let c = if alnum(v[i]) { to_lower(v[i]) } else { '-' };
        assert(mapped.take(i + 1).drop_last() =~= mapped.take(i as int));
        assert(mapped.take(i + 1).last() == c);
        if !(c == '-' && col.len() > 0 && col[col.len() - 1] == '-') {
            col.push(c);
        }
        i += 1;
    }
    assert(mapped.take(v@.len() as int) =~= mapped);
    let mut a: usize = 0;
    assert(col@.subrange(0, col@.len() as int) =~= col@);
    while a < col.len() && col[a] == '-'
        invariant
            a <= col@.len(),
            trim_dash_start(col@) == trim_dash_start(col@.subrange(a as int, col@.len() as int)),
        decreases col.len() - a,
    {
        assert(col@.subrange(a as int, col@.len() as int).drop_first() =~= col@.subrange(a + 1, col@.len() as int));
        a += 1;
    }
    let ghost front = col@.subrange(a as int, col@.len() as int);
    let mut b: usize = col.len();
    assert(front.subrange(0, front.len() as int) =~= front);
    while b > a && col[b - 1] == '-'
        invariant
            a <= b <= col@.len(),
            front == col@.subrange(a as int, col@.len() as int),
            trim_dash_end(front) == trim_dash_end(front.subrange(0, b - a)),
        decreases b,
    {
        assert(front.subrange(0, b - a).drop_last() =~= front.subrange(0, b - a - 1));
        b -= 1;
    }
    assert(front.subrange(0, b - a) =~= col@.subrange(a as int, b as int));
    let out = crate::text::slice_of(&col, a, b);
    if out.len() == 0 {
        return String::from_str("pipeline");
    }
    if out.len() > 63 {
        let mut e: usize = 63;
        let ghost cut = out@.take(63);
        assert(cut.subrange(0, 63) =~= cut);
        while e > 0 && out[e - 1] == '-'
            invariant
                e <= 63,
                out@.len() > 63,
                cut == out@.take(63),
                trim_dash_end(cut) == trim_dash_end(cut.subrange(0, e as int)),
            decreases e,
        {
            assert(cut.subrange(0, e as int).drop_last() =~= cut.subrange(0, e - 1));
            e -= 1;
        }
        assert(cut.subrange(0, e as int) =~= out@.subrange(0, e as int));
        return string_of(&crate::text::slice_of(&out, 0, e));
    }
    string_of(&out)
}

/// Lower-case hexadecimal digit.
fn hex_digit_exec(d: u32) -> (r: char)
    requires
        d < 16,
    ensures
        r == hex_digit(d as nat),
{
    if d < 10 {
        ((('0' as u8) + (d as u8)) as char)
    } else {
        ((('a' as u8) + (d as u8) - 10) as char)
    }
}

fn escape_char_exec(out: &mut String, c: char)
    ensures
        final(out)@ == old(out)@ + escape_char(c),
{
    if c == '\\' {
        proof { reveal_strlit("\\\\"); }
        push_str(out, "\\\\");
    } else if c == '"' {
        proof { reveal_strlit("\\\""); }
        push_str(out, "\\\"");
    } else if c == '\n' {
        proof { reveal_strlit("\\n"); }
        push_str(out, "\\n");
    } else if c == '\r' {
        proof { reveal_strlit("\\r"); }
        push_str(out, "\\r");
    } else if c == '\t' {
        proof { reveal_strlit("\\t"); }
        push_str(out, "\\t");
    } else if c <= '\u{1f}' || ('\u{7f}' <= c && c <= '\u{9f}') {
        let n = c as u32;
        proof { reveal_strlit("\\u"); }
        push_str(out, "\\u");
        let ghost before = out@;
        crate::text::push_char(out, hex_digit_exec(n / 4096));
        crate::text::push_char(out, hex_digit_exec((n / 256) % 16));
        crate::text::push_char(out, hex_digit_exec((n / 16) % 16));
        crate::text::push_char(out, hex_digit_exec(n % 16));
        assert(out@ =~= before + hex4(c as nat));
    } else {
        crate::text::push_char(out, c);
        assert(seq![c] =~= escape_char(c));
    }
}

fn escape_exec(raw: &str) -> (r: String)
    ensures
        r@ == escape(raw@),
{
    let v = chars_of(raw);
    let mut out = String::new();
    let mut i: usize = 0;
    while i < v.len()
        invariant
            i <= v@.len(),
            out@ == escape(v@.take(i as int)),
        decreases v.len() - i,
    {
        assert(v@.take(i + 1).drop_last() =~= v@.take(i as int));
        escape_char_exec(&mut out, v[i]);
        i += 1;
    }
    assert(v@.take(v@.len() as int) =~= v@);
    out
}

/// Escape a string for embedding in a Python double-quoted literal.
pub fn py_string(raw: &str) -> (r: String)
    ensures
        r@ == escape(raw@),
{
    escape_exec(raw)
}

/// Escape a string for a YAML double-quoted scalar.
pub fn yaml_string(raw: &str) -> (r: String)
    ensures
        r@ == escape(raw@),
{
    escape_exec(raw)
}

} // verus!

verus! {

/// `base__n`: a base name disambiguated with a numeric suffix.
pub open spec fn suffixed(base: Seq<char>, n: nat) -> Seq<char> {
    base + "__"@ + decimal(n)
}

/// The first candidate for `base` not in `used`: `base` itself, else `base__n` for the least `n >= 2`.
pub open spec fn pick_name(base: Seq<char>, used: Set<Seq<char>>) -> Seq<char> {
    if !used.contains(base) {
        base
    } else {
        suffixed(base, choose|n: nat| n >= 2 && !used.contains(suffixed(base, n))
            && forall|m: nat| 2 <= m < n ==> used.contains(#[trigger] suffixed(base, m)))
    }
}

/// Names assigned, in order, to identifiers whose sanitized forms are `bases`.
pub open spec fn assign_names(bases: Seq<Seq<char>>) -> Seq<Seq<char>>
    decreases bases.len(),
{
    if bases.len() == 0 {
        Seq::empty()
    } else {
        let prev = assign_names(bases.drop_last());
        prev.push(pick_name(bases.last(), prev.to_set()))
    }
}

proof fn lemma_assign_len(bases: Seq<Seq<char>>)
    ensures
        assign_names(bases).len() == bases.len(),
    decreases bases.len(),
{
    if bases.len() > 0 {
        lemma_assign_len(bases.drop_last());
    }
}

/// Original identifiers paired with their unique sanitized names.
#[derive(Debug)]
pub struct NameMap {
    /// `(original id, unique name)` in the order the ids were given.
    pub entries: Vec<(String, String)>,
}

impl NameMap {
    /// Original identifiers, in order.
    pub open spec fn keys(&self) -> Seq<Seq<char>> {
        self.entries@.map_values(|e: (String, String)| e.0@)
    }

    /// Assigned names, in order.
    pub open spec fn names(&self) -> Seq<Seq<char>> {
        self.entries@.map_values(|e: (String, String)| e.1@)
    }

    /// Name of `id`; a repeated id keeps its last assignment.
    pub fn get(&self, id: &str) -> (r: Option<&String>)
        ensures
            match r {
                Some(n) => exists|i: int| 0 <= i < self.entries@.len() && self.keys()[i] == id@ && n@ == self.names()[i]
                    && forall|k: int| i < k < self.entries@.len() ==> self.keys()[k] != id@,
                None => forall|k: int| 0 <= k < self.entries@.len() ==> self.keys()[k] != id@,
            },
    {
        let mut i: usize = self.entries.len();
        while i > 0
            invariant
                i <= self.entries@.len(),
                forall|k: int| i <= k < self.entries@.len() ==> self.keys()[k] != id@,
            decreases i,
        {
            i -= 1;
            if str_eq(self.entries[i].0.as_str(), id) {
                assert(self.keys()[i as int] == id@);
                return Some(&self.entries[i].1);
            }
        }
        None
    }
}

fn contains_name(v: &Vec<String>, x: &Vec<char>) -> (r: bool)
    ensures
        r == v@.map_values(|s: String| s@).to_set().contains(x@),
{
    let xs = string_of(x);
    let mut i: usize = 0;
    while i < v.len()
        invariant
            i <= v@.len(),
            xs@ == x@,
            forall|k: int| 0 <= k < i ==> v@[k]@ != x@,
        decreases v.len() - i,
    {
        if str_eq(v[i].as_str(), xs.as_str()) {
            assert(v@.map_values(|s: String| s@)[i as int] == x@);
            return true;
        }
        i += 1;
    }
    proof {
        let vs = v@.map_values(|s: String| s@);
        if vs.to_set().contains(x@) {
            let k = choose|k: int| 0 <= k < vs.len() && vs[k] == x@;
            assert(v@[k]@ == x@);
        }
    }
    false
}

proof fn lemma_pick_bounded(base: Seq<char>, used: Set<Seq<char>>, n: nat)
    requires
        used.finite(),
        n >= 2,
        forall|m: nat| 2 <= m < n ==> used.contains(#[trigger] suffixed(base, m)),
    ensures
        n - 2 <= used.len(),
    decreases n,
{
    reveal_strlit("__");
    if n > 2 {
        let smaller = used.remove(suffixed(base, (n - 1) as nat));
        assert forall|m: nat| 2 <= m < n - 1 implies smaller.contains(#[trigger] suffixed(base, m)) by {
            if suffixed(base, m) == suffixed(base, (n - 1) as nat) {
                assert(decimal(m) =~= suffixed(base, m).subrange(base.len() + 2int, suffixed(base, m).len() as int));
                assert(decimal((n - 1) as nat) =~= suffixed(base, (n - 1) as nat).subrange(base.len() + 2int, suffixed(base, (n - 1) as nat).len() as int));
                lemma_decimal_injective(m, (n - 1) as nat);
            }
        }
        lemma_pick_bounded(base, smaller, (n - 1) as nat);
        assert(used.contains(suffixed(base, (n - 1) as nat)));
    }
}

/// `b` is what `f` returns for some string whose text is `id`.
pub open spec fn base_of<F: Fn(&str) -> String>(f: F, id: Seq<char>, b: Seq<char>) -> bool {
    exists|a: &str, out: String| a@ == id && f.ensures((a,), out) && out@ == b
}

/// `bases[k]` is the sanitized form of `ids[k]` for every `k`.
pub open spec fn sanitized_bases<F: Fn(&str) -> String>(ids: Seq<String>, f: F, bases: Seq<Seq<char>>) -> bool {
    bases.len() == ids.len() && forall|k: int| 0 <= k < bases.len() ==> #[trigger] base_of(f, ids[k]@, bases[k])
}

/// Map original ids to unique sanitized identifiers, disambiguating collisions.
///
/// Each id gets `sanitize(id)` when that name is still free, otherwise
/// `sanitize(id)__n` for the least free `n >= 2`.
pub fn unique_sanitized<F: Fn(&str) -> String>(ids: &[String], sanitize: F) -> (r: NameMap)
    requires
        forall|s: &str| #[trigger] sanitize.requires((s,)),
    ensures
        r.keys() == ids@.map_values(|s: String| s@),
        exists|bases: Seq<Seq<char>>| #[trigger] sanitized_bases(ids@, sanitize, bases) && r.names() == assign_names(bases)
            && forall|i: int| 0 <= i < bases.len() ==> {
                let n = #[trigger] r.names()[i];
                n == bases[i] || exists|k: nat| k >= 2 && n == suffixed(bases[i], k)
            },
        r.names().len() == ids@.len(),
        forall|i: int, j: int| 0 <= i < j < ids@.len() ==> r.names()[i] != r.names()[j],
{
    let mut used: Vec<String> = Vec::new();
    let mut entries: Vec<(String, String)> = Vec::new();
    let ghost mut bases: Seq<Seq<char>> = Seq::empty();
    let mut i: usize = 0;
    while i < ids.len()
        invariant
            i <= ids@.len(),
            forall|s: &str| #[trigger] sanitize.requires((s,)),
            bases.len() == i,
            sanitized_bases(ids@.take(i as int), sanitize, bases),
            entries@.len() == i,
            forall|k: int| 0 <= k < i ==> (#[trigger] entries@[k]).0@ == ids@[k]@,
            entries@.map_values(|e: (String, String)| e.1@) == assign_names(bases),
            used@.map_values(|s: String| s@) == assign_names(bases),
        decreases ids.len() - i,
    {
        let arg: &str = ids[i].as_str();
        let base = sanitize(arg);
        let ghost used_set = used@.map_values(|s: String| s@).to_set();
        proof {
            used@.map_values(|s: String| s@).lemma_cardinality_of_set();
            vstd::seq_lib::seq_to_set_is_finite(used@.map_values(|s: String| s@));
            lemma_assign_len(bases);
            reveal_strlit("__");
        }
        let mut candidate = chars_of(base.as_str());
        let mut n: usize = 2;
        if contains_name(&used, &candidate) {
            loop
                invariant
                    2 <= n,
                    used_set == used@.map_values(|s: String| s@).to_set(),
                    used_set.finite(),
                    used_set.len() <= i,
                    i < ids.len(),
                    used_set.contains(base@),
                    forall|m: nat| 2 <= m < n ==> used_set.contains(#[trigger] suffixed(base@, m)),
                ensures
                    candidate@ == suffixed(base@, n as nat),
                    !used_set.contains(candidate@),
                    n >= 2,
                    forall|m: nat| 2 <= m < n ==> used_set.contains(#[trigger] suffixed(base@, m)),
                decreases usize::MAX - n,
            {
                let mut c = chars_of(base.as_str());
                c.push('_');
                c.push('_');
                let digits = decimal_u64(n as u64);
                let mut k: usize = 0;
                let ghost pre = c@;
                while k < digits.len()
                    invariant
                        k <= digits@.len(),
                        c@ == pre + digits@.take(k as int),
                    decreases digits.len() - k,
                {
                    c.push(digits[k]);
                    k += 1;
                    assert(c@ =~= pre + digits@.take(k as int));
                }
                proof {
                    reveal_strlit("__");
                    assert(digits@.take(digits@.len() as int) =~= digits@);
                    assert(c@ =~= suffixed(base@, n as nat));
                }
                if !contains_name(&used, &c) {
                    candidate = c;
                    break;
                }
                proof {
                    let others = used_set.remove(base@);
                    assert forall|m: nat| 2 <= m < n + 1 implies others.contains(#[trigger] suffixed(base@, m)) by {
                        assert(suffixed(base@, m).len() > base@.len());
                    }
                    lemma_pick_bounded(base@, others, (n + 1) as nat);
                    assert(others.len() == used_set.len() - 1);
                    assert(n <= i);
                }
                n = n + 1;
            }
        }
        proof {
            if !used_set.contains(base@) {
                assert(candidate@ == pick_name(base@, used_set));
            } else {
                let w = n as nat;
                let p = choose|m: nat| m >= 2 && !used_set.contains(suffixed(base@, m))
                    && forall|q: nat| 2 <= q < m ==> used_set.contains(#[trigger] suffixed(base@, q));
                assert(w >= 2 && !used_set.contains(suffixed(base@, w)));
                if p < w {
                    assert(used_set.contains(suffixed(base@, p)));
                } else if p > w {
                    assert(used_set.contains(suffixed(base@, w)));
                }
                assert(p == w);
            }
        }
        let ghost old_bases = bases;
        proof {
            bases = bases.push(base@);
            assert(bases.drop_last() =~= old_bases);
            assert(sanitize.ensures((arg,), base));
            assert(base_of(sanitize, ids@[i as int]@, base@));
            assert forall|k: int| 0 <= k < i + 1 implies #[trigger] base_of(sanitize, ids@.take(i + 1)[k]@, bases[k]) by {
                if k < i {
                    assert(bases[k] == old_bases[k]);
                    assert(ids@.take(i + 1)[k] == ids@.take(i as int)[k]);
                }
            }
        }
        let name = string_of(&candidate);
        let name2 = string_of(&candidate);
        used.push(name);
        entries.push((ids[i].clone(), name2));
        proof {
            assert(assign_names(bases) == assign_names(old_bases).push(pick_name(base@, used_set)));
            assert(used@.map_values(|s: String| s@) =~= assign_names(bases));
            assert(entries@.map_values(|e: (String, String)| e.1@) =~= assign_names(bases));
        }
        i += 1;
    }
    let r = NameMap { entries };
    assert(r.keys() =~= ids@.map_values(|s: String| s@));
    assert(ids@.take(ids@.len() as int) =~= ids@);
    assert(sanitized_bases(ids@, sanitize, bases));
    proof {
        law_unique_names(bases);
        law_unique_name_suffix_form(bases);
    }
    r
}

} // verus!

verus! {

proof fn lemma_least_free(base: Seq<char>, used: Set<Seq<char>>, n: nat) -> (m: nat)
    requires
        used.finite(),
        n >= 2,
        forall|q: nat| 2 <= q < n ==> used.contains(#[trigger] suffixed(base, q)),
    ensures
        m >= 2,
        !used.contains(suffixed(base, m)),
        forall|q: nat| 2 <= q < m ==> used.contains(#[trigger] suffixed(base, q)),
    decreases used.len() + 2 - n,
{
    lemma_pick_bounded(base, used, n);
    if !used.contains(suffixed(base, n)) {
        n
    } else {
        lemma_pick_bounded(base, used, n + 1);
        lemma_least_free(base, used, n + 1)
    }
}

/// The picked name is free and begins with the base name.
pub proof fn lemma_pick_fresh(base: Seq<char>, used: Set<Seq<char>>)
    requires
        used.finite(),
    ensures
        !used.contains(pick_name(base, used)),
        pick_name(base, used).subrange(0, base.len() as int) == base,
{
    if used.contains(base) {
        let _ = lemma_least_free(base, used, 2);
        let n = choose|n: nat| n >= 2 && !used.contains(suffixed(base, n))
            && forall|m: nat| 2 <= m < n ==> used.contains(#[trigger] suffixed(base, m));
        assert(suffixed(base, n).subrange(0, base.len() as int) =~= base);
    } else {
        assert(base.subrange(0, base.len() as int) =~= base);
    }
}

/// Disambiguated names are pairwise distinct, one per identifier, and each
/// begins with the sanitized form of its identifier.
pub proof fn law_unique_names(bases: Seq<Seq<char>>)
    ensures
        assign_names(bases).len() == bases.len(),
        forall|i: int, j: int| 0 <= i < j < bases.len() ==> assign_names(bases)[i] != assign_names(bases)[j],
        forall|i: int| 0 <= i < bases.len() ==> (#[trigger] assign_names(bases)[i]).subrange(0, bases[i].len() as int) == bases[i],
    decreases bases.len(),
{
    if bases.len() > 0 {
        let prev = assign_names(bases.drop_last());
        law_unique_names(bases.drop_last());
        vstd::seq_lib::seq_to_set_is_finite(prev);
        lemma_pick_fresh(bases.last(), prev.to_set());
        let names = assign_names(bases);
        assert forall|i: int, j: int| 0 <= i < j < bases.len() implies names[i] != names[j] by {
            if j == bases.len() - 1 {
                assert(prev.to_set().contains(prev[i]));
            } else {
                assert(names[i] == prev[i] && names[j] == prev[j]);
            }
        }
        assert forall|i: int| 0 <= i < bases.len() implies (#[trigger] names[i]).subrange(0, bases[i].len() as int) == bases[i] by {
            if i < bases.len() - 1 {
                assert(names[i] == prev[i]);
                assert(bases[i] == bases.drop_last()[i]);
            }
        }
    }
}


/// A character that may stand in a sanitized Python identifier.
pub open spec fn python_ident_char(c: char) -> bool {
    is_alnum(c) || c == '_'
}

/// A sanitized Python identifier is never empty, holds only ASCII letters,
/// digits and `_`, does not start with a digit, and sanitizing it again
/// leaves it unchanged.
pub proof fn law_python_ident_shape(raw: Seq<char>)
    ensures
        python_ident_spec(raw).len() > 0,
        forall|i: int| 0 <= i < python_ident_spec(raw).len() ==> python_ident_char(#[trigger] python_ident_spec(raw)[i]),
        !is_digit(python_ident_spec(raw)[0]),
        python_ident_spec(python_ident_spec(raw)) == python_ident_spec(raw),
{
    reveal_strlit("_unnamed");
    let r = python_ident_spec(raw);
    let m = raw.map_values(|c: char| ident_char(c));
    if m.len() > 0 && is_digit(m[0]) {
        assert forall|i: int| 0 <= i < r.len() implies python_ident_char(#[trigger] r[i]) by {
            if i > 0 {
                assert(r[i] == m[i - 1]);
            }
        }
    }
    assert forall|i: int| 0 <= i < r.len() implies python_ident_char(#[trigger] r[i]) by {
        if m.len() > 0 && !is_digit(m[0]) {
            assert(r[i] == m[i]);
        }
    }
    let m2 = r.map_values(|c: char| ident_char(c));
    assert(m2 =~= r) by {
        assert forall|i: int| 0 <= i < r.len() implies m2[i] == r[i] by {
            assert(python_ident_char(r[i]));
        }
    }
}

/// A character that may stand in a Kubernetes name fragment.
pub open spec fn k8s_name_char(c: char) -> bool {
    is_digit(c) || is_lower(c) || c == '-'
}

/// Every character of `s` may stand in a Kubernetes name fragment.
pub open spec fn all_k8s_chars(s: Seq<char>) -> bool {
    forall|i: int| 0 <= i < s.len() ==> k8s_name_char(#[trigger] s[i])
}

/// `s` holds no two `-` in a row.
pub open spec fn no_double_dash(s: Seq<char>) -> bool {
    forall|i: int, j: int| 0 <= i && j == i + 1 && j < s.len() ==> !(#[trigger] s[i] == '-' && #[trigger] s[j] == '-')
}

proof fn lemma_collapse_shape(s: Seq<char>)
    requires
        all_k8s_chars(s),
    ensures
        all_k8s_chars(collapse_dashes(s)),
        no_double_dash(collapse_dashes(s)),
    decreases s.len(),
{
    if s.len() > 0 {
        let t = collapse_dashes(s.drop_last());
        assert(all_k8s_chars(s.drop_last())) by {
            assert forall|i: int| 0 <= i < s.drop_last().len() implies k8s_name_char(#[trigger] s.drop_last()[i]) by {
                assert(s.drop_last()[i] == s[i]);
            }
        }
        lemma_collapse_shape(s.drop_last());
        assert(k8s_name_char(s[s.len() - 1]));
        let r = collapse_dashes(s);
        if !(s.last() == '-' && t.len() > 0 && t.last() == '-') {
            assert(r == t.push(s.last()));
            assert forall|i: int| 0 <= i < r.len() implies k8s_name_char(#[trigger] r[i]) by {
                if i < t.len() {
                    assert(r[i] == t[i]);
                }
            }
            assert forall|i: int, j: int| 0 <= i && j == i + 1 && j < r.len() implies !(#[trigger] r[i] == '-' && #[trigger] r[j] == '-') by {
                assert(r[i] == t[i]);
                if j < t.len() {
                    assert(r[j] == t[j]);
                }
            }
        }
    }
}

proof fn lemma_sub_shape(s: Seq<char>, a: int, b: int)
    requires
        0 <= a <= b <= s.len(),
        all_k8s_chars(s),
        no_double_dash(s),
    ensures
        all_k8s_chars(s.subrange(a, b)),
        no_double_dash(s.subrange(a, b)),
{
    let t = s.subrange(a, b);
    assert forall|i: int| 0 <= i < t.len() implies k8s_name_char(#[trigger] t[i]) by {
        assert(t[i] == s[a + i]);
    }
    assert forall|i: int, j: int| 0 <= i && j == i + 1 && j < t.len() implies !(#[trigger] t[i] == '-' && #[trigger] t[j] == '-') by {
        assert(t[i] == s[a + i] && t[j] == s[a + j]);
    }
}

proof fn lemma_trim_start(s: Seq<char>) -> (k: int)
    ensures
        0 <= k <= s.len(),
        trim_dash_start(s) == s.skip(k),
        k == s.len() || s[k] != '-',
    decreases s.len(),
{
    if s.len() > 0 && s[0] == '-' {
        let k = lemma_trim_start(s.drop_first());
        assert(s.drop_first().skip(k) =~= s.skip(k + 1));
        if k < s.drop_first().len() {
            assert(s.drop_first()[k] == s[k + 1]);
        }
        k + 1
    } else {
        assert(s.skip(0) =~= s);
        0
    }
}

proof fn lemma_trim_end(s: Seq<char>) -> (k: int)
    ensures
        0 <= k <= s.len(),
        trim_dash_end(s) == s.take(k),
        k == 0 || s[k - 1] != '-',
        s.len() > 0 && s[0] != '-' ==> k > 0,
    decreases s.len(),
{
    if s.len() > 0 && s.last() == '-' {
        let k = lemma_trim_end(s.drop_last());
        assert(s.drop_last().take(k) =~= s.take(k));
        if k > 0 {
            assert(s.drop_last()[k - 1] == s[k - 1]);
        }
        if s.len() > 1 {
            assert(s.drop_last()[0] == s[0]);
        }
        k
    } else {
        assert(s.take(s.len() as int) =~= s);
        s.len() as int
    }
}

/// A sanitized Kubernetes name fragment is never empty, is at most 63
/// characters long, holds only lower-case ASCII letters, digits and `-`,
/// holds no `--`, and neither starts nor ends with `-`.
pub proof fn law_k8s_name_shape(raw: Seq<char>)
    ensures
        0 < k8s_name_spec(raw).len() <= 63,
        all_k8s_chars(k8s_name_spec(raw)),
        no_double_dash(k8s_name_spec(raw)),
        k8s_name_spec(raw)[0] != '-',
        k8s_name_spec(raw).last() != '-',
{
    reveal_strlit("pipeline");
    let mapped = raw.map_values(|c: char| k8s_char(c));
    assert(all_k8s_chars(mapped)) by {
        assert forall|i: int| 0 <= i < mapped.len() implies k8s_name_char(#[trigger] mapped[i]) by {
            let c = raw[i];
            if is_upper(c) {
                assert('a' <= lower(c) <= 'z');
            }
        }
    }
    lemma_collapse_shape(mapped);
    let c = collapse_dashes(mapped);
    let ks = lemma_trim_start(c);
    lemma_sub_shape(c, ks, c.len() as int);
    let st = trim_dash_start(c);
    let ke = lemma_trim_end(st);
    lemma_sub_shape(st, 0, ke);
    let out = trim_dash_end(st);
    if out.len() > 0 {
        assert(out[0] == st[0]);
        assert(st[0] == c[ks]);
        if out.len() > 63 {
            let cut = out.take(63);
            lemma_sub_shape(out, 0, 63);
            let kc = lemma_trim_end(cut);
            lemma_sub_shape(cut, 0, kc);
            assert(cut[0] == out[0]);
            let r = trim_dash_end(cut);
            assert(r[0] == cut[0]);
            assert(r.last() == cut[kc - 1]);
        } else {
            assert(out.last() == st[ke - 1]);
        }
    }
}

proof fn lemma_collapse_keeps(s: Seq<char>)
    requires
        no_double_dash(s),
    ensures
        collapse_dashes(s) == s,
    decreases s.len(),
{
    if s.len() > 0 {
        let d = s.drop_last();
        assert(no_double_dash(d)) by {
            assert forall|i: int, j: int| 0 <= i && j == i + 1 && j < d.len() implies !(#[trigger] d[i] == '-' && #[trigger] d[j] == '-') by {
                assert(d[i] == s[i] && d[j] == s[j]);
            }
        }
        lemma_collapse_keeps(d);
        if d.len() > 0 {
            assert(!(s[d.len() - 1] == '-' && s[d.len() as int] == '-'));
        }
        assert(d.push(s.last()) =~= s);
    }
}

/// Sanitizing a Kubernetes name fragment again leaves it unchanged.
pub proof fn law_k8s_name_idempotent(raw: Seq<char>)
    ensures
        k8s_name_spec(k8s_name_spec(raw)) == k8s_name_spec(raw),
{
    law_k8s_name_shape(raw);
    let r = k8s_name_spec(raw);
    let mapped = r.map_values(|c: char| k8s_char(c));
    assert(mapped =~= r) by {
        assert forall|i: int| 0 <= i < r.len() implies mapped[i] == r[i] by {
            assert(k8s_name_char(r[i]));
        }
    }
    lemma_collapse_keeps(r);
    assert(trim_dash_start(r) == r);
    assert(trim_dash_end(r) == r);
}

/// Each disambiguated name is its identifier's sanitized form, or that form
/// followed by `__` and a number of at least 2; the sanitized form itself is
/// kept whenever no earlier identifier holds it.
pub proof fn law_unique_name_suffix_form(bases: Seq<Seq<char>>)
    ensures
        assign_names(bases).len() == bases.len(),
        forall|i: int| 0 <= i < bases.len() ==> {
            let n = #[trigger] assign_names(bases)[i];
            n == bases[i] || exists|k: nat| k >= 2 && n == suffixed(bases[i], k)
        },
        forall|i: int| 0 <= i < bases.len() && !assign_names(bases).take(i).contains(bases[i])
            ==> #[trigger] assign_names(bases)[i] == bases[i],
    decreases bases.len(),
{
    lemma_assign_len(bases);
    if bases.len() > 0 {
        let prev = assign_names(bases.drop_last());
        let names = assign_names(bases);
        law_unique_name_suffix_form(bases.drop_last());
        vstd::seq_lib::seq_to_set_is_finite(prev);
        let last = bases.len() - 1;
        if prev.to_set().contains(bases.last()) {
            let _ = lemma_least_free(bases.last(), prev.to_set(), 2);
        }
        assert(names.take(last) =~= prev);
        assert forall|i: int| 0 <= i < bases.len() implies {
            let n = #[trigger] names[i];
            n == bases[i] || exists|k: nat| k >= 2 && n == suffixed(bases[i], k)
        } by {
            if i < last {
                assert(names[i] == prev[i]);
                assert(bases[i] == bases.drop_last()[i]);
            }
        }
        assert forall|i: int| 0 <= i < bases.len() && !names.take(i).contains(bases[i])
            implies #[trigger] names[i] == bases[i] by {
            if i < last {
                assert(names[i] == prev[i]);
                assert(bases[i] == bases.drop_last()[i]);
                assert(names.take(i) =~= prev.take(i));
            } else {
                assert forall|x: Seq<char>| prev.to_set().contains(x) implies prev.contains(x) by {}
            }
        }
    }
}

/// The escape of one character holds no control character, and each `"` in
/// it comes right after a backslash.
proof fn lemma_escape_char_shape(c: char)
    ensures
        forall|j: int| 0 <= j < escape_char(c).len() ==> !is_control(#[trigger] escape_char(c)[j]),
        forall|j: int| 0 <= j < escape_char(c).len() && #[trigger] escape_char(c)[j] == '"' ==> j > 0 && escape_char(c)[j - 1] == '\\',
{
    reveal_strlit("\\\\");
    reveal_strlit("\\\"");
    reveal_strlit("\\n");
    reveal_strlit("\\r");
    reveal_strlit("\\t");
    reveal_strlit("\\u");
    if is_control(c) && c != '\n' && c != '\r' && c != '\t' {
        let n = c as nat;
        let h = hex4(n);
        assert forall|j: int| 0 <= j < 4 implies !is_control(#[trigger] h[j]) && h[j] != '"' by {
            let d: nat = if j == 0 { n / 4096 } else if j == 1 { (n / 256) % 16 } else if j == 2 { (n / 16) % 16 } else { n % 16 };
            assert(n <= 0x9f);
            assert(d < 16);
            assert(h[j] == hex_digit(d));
        }
        let e = escape_char(c);
        assert(e == "\\u"@ + h);
        assert forall|j: int| 0 <= j < e.len() implies !is_control(#[trigger] e[j]) && e[j] != '"' by {
            if j >= 2 {
                assert(e[j] == h[j - 2]);
            }
        }
    }
}

/// Escaped text fits inside one double-quoted Python or YAML literal: it holds
/// no control character (so no line break), and each `"` in it comes right
/// after a backslash.
pub proof fn law_escape_fits_a_literal(s: Seq<char>)
    ensures
        forall|i: int| 0 <= i < escape(s).len() ==> !is_control(#[trigger] escape(s)[i]),
        forall|i: int| 0 <= i < escape(s).len() && #[trigger] escape(s)[i] == '"' ==> i > 0 && escape(s)[i - 1] == '\\',
    decreases s.len(),
{
    if s.len() > 0 {
        let t = escape(s.drop_last());
        let u = escape_char(s.last());
        law_escape_fits_a_literal(s.drop_last());
        lemma_escape_char_shape(s.last());
        let r = escape(s);
        assert(r == t + u);
        assert forall|i: int| 0 <= i < r.len() implies !is_control(#[trigger] r[i]) by {
            if i < t.len() {
                assert(r[i] == t[i]);
            } else {
                assert(r[i] == u[i - t.len()]);
            }
        }
        assert forall|i: int| 0 <= i < r.len() && #[trigger] r[i] == '"' implies i > 0 && r[i - 1] == '\\' by {
            if i < t.len() {
                assert(r[i] == t[i]);
                assert(r[i - 1] == t[i - 1]);
            } else {
                let j = i - t.len();
                assert(r[i] == u[j]);
                if j > 0 {
                    assert(r[i - 1] == u[j - 1]);
                }
            }
        }
    }
}

} // verus!
