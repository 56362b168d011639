//! Character-level text helpers shared by the whole library.
//!
//! Every identifier in a Pipeline Contract is text. These helpers describe
//! text as a sequence of `char`s and give the primitive operations (trimming,
//! splitting, joining, comparing, decimal rendering) an exact meaning.
use vstd::prelude::*;
use vstd::std_specs::iter::IteratorSpec;

verus! {

broadcast use vstd::string::group_string_axioms;

/// ASCII decimal digit.
pub open spec fn is_digit(c: char) -> bool {
    '0' <= c && c <= '9'
}

/// ASCII upper-case letter.
pub open spec fn is_upper(c: char) -> bool {
    'A' <= c && c <= 'Z'
}

/// ASCII lower-case letter.
pub open spec fn is_lower(c: char) -> bool {
    'a' <= c && c <= 'z'
}

/// ASCII letter or digit.
pub open spec fn is_alnum(c: char) -> bool {
    is_digit(c) || is_upper(c) || is_lower(c)
}

/// ASCII lower-casing of one character; other characters are unchanged.
pub open spec fn lower(c: char) -> char {
    if is_upper(c) { ((c as u32) + 32) as char } else { c }
}

/// ASCII upper-casing of one character; other characters are unchanged.
pub open spec fn upper(c: char) -> char {
    if is_lower(c) { ((c as u32) - 32) as char } else { c }
}

/// Unicode `White_Space` characters (what `str::trim` removes).
pub open spec fn is_space(c: char) -> bool {
    ||| c == ' '
    ||| ('\t' <= c && c <= '\r')
    ||| c == '\u{85}'
    ||| c == '\u{A0}'
    ||| c == '\u{1680}'
    ||| ('\u{2000}' <= c && c <= '\u{200A}')
    ||| c == '\u{2028}'
    ||| c == '\u{2029}'
    ||| c == '\u{202F}'
    ||| c == '\u{205F}'
    ||| c == '\u{3000}'
}

/// Text with leading white space removed.
pub open spec fn trim_start(s: Seq<char>) -> Seq<char>
    decreases s.len(),
{
    if s.len() > 0 && is_space(s[0]) {
        trim_start(s.drop_first())
    } else {
        s
    }
}

/// Text with trailing white space removed.
pub open spec fn trim_end(s: Seq<char>) -> Seq<char>
    decreases s.len(),
{
    if s.len() > 0 && is_space(s.last()) {
        trim_end(s.drop_last())
    } else {
        s
    }
}

/// Text with white space removed at both ends.
pub open spec fn trim(s: Seq<char>) -> Seq<char> {
    trim_end(trim_start(s))
}

/// Whether `s` contains `c`.
pub open spec fn contains_char(s: Seq<char>, c: char) -> bool {
    exists|i: int| 0 <= i < s.len() && s[i] == c
}

/// Index of the first occurrence of `c` in `s`, when there is one.
pub open spec fn first_index(s: Seq<char>, c: char) -> Option<int>
    decreases s.len(),
{
    if s.len() == 0 {
        None
    } else if s[0] == c {
        Some(0)
    } else {
        match first_index(s.drop_first(), c) {
            Some(i) => Some(i + 1),
            None => None,
        }
    }
}

/// Split `s` at the first occurrence of `c`.
pub open spec fn split_once(s: Seq<char>, c: char) -> Option<(Seq<char>, Seq<char>)> {
    match first_index(s, c) {
        Some(i) => Some((s.subrange(0, i), s.subrange(i + 1, s.len() as int))),
        None => None,
    }
}

/// All pieces of `s` separated by `c` (like `str::split`).
pub open spec fn split(s: Seq<char>, c: char) -> Seq<Seq<char>>
    decreases s.len(),
{
    match first_index(s, c) {
        Some(i) => {
            if 0 <= i < s.len() {
                seq![s.subrange(0, i)] + split(s.subrange(i + 1, s.len() as int), c)
            } else {
                seq![s]
            }
        },
        None => seq![s],
    }
}

/// Pieces joined with `sep` between consecutive pieces.
pub open spec fn join(parts: Seq<Seq<char>>, sep: Seq<char>) -> Seq<char>
    decreases parts.len(),
{
    if parts.len() == 0 {
        Seq::empty()
    } else if parts.len() == 1 {
        parts[0]
    } else {
        join(parts.drop_last(), sep) + sep + parts.last()
    }
}

/// `whole` is `mid` with `pre` before it and `post` after it.
pub open spec fn encloses(whole: Seq<char>, pre: Seq<char>, mid: Seq<char>, post: Seq<char>) -> bool {
    whole == pre + mid + post
}

/// Text enclosed in `t` stays enclosed when `t` is.
pub proof fn lemma_encloses_wrap(t: Seq<char>, p: Seq<char>, m: Seq<char>, q: Seq<char>, a: Seq<char>, b: Seq<char>)
    requires
        encloses(t, p, m, q),
    ensures
        encloses(a + t + b, a + p, m, q + b),
{
    assert(a + t + b =~= (a + p) + m + (q + b));
}

/// Whether `s` begins with `p`.
pub open spec fn starts_with(s: Seq<char>, p: Seq<char>) -> bool {
    p.len() <= s.len() && s.subrange(0, p.len() as int) == p
}

/// Whether `s` ends with `p`.
pub open spec fn ends_with(s: Seq<char>, p: Seq<char>) -> bool {
    p.len() <= s.len() && s.subrange(s.len() - p.len(), s.len() as int) == p
}

/// Whether `p` occurs somewhere in `s`.
pub open spec fn contains_seq(s: Seq<char>, p: Seq<char>) -> bool {
    exists|i: int| 0 <= i && i + p.len() <= s.len() && #[trigger] s.subrange(i, i + p.len()) == p
}

/// Three-way lexicographic comparison by code point (the order of `String`).
pub open spec fn compare(a: Seq<char>, b: Seq<char>) -> int
    decreases a.len(),
{
    if a.len() == 0 {
        if b.len() == 0 { 0 } else { -1 }
    } else if b.len() == 0 {
        1
    } else if a[0] < b[0] {
        -1
    } else if a[0] > b[0] {
        1
    } else {
        compare(a.drop_first(), b.drop_first())
    }
}

/// Strict lexicographic order on text.
pub open spec fn less(a: Seq<char>, b: Seq<char>) -> bool {
    compare(a, b) < 0
}

/// The decimal digit character for `d < 10`.
pub open spec fn digit_char(d: nat) -> char {
    (('0' as u32) + d) as char
}

/// Decimal rendering of a natural number, without leading zeros.
pub open spec fn decimal(n: nat) -> Seq<char>
    decreases n,
{
    if n < 10 {
        seq![digit_char(n)]
    } else {
        decimal(n / 10).push(digit_char(n % 10))
    }
}

/// Numeric value of a sequence of decimal digits.
pub open spec fn digits_value(s: Seq<char>) -> nat
    decreases s.len(),
{
    if s.len() == 0 {
        0
    } else {
        digits_value(s.drop_last()) * 10 + ((s.last() as u32) - ('0' as u32)) as nat
    }
}

/// Every character of `s` is an ASCII digit.
pub open spec fn all_digits(s: Seq<char>) -> bool {
    forall|i: int| 0 <= i < s.len() ==> is_digit(#[trigger] s[i])
}

/// The characters of a string slice.
pub fn chars_of(s: &str) -> (v: Vec<char>)
    ensures
        v@ == s@,
{
    let mut v: Vec<char> = Vec::new();
    for c in it: s.chars()
        invariant
            v@ == it.seq().take(it.index()),
    {
        v.push(c);
    }
    v
}

/// Appends one character: calls `String::push`. Trusted: the text afterwards
/// is the text before followed by `c`.
#[verifier::external_body]
pub(crate) fn push_char(s: &mut String, c: char)
    ensures
        final(s)@ == old(s)@.push(c),
{
    s.push(c);
}

/// Appends a string slice.
pub fn push_str(s: &mut String, t: &str)
    ensures
        final(s)@ == old(s)@ + t@,
{
    s.append(t);
}

/// The concatenation of three string slices.
pub fn concat3(a: &str, b: &str, c: &str) -> (r: String)
    ensures
        r@ == a@ + b@ + c@,
{
    let mut out = String::new();
    push_str(&mut out, a);
    push_str(&mut out, b);
    push_str(&mut out, c);
    assert(out@ =~= a@ + b@ + c@);
    out
}

/// Appends a sequence of characters.
pub fn push_chars(s: &mut String, v: &[char])
    ensures
        final(s)@ == old(s)@ + v@,
{
    let ghost start = s@;
    let mut i: usize = 0;
    while i < v.len()
        invariant
            i <= v.len(),
            s@ == start + v@.subrange(0, i as int),
        decreases v.len() - i,
    {
        push_char(s, v[i]);
        i += 1;
        assert(s@ =~= start + v@.subrange(0, i as int));
    }
    assert(v@.subrange(0, v.len() as int) =~= v@);
}

/// A string holding exactly `v`.
pub fn string_of(v: &[char]) -> (s: String)
    ensures
        s@ == v@,
{
    let mut s = String::new();
    push_chars(&mut s, v);
    s
}

/// Copy of `v[a..b]`.
pub fn slice_of(v: &[char], a: usize, b: usize) -> (r: Vec<char>)
    requires
        a <= b <= v@.len(),
    ensures
        r@ == v@.subrange(a as int, b as int),
{
    let mut r: Vec<char> = Vec::new();
    let mut i = a;
    while i < b
        invariant
            a <= i <= b,
            b <= v@.len(),
            r@ == v@.subrange(a as int, i as int),
        decreases b - i,
    {
        r.push(v[i]);
        i += 1;
        assert(r@ =~= v@.subrange(a as int, i as int));
    }
    r
}

/// ASCII digit test.
pub fn digit(c: char) -> (r: bool)
    ensures
        r == is_digit(c),
{
    '0' <= c && c <= '9'
}

/// ASCII letter-or-digit test.
pub fn alnum(c: char) -> (r: bool)
    ensures
        r == is_alnum(c),
{
    ('0' <= c && c <= '9') || ('A' <= c && c <= 'Z') || ('a' <= c && c <= 'z')
}

/// White-space test (Unicode `White_Space`).
pub fn space(c: char) -> (r: bool)
    ensures
        r == is_space(c),
{
    c == ' ' || ('\t' <= c && c <= '\r') || c == '\u{85}' || c == '\u{A0}' || c == '\u{1680}'
        || ('\u{2000}' <= c && c <= '\u{200A}') || c == '\u{2028}' || c == '\u{2029}'
        || c == '\u{202F}' || c == '\u{205F}' || c == '\u{3000}'
}

} // verus!

verus! {

/// ASCII lower-casing of one character.
pub fn to_lower(c: char) -> (r: char)
    ensures
        r == lower(c),
{
    if 'A' <= c && c <= 'Z' {
        let b: u8 = (c as u8) + 32;
        let r = b as char;
        assert((c as u8) as u32 == c as u32);
        r
    } else {
        c
    }
}

} // verus!

verus! {

/// ASCII upper-casing of one character.
pub fn to_upper(c: char) -> (r: char)
    ensures
        r == upper(c),
{
    if 'a' <= c && c <= 'z' {
        let b: u8 = (c as u8) - 32;
        assert((c as u8) as u32 == c as u32);
        b as char
    } else {
        c
    }
}

proof fn lemma_trim_start_step(s: Seq<char>, i: int)
    requires
        0 <= i < s.len(),
        is_space(s[i]),
    ensures
        trim_start(s.subrange(i, s.len() as int)) == trim_start(s.subrange(i + 1, s.len() as int)),
{
    assert(s.subrange(i, s.len() as int).drop_first() =~= s.subrange(i + 1, s.len() as int));
}

proof fn lemma_trim_end_step(s: Seq<char>, j: int)
    requires
        0 < j <= s.len(),
        is_space(s[j - 1]),
    ensures
        trim_end(s.subrange(0, j)) == trim_end(s.subrange(0, j - 1)),
{
    assert(s.subrange(0, j).drop_last() =~= s.subrange(0, j - 1));
}

/// Text with white space removed at both ends (`str::trim`).
pub fn trim_chars(v: &[char]) -> (r: Vec<char>)
    ensures
        r@ == trim(v@),
{
    let mut i: usize = 0;
    assert(v@.subrange(0, v@.len() as int) =~= v@);
    while i < v.len() && space(v[i])
        invariant
            i <= v.len(),
            trim_start(v@) == trim_start(v@.subrange(i as int, v@.len() as int)),
        decreases v.len() - i,
    {
        proof { lemma_trim_start_step(v@, i as int); }
        i += 1;
    }
    let ghost rest = v@.subrange(i as int, v@.len() as int);
    assert(trim_start(v@) == rest);
    let mut j: usize = v.len();
    assert(rest.subrange(0, rest.len() as int) =~= rest);
    while j > i && space(v[j - 1])
        invariant
            i <= j <= v.len(),
            rest == v@.subrange(i as int, v@.len() as int),
            trim_end(rest) == trim_end(rest.subrange(0, j - i)),
        decreases j,
    {
        proof {
            lemma_trim_end_step(rest, (j - i) as int);
            assert(rest.subrange(0, (j - i - 1) as int) =~= rest.subrange(0, (j - 1 - i) as int));
        }
        j -= 1;
    }
    assert(rest.subrange(0, (j - i) as int) =~= v@.subrange(i as int, j as int));
    slice_of(v, i, j)
}

/// `str::trim(s).is_empty()`.
pub fn is_blank(s: &str) -> (r: bool)
    ensures
        r == (trim(s@).len() == 0),
{
    let v = chars_of(s);
    let t = trim_chars(&v);
    t.len() == 0
}

/// First index of `c` in `v`.
pub fn find_char(v: &[char], c: char) -> (r: Option<usize>)
    ensures
        match r {
            Some(i) => first_index(v@, c) == Some(i as int) && i < v@.len(),
            None => first_index(v@, c) is None,
        },
{
    let mut i: usize = 0;
    while i < v.len()
        invariant
            i <= v.len(),
            forall|k: int| 0 <= k < i ==> v@[k] != c,
        decreases v.len() - i,
    {
        if v[i] == c {
            proof { lemma_first_index_at(v@, c, i as int); }
            return Some(i);
        }
        i += 1;
    }
    proof { lemma_first_index_none(v@, c); }
    None
}

/// `first_index` finds `i` when `s[i] == c` and no earlier position holds `c`.
pub proof fn lemma_first_index_at(s: Seq<char>, c: char, i: int)
    requires
        0 <= i < s.len(),
        s[i] == c,
        forall|k: int| 0 <= k < i ==> s[k] != c,
    ensures
        first_index(s, c) == Some(i),
    decreases i,
{
    if i > 0 {
        lemma_first_index_at(s.drop_first(), c, i - 1);
    }
}

/// `first_index` is `None` when `c` does not occur.
pub proof fn lemma_first_index_none(s: Seq<char>, c: char)
    requires
        forall|k: int| 0 <= k < s.len() ==> s[k] != c,
    ensures
        first_index(s, c) is None,
    decreases s.len(),
{
    if s.len() > 0 {
        lemma_first_index_none(s.drop_first(), c);
    }
}

/// `first_index` points at an occurrence with none before it.
pub proof fn lemma_first_index_spec(s: Seq<char>, c: char)
    ensures
        match first_index(s, c) {
            Some(i) => 0 <= i < s.len() && s[i] == c && forall|k: int| 0 <= k < i ==> s[k] != c,
            None => forall|k: int| 0 <= k < s.len() ==> s[k] != c,
        },
    decreases s.len(),
{
    if s.len() > 0 {
        lemma_first_index_spec(s.drop_first(), c);
        if s[0] != c {
            match first_index(s.drop_first(), c) {
                Some(i) => {
                    assert forall|k: int| 0 <= k < i + 1 implies s[k] != c by {
                        if k > 0 { assert(s[k] == s.drop_first()[k - 1]); }
                    }
                },
                None => {
                    assert forall|k: int| 0 <= k < s.len() implies s[k] != c by {
                        if k > 0 { assert(s[k] == s.drop_first()[k - 1]); }
                    }
                },
            }
        }
    }
}

/// Split at the first occurrence of `c` (`str::split_once`).
pub fn split_once_chars(v: &[char], c: char) -> (r: Option<(Vec<char>, Vec<char>)>)
    ensures
        match r {
            Some((a, b)) => split_once(v@, c) == Some((a@, b@)),
            None => split_once(v@, c) is None,
        },
{
    match find_char(v, c) {
        Some(i) => {
            assert(i < v.len());
            Some((slice_of(v, 0, i), slice_of(v, i + 1, v.len())))
        },
        None => None,
    }
}

/// All pieces of `v` separated by `c` (`str::split`).
pub fn split_chars(v: &[char], c: char) -> (r: Vec<Vec<char>>)
    ensures
        r@.len() == split(v@, c).len(),
        forall|k: int| 0 <= k < r@.len() ==> #[trigger] r@[k]@ == split(v@, c)[k],
{
    let mut out: Vec<Vec<char>> = Vec::new();
    let mut start: usize = 0;
    let ghost mut done: Seq<Seq<char>> = Seq::empty();
    assert(v@.subrange(0, v@.len() as int) =~= v@);
    assert(done + split(v@, c) =~= split(v@, c));
    loop
        invariant
            start <= v@.len(),
            out@.len() == done.len(),
            forall|k: int| 0 <= k < out@.len() ==> #[trigger] out@[k]@ == done[k],
            done + split(v@.subrange(start as int, v@.len() as int), c) == split(v@, c),
        decreases v@.len() - start,
    {
        let rest = slice_of(v, start, v.len());
        match find_char(&rest, c) {
            Some(i) => {
                let piece = slice_of(&rest, 0, i);
                proof {
                    assert(rest@.subrange(i + 1, rest@.len() as int) =~= v@.subrange(start + i + 1, v@.len() as int));
                    assert(done.push(piece@) + split(v@.subrange(start + i + 1, v@.len() as int), c)
                        =~= done + split(rest@, c));
                    done = done.push(piece@);
                }
                out.push(piece);
                start = start + i + 1;
            },
            None => {
                proof {
                    assert(done.push(rest@) =~= done + split(rest@, c));
                    done = done.push(rest@);
                }
                out.push(rest);
                return out;
            },
        }
    }
}

/// Pieces joined with `sep` (`[..].join(sep)`).
pub fn join_chars(parts: &Vec<Vec<char>>, sep: &[char]) -> (r: Vec<char>)
    ensures
        r@ == join(parts@.map_values(|p: Vec<char>| p@), sep@),
{
    let ghost views = parts@.map_values(|p: Vec<char>| p@);
    let mut out: Vec<char> = Vec::new();
    let mut i: usize = 0;
    while i < parts.len()
        invariant
            i <= parts@.len(),
            views == parts@.map_values(|p: Vec<char>| p@),
            out@ == join(views.subrange(0, i as int), sep@),
        decreases parts@.len() - i,
    {
        let ghost before = out@;
        if i > 0 {
            let mut k: usize = 0;
            while k < sep.len()
                invariant
                    k <= sep@.len(),
                    out@ == before + sep@.subrange(0, k as int),
                decreases sep@.len() - k,
            {
                out.push(sep[k]);
                k += 1;
                assert(out@ =~= before + sep@.subrange(0, k as int));
            }
            assert(sep@.subrange(0, sep@.len() as int) =~= sep@);
        }
        let ghost mid = out@;
        let mut k: usize = 0;
        while k < parts[i].len()
            invariant
                i < parts@.len(),
                k <= parts@[i as int]@.len(),
                out@ == mid + parts@[i as int]@.subrange(0, k as int),
            decreases parts@[i as int]@.len() - k,
        {
            out.push(parts[i][k]);
            k += 1;
            assert(out@ =~= mid + parts@[i as int]@.subrange(0, k as int));
        }
        assert(parts@[i as int]@.subrange(0, parts@[i as int]@.len() as int) =~= parts@[i as int]@);
        assert(views.subrange(0, i + 1).drop_last() =~= views.subrange(0, i as int));
        if i == 0 {
            assert(out@ =~= join(views.subrange(0, 1), sep@));
        }
        i += 1;
    }
    assert(views.subrange(0, parts@.len() as int) =~= views);
    out
}

} // verus!

verus! {

/// Three-way lexicographic comparison (`-1`, `0`, `1`).
pub fn compare_chars(a: &[char], b: &[char]) -> (r: i8)
    ensures
        r as int == compare(a@, b@),
{
    let mut i: usize = 0;
    assert(a@.subrange(0, a@.len() as int) =~= a@);
    assert(b@.subrange(0, b@.len() as int) =~= b@);
    while i < a.len() && i < b.len() && a[i] == b[i]
        invariant
            i <= a@.len(),
            i <= b@.len(),
            compare(a@, b@) == compare(a@.subrange(i as int, a@.len() as int), b@.subrange(i as int, b@.len() as int)),
        decreases a.len() - i,
    {
        proof {
            let sa = a@.subrange(i as int, a@.len() as int);
            let sb = b@.subrange(i as int, b@.len() as int);
            assert(sa.drop_first() =~= a@.subrange(i + 1, a@.len() as int));
            assert(sb.drop_first() =~= b@.subrange(i + 1, b@.len() as int));
        }
        i += 1;
    }
    proof {
        let sa = a@.subrange(i as int, a@.len() as int);
        let sb = b@.subrange(i as int, b@.len() as int);
        if i < a.len() && i < b.len() {
            assert(sa[0] == a@[i as int]);
            assert(sb[0] == b@[i as int]);
        }
    }
    if i == a.len() {
        if i == b.len() { 0 } else { -1 }
    } else if i == b.len() {
        1
    } else if a[i] < b[i] {
        -1
    } else {
        1
    }
}

/// Three-way comparison of two strings.
pub fn compare_str(a: &str, b: &str) -> (r: i8)
    ensures
        r as int == compare(a@, b@),
{
    let va = chars_of(a);
    let vb = chars_of(b);
    compare_chars(&va, &vb)
}

/// Text equality.
pub fn str_eq(a: &str, b: &str) -> (r: bool)
    ensures
        r == (a@ == b@),
{
    let va = chars_of(a);
    let vb = chars_of(b);
    chars_eq(&va, &vb)
}

/// Equality of two character sequences.
pub fn chars_eq(a: &[char], b: &[char]) -> (r: bool)
    ensures
        r == (a@ == b@),
{
    if a.len() != b.len() {
        return false;
    }
    let mut i: usize = 0;
    while i < a.len()
        invariant
            i <= a@.len(),
            a@.len() == b@.len(),
            forall|k: int| 0 <= k < i ==> a@[k] == b@[k],
        decreases a.len() - i,
    {
        if a[i] != b[i] {
            return false;
        }
        i += 1;
    }
    assert(a@ =~= b@);
    true
}

/// Whether `v` ends with `p`.
pub fn ends_with_chars(v: &[char], p: &[char]) -> (r: bool)
    ensures
        r == ends_with(v@, p@),
{
    if p.len() > v.len() {
        return false;
    }
    let tail = slice_of(v, v.len() - p.len(), v.len());
    chars_eq(&tail, p)
}

/// Whether `v` begins with `p`.
pub fn starts_with_chars(v: &[char], p: &[char]) -> (r: bool)
    ensures
        r == starts_with(v@, p@),
{
    if p.len() > v.len() {
        return false;
    }
    let head = slice_of(v, 0, p.len());
    chars_eq(&head, p)
}

/// Every character is an ASCII digit.
pub fn all_digits_chars(v: &[char]) -> (r: bool)
    ensures
        r == all_digits(v@),
{
    let mut i: usize = 0;
    while i < v.len()
        invariant
            i <= v@.len(),
            forall|k: int| 0 <= k < i ==> is_digit(#[trigger] v@[k]),
        decreases v.len() - i,
    {
        if !digit(v[i]) {
            return false;
        }
        i += 1;
    }
    true
}

/// `decimal` digits are digits.
pub proof fn lemma_decimal_digits(n: nat)
    ensures
        all_digits(decimal(n)),
        decimal(n).len() >= 1,
    decreases n,
{
    if n >= 10 {
        lemma_decimal_digits(n / 10);
    }
}

/// Decimal rendering of a `u64`.
pub fn decimal_u64(n: u64) -> (r: Vec<char>)
    ensures
        r@ == decimal(n as nat),
    decreases n,
{
    if n < 10 {
        let c = (('0' as u8) + (n as u8)) as char;
        assert(c == digit_char(n as nat));
        let mut r: Vec<char> = Vec::new();
        r.push(c);
        assert(r@ =~= seq![digit_char(n as nat)]);
        r
    } else {
        let mut r = decimal_u64(n / 10);
        let d = n % 10;
        let c = (('0' as u8) + (d as u8)) as char;
        assert(c == digit_char((n as nat) % 10));
        r.push(c);
        r
    }
}

/// Decimal rendering of a `usize` as a `String`.
pub fn usize_string(n: usize) -> (r: String)
    ensures
        r@ == decimal(n as nat),
{
    let v = decimal_u64(n as u64);
    string_of(&v)
}

} // verus!

verus! {

/// `compare` is antisymmetric and identifies equal texts.
pub proof fn lemma_compare_antisym(a: Seq<char>, b: Seq<char>)
    ensures
        compare(a, b) == -compare(b, a),
        (compare(a, b) == 0) == (a == b),
        -1 <= compare(a, b) <= 1,
    decreases a.len(),
{
    if a.len() > 0 && b.len() > 0 {
        lemma_compare_antisym(a.drop_first(), b.drop_first());
        if a[0] == b[0] && a.drop_first() == b.drop_first() {
            assert(a =~= seq![a[0]] + a.drop_first());
            assert(b =~= seq![b[0]] + b.drop_first());
        }
        if a == b {
            assert(a.drop_first() == b.drop_first());
        }
    } else if a.len() == 0 && b.len() == 0 {
        assert(a =~= b);
    }
}

/// `less` is transitive.
pub proof fn lemma_compare_trans(a: Seq<char>, b: Seq<char>, c: Seq<char>)
    requires
        compare(a, b) < 0,
        compare(b, c) < 0,
    ensures
        compare(a, c) < 0,
    decreases a.len(),
{
    if a.len() > 0 && b.len() > 0 && c.len() > 0 && a[0] == b[0] && b[0] == c[0] {
        lemma_compare_trans(a.drop_first(), b.drop_first(), c.drop_first());
    }
}

/// `compare` is a total preorder: `<= 0` is transitive.
pub proof fn lemma_compare_le_trans(a: Seq<char>, b: Seq<char>, c: Seq<char>)
    requires
        compare(a, b) <= 0,
        compare(b, c) <= 0,
    ensures
        compare(a, c) <= 0,
{
    lemma_compare_antisym(a, b);
    lemma_compare_antisym(b, c);
    lemma_compare_antisym(a, c);
    if compare(a, b) < 0 && compare(b, c) < 0 {
        lemma_compare_trans(a, b, c);
    }
}

/// Texts in strictly increasing order (so pairwise distinct).
pub open spec fn strictly_sorted(s: Seq<Seq<char>>) -> bool {
    forall|i: int, j: int| 0 <= i < j < s.len() ==> compare(#[trigger] s[i], #[trigger] s[j]) < 0
}

/// Strictly sorted lists of texts are determined by their elements.
pub proof fn lemma_sorted_set_unique(a: Seq<Seq<char>>, b: Seq<Seq<char>>)
    requires
        strictly_sorted(a),
        strictly_sorted(b),
        a.to_set() == b.to_set(),
    ensures
        a == b,
    decreases a.len(),
{
    if a.len() == 0 {
        if b.len() > 0 {
            assert(b.to_set().contains(b[0]));
            assert(a.to_set().contains(b[0]));
        }
        assert(a =~= b);
        return;
    }
    assert(a.to_set().contains(a[0]));
    assert(b.to_set().contains(a[0]));
    let j = choose|j: int| 0 <= j < b.len() && b[j] == a[0];
    assert(b.to_set().contains(b[0]));
    assert(a.to_set().contains(b[0]));
    let k = choose|k: int| 0 <= k < a.len() && a[k] == b[0];
    if j > 0 {
        assert(compare(b[0], b[j]) < 0);
        if k > 0 {
            assert(compare(a[0], a[k]) < 0);
            lemma_compare_antisym(a[0], a[k]);
        } else {
            lemma_compare_antisym(a[0], a[0]);
        }
    }
    assert(a[0] == b[0]);
    let a1 = a.drop_first();
    let b1 = b.drop_first();
    assert forall|x: Seq<char>| a1.to_set().contains(x) implies b1.to_set().contains(x) by {
        let i = choose|i: int| 0 <= i < a1.len() && a1[i] == x;
        assert(a[i + 1] == x);
        assert(a.to_set().contains(x));
        let m = choose|m: int| 0 <= m < b.len() && b[m] == x;
        assert(compare(a[0], a[i + 1]) < 0);
        lemma_compare_antisym(a[0], x);
        assert(m != 0);
        assert(b1[m - 1] == x);
    }
    assert forall|x: Seq<char>| b1.to_set().contains(x) implies a1.to_set().contains(x) by {
        let i = choose|i: int| 0 <= i < b1.len() && b1[i] == x;
        assert(b[i + 1] == x);
        assert(b.to_set().contains(x));
        let m = choose|m: int| 0 <= m < a.len() && a[m] == x;
        assert(compare(b[0], b[i + 1]) < 0);
        lemma_compare_antisym(b[0], x);
        assert(m != 0);
        assert(a1[m - 1] == x);
    }
    assert(a1.to_set() =~= b1.to_set());
    lemma_sorted_set_unique(a1, b1);
    assert(a =~= seq![a[0]] + a1);
    assert(b =~= seq![b[0]] + b1);
}

/// Insert `x` into a strictly sorted list unless already present.
pub fn insert_sorted_unique(v: &mut Vec<String>, x: String)
    requires
        strictly_sorted(old(v)@.map_values(|s: String| s@)),
    ensures
        strictly_sorted(final(v)@.map_values(|s: String| s@)),
        final(v)@.map_values(|s: String| s@).to_set() == old(v)@.map_values(|s: String| s@).to_set().insert(x@),
{
    let ghost old_v = v@.map_values(|s: String| s@);
    let mut p: usize = 0;
    while p < v.len() && compare_str(v[p].as_str(), x.as_str()) < 0
        invariant
            p <= v@.len(),
            old_v == v@.map_values(|s: String| s@),
            forall|k: int| 0 <= k < p ==> compare(#[trigger] old_v[k], x@) < 0,
        decreases v.len() - p,
    {
        p += 1;
    }
    if p < v.len() && str_eq(v[p].as_str(), x.as_str()) {
        assert(old_v.to_set().insert(x@) =~= old_v.to_set()) by {
            assert(old_v[p as int] == x@);
        }
        return;
    }
    proof {
        if p < old_v.len() {
            lemma_compare_antisym(old_v[p as int], x@);
            assert forall|k: int| p <= k < old_v.len() implies compare(x@, #[trigger] old_v[k]) < 0 by {
                if k > p {
                    lemma_compare_trans(x@, old_v[p as int], old_v[k]);
                }
            }
        }
    }
    v.insert(p, x);
    let ghost nv = v@.map_values(|s: String| s@);
    assert(nv =~= old_v.take(p as int).push(x@) + old_v.skip(p as int));
    assert forall|i: int, j: int| 0 <= i < j < nv.len() implies compare(#[trigger] nv[i], #[trigger] nv[j]) < 0 by {
        if j < p {
        } else if i < p && j == p {
        } else if i < p && j > p {
            assert(nv[j] == old_v[j - 1]);
        } else if i == p {
            assert(nv[j] == old_v[j - 1]);
        } else {
            assert(nv[i] == old_v[i - 1]);
            assert(nv[j] == old_v[j - 1]);
        }
    }
    assert(nv.to_set() =~= old_v.to_set().insert(x@)) by {
        assert forall|e: Seq<char>| nv.to_set().contains(e) implies old_v.to_set().insert(x@).contains(e) by {
            let i = choose|i: int| 0 <= i < nv.len() && nv[i] == e;
            if i < p { assert(old_v[i] == e); } else if i > p { assert(old_v[i - 1] == e); }
        }
        assert forall|e: Seq<char>| old_v.to_set().insert(x@).contains(e) implies nv.to_set().contains(e) by {
            if e == x@ {
                assert(nv[p as int] == e);
            } else {
                let i = choose|i: int| 0 <= i < old_v.len() && old_v[i] == e;
                if i < p { assert(nv[i] == e); } else { assert(nv[i + 1] == e); }
            }
        }
    }
}

} // verus!

verus! {

/// Distinct numbers have distinct decimal renderings.
pub proof fn lemma_decimal_injective(a: nat, b: nat)
    requires
        decimal(a) == decimal(b),
    ensures
        a == b,
    decreases a + b,
{
    lemma_decimal_digits(a);
    lemma_decimal_digits(b);
    if a < 10 && b < 10 {
        assert(decimal(a)[0] == digit_char(a));
    } else if a >= 10 && b >= 10 {
        assert(decimal(a).last() == digit_char(a % 10));
        assert(decimal(b).last() == digit_char(b % 10));
        assert(decimal(a).drop_last() =~= decimal(a / 10));
        assert(decimal(b).drop_last() =~= decimal(b / 10));
        lemma_decimal_injective(a / 10, b / 10);
    } else if a < 10 {
        lemma_decimal_digits(b / 10);
        assert(decimal(b).len() == decimal(b / 10).len() + 1);
    } else {
        lemma_decimal_digits(a / 10);
        assert(decimal(a).len() == decimal(a / 10).len() + 1);
    }
}

/// Texts joined with `sep` between consecutive texts (`[..].join(sep)`).
pub fn join_strings(parts: &Vec<String>, sep: &str) -> (r: String)
    ensures
        r@ == join(parts@.map_values(|p: String| p@), sep@),
{
    let ghost views = parts@.map_values(|p: String| p@);
    let mut out = String::new();
    let mut i: usize = 0;
    while i < parts.len()
        invariant
            i <= parts@.len(),
            views == parts@.map_values(|p: String| p@),
            out@ == join(views.take(i as int), sep@),
        decreases parts.len() - i,
    {
        if i > 0 {
            push_str(&mut out, sep);
        }
        push_str(&mut out, parts[i].as_str());
        proof {
            assert(views.take(i + 1).drop_last() =~= views.take(i as int));
            if i == 0 {
                assert(views.take(1) =~= seq![views[0]]);
            }
        }
        i += 1;
    }
    assert(views.take(parts@.len() as int) =~= views);
    out
}

} // verus!
