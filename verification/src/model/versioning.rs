//! Versioning helpers for DPCS artifacts: SemVer-compatible identifiers and
//! the soft `MAJOR.MINOR` compatibility used between toolkits and profiles.
use vstd::prelude::*;

use crate::text::{
    all_digits, all_digits_chars, alnum, chars_of, digits_value, ends_with, is_alnum, is_blank,
    is_digit, join, push_str, split, split_chars, split_once, split_once_chars, string_of, trim,
    trim_chars, slice_of, ends_with_chars, join_chars, str_eq, decimal, lemma_decimal_digits, lemma_decimal_injective,
    lemma_first_index_at, lemma_first_index_none, trim_start, trim_end, is_space, first_index,
};

verus! {

/// Parsed SemVer-compatible version identifier.
#[derive(Debug, Clone, PartialEq, Eq)]
pub struct ParsedVersion {
    /// Major version component.
    pub major: u64,
    /// Minor version component.
    pub minor: u64,
    /// Patch version component.
    pub patch: u64,
    /// Optional pre-release identifier (for example `draft` or `alpha.1`).
    pub pre_release: Option<String>,
    /// Optional build metadata.
    pub build: Option<String>,
}

/// Mathematical model of a parsed version.
pub struct VersionModel {
    pub major: nat,
    pub minor: nat,
    pub patch: nat,
    pub pre_release: Option<Seq<char>>,
    pub build: Option<Seq<char>>,
}

/// Optional text viewed as a character sequence.
pub open spec fn opt_view(o: Option<String>) -> Option<Seq<char>> {
    match o {
        Some(s) => Some(s@),
        None => None,
    }
}

impl ParsedVersion {
    /// The model of this version.
    pub open spec fn model(&self) -> VersionModel {
        VersionModel {
            major: self.major as nat,
            minor: self.minor as nat,
            patch: self.patch as nat,
            pre_release: opt_view(self.pre_release),
            build: opt_view(self.build),
        }
    }
}

/// One dot-separated identifier piece of pre-release or build metadata.
pub open spec fn ident_part_ok(part: Seq<char>, allow_leading_zeros: bool) -> bool {
    &&& part.len() > 0
    &&& forall|i: int| 0 <= i < part.len() ==> (is_alnum(#[trigger] part[i]) || part[i] == '-')
    &&& !(!allow_leading_zeros && all_digits(part) && part.len() > 1 && part[0] == '0')
}

/// SemVer pre-release / build identifier rules (practical subset).
pub open spec fn semver_ident(value: Seq<char>, allow_leading_zeros: bool) -> bool {
    forall|i: int| 0 <= i < split(value, '.').len() ==> ident_part_ok(#[trigger] split(value, '.')[i], allow_leading_zeros)
}

/// Value of one numeric version component, or the error message.
pub open spec fn numeric_component(value: Seq<char>, label: Seq<char>) -> Result<nat, Seq<char>> {
    if value.len() == 0 || !all_digits(value) {
        Err(label + " component must be a non-negative integer"@)
    } else if value.len() > 1 && value[0] == '0' {
        Err(label + " component must not have leading zeros"@)
    } else if digits_value(value) > u64::MAX {
        Err(label + " component is out of range"@)
    } else {
        Ok(digits_value(value))
    }
}

/// The core `MAJOR.MINOR[.PATCH]` part, after build and pre-release were split off.
pub open spec fn parse_core(
    core: Seq<char>,
    pre_release: Option<Seq<char>>,
    build: Option<Seq<char>>,
) -> Result<VersionModel, Seq<char>> {
    let parts = split(core, '.');
    if parts.len() < 2 || parts.len() > 3 {
        Err("version must be MAJOR.MINOR or MAJOR.MINOR.PATCH"@)
    } else {
        match numeric_component(parts[0], "major"@) {
            Err(e) => Err(e),
            Ok(major) => match numeric_component(parts[1], "minor"@) {
                Err(e) => Err(e),
                Ok(minor) => {
                    let patch = if parts.len() == 3 { numeric_component(parts[2], "patch"@) } else { Ok(0nat) };
                    match patch {
                        Err(e) => Err(e),
                        Ok(patch) => Ok(VersionModel { major, minor, patch, pre_release, build }),
                    }
                },
            },
        }
    }
}

/// The text after the build metadata was split off.
pub open spec fn parse_pre(core_and_pre: Seq<char>, build: Option<Seq<char>>) -> Result<VersionModel, Seq<char>> {
    match split_once(core_and_pre, '-') {
        Some((left, right)) => {
            if right.len() == 0 || !semver_ident(right, false) {
                Err("invalid pre-release identifier"@)
            } else {
                parse_core(left, Some(right), build)
            }
        },
        None => parse_core(core_and_pre, None, build),
    }
}

/// `MAJOR.MINOR[.PATCH][-pre][+build]` after trimming white space.
pub open spec fn parse_version_spec(input: Seq<char>) -> Result<VersionModel, Seq<char>> {
    let version = trim(input);
    if version.len() == 0 {
        Err("version must not be empty"@)
    } else {
        match split_once(version, '+') {
            Some((left, right)) => {
                if right.len() == 0 || !semver_ident(right, true) {
                    Err("invalid build metadata"@)
                } else {
                    parse_pre(left, Some(right))
                }
            },
            None => parse_pre(version, None),
        }
    }
}

/// Repeatedly strip a trailing `-draft`.
pub open spec fn strip_draft(s: Seq<char>) -> Seq<char>
    decreases s.len(),
{
    if s.len() >= 6 && ends_with(s, "-draft"@) {
        strip_draft(s.subrange(0, s.len() - 6))
    } else {
        s
    }
}

/// At most the first two pieces (`Iterator::take(2)`).
pub open spec fn first_two(s: Seq<Seq<char>>) -> Seq<Seq<char>> {
    if s.len() <= 2 { s } else { s.take(2) }
}

/// `MAJOR.MINOR` normalization used by soft compatibility checks.
pub open spec fn major_minor(value: Seq<char>) -> Seq<char> {
    join(first_two(split(strip_draft(trim(value)), '.')), "."@)
}

/// Toolkit/profile compatibility of two version strings.
pub open spec fn compatible(left: Seq<char>, right: Seq<char>) -> bool {
    left == right || major_minor(left) == major_minor(right)
}

/// Returns `true` when `version` looks like a non-empty version string.
pub fn is_present_version(version: &str) -> (r: bool)
    ensures
        r == (trim(version@).len() > 0),
{
    !is_blank(version)
}

/// Returns `true` when `version` is a valid SemVer-compatible identifier.
pub fn is_valid_version(version: &str) -> (r: bool)
    ensures
        r == (parse_version_spec(version@) is Ok),
{
    match parse_version(version) {
        Ok(_) => true,
        Err(_) => false,
    }
}

fn part_ok(part: &Vec<char>, allow_leading_zeros: bool) -> (r: bool)
    ensures
        r == ident_part_ok(part@, allow_leading_zeros),
{
    if part.len() == 0 {
        return false;
    }
    let mut i: usize = 0;
    while i < part.len()
        invariant
            i <= part@.len(),
            forall|k: int| 0 <= k < i ==> (is_alnum(#[trigger] part@[k]) || part@[k] == '-'),
        decreases part.len() - i,
    {
        if !(alnum(part[i]) || part[i] == '-') {
            return false;
        }
        i += 1;
    }
    if !allow_leading_zeros && all_digits_chars(part) && part.len() > 1 && part[0] == '0' {
        return false;
    }
    true
}

fn is_semver_ident(value: &Vec<char>, allow_leading_zeros: bool) -> (r: bool)
    ensures
        r == semver_ident(value@, allow_leading_zeros),
{
    let parts = split_chars(value, '.');
    let mut i: usize = 0;
    while i < parts.len()
        invariant
            i <= parts@.len(),
            parts@.len() == split(value@, '.').len(),
            forall|k: int| 0 <= k < parts@.len() ==> #[trigger] parts@[k]@ == split(value@, '.')[k],
            forall|k: int| 0 <= k < i ==> ident_part_ok(#[trigger] split(value@, '.')[k], allow_leading_zeros),
        decreases parts.len() - i,
    {
        if !part_ok(&parts[i], allow_leading_zeros) {
            assert(!ident_part_ok(split(value@, '.')[i as int], allow_leading_zeros));
            return false;
        }
        i += 1;
    }
    true
}

proof fn lemma_digits_step(s: Seq<char>, i: int)
    requires
        0 <= i < s.len(),
    ensures
        digits_value(s.subrange(0, i + 1)) == digits_value(s.subrange(0, i)) * 10 + ((s[i] as u32) - ('0' as u32)) as nat,
{
    assert(s.subrange(0, i + 1).drop_last() =~= s.subrange(0, i));
}

proof fn lemma_digits_mono(s: Seq<char>, i: int, j: int)
    requires
        0 <= i <= j <= s.len(),
        all_digits(s),
    ensures
        digits_value(s.subrange(0, i)) <= digits_value(s.subrange(0, j)),
    decreases j - i,
{
    if i < j {
        lemma_digits_mono(s, i, j - 1);
        lemma_digits_step(s, j - 1);
        assert(is_digit(s[j - 1]));
    }
}

fn numeric_error(label: &str, tail: &str) -> (r: String)
    ensures
        r@ == label@ + tail@,
{
    let mut out = String::from_str(label);
    push_str(&mut out, tail);
    out
}

fn parse_numeric_component(value: &Vec<char>, label: &str) -> (r: Result<u64, String>)
    ensures
        match r {
            Ok(n) => numeric_component(value@, label@) == Ok::<nat, Seq<char>>(n as nat),
            Err(e) => numeric_component(value@, label@) == Err::<nat, Seq<char>>(e@),
        },
{
    if value.len() == 0 || !all_digits_chars(value) {
        return Err(numeric_error(label, " component must be a non-negative integer"));
    }
    if value.len() > 1 && value[0] == '0' {
        return Err(numeric_error(label, " component must not have leading zeros"));
    }
    let mut acc: u64 = 0;
    let mut i: usize = 0;
    assert(value@.subrange(0, 0) =~= Seq::<char>::empty());
    while i < value.len()
        invariant
            i <= value@.len(),
            all_digits(value@),
            value@.len() > 0,
            !(value@.len() > 1 && value@[0] == '0'),
            acc as nat == digits_value(value@.subrange(0, i as int)),
        decreases value.len() - i,
    {
        proof { lemma_digits_step(value@, i as int); }
        assert(is_digit(value@[i as int]));
        let d = (value[i] as u32 - '0' as u32) as u64;
        if acc > (u64::MAX - d) / 10 {
            proof {
                assert(acc * 10 + d > u64::MAX) by (nonlinear_arith)
                    requires acc > (u64::MAX - d) / 10, d <= 9;
                lemma_digits_mono(value@, i + 1, value@.len() as int);
                assert(value@.subrange(0, value@.len() as int) =~= value@);
                assert(digits_value(value@.subrange(0, i + 1)) == acc * 10 + d);
                assert(digits_value(value@) > u64::MAX);
                assert(!(value.len() == 0 || !all_digits(value@)));
                assert(!(value@.len() > 1 && value@[0] == '0'));
            }
            return Err(numeric_error(label, " component is out of range"));
        }
        assert(acc * 10 + d <= u64::MAX) by (nonlinear_arith)
            requires acc <= (u64::MAX - d) / 10, d <= 9;
        acc = acc * 10 + d;
        i += 1;
    }
    assert(value@.subrange(0, value@.len() as int) =~= value@);
    Ok(acc)
}

fn opt_string(v: Option<Vec<char>>) -> (r: Option<String>)
    ensures
        match v {
            Some(x) => opt_view(r) == Some(x@),
            None => r is None,
        },
{
    match v {
        Some(x) => Some(string_of(&x)),
        None => None,
    }
}

fn parse_core_exec(core: &Vec<char>, pre: Option<Vec<char>>, build: Option<Vec<char>>) -> (r: Result<ParsedVersion, String>)
    ensures
        ({
            let pv = match pre { Some(x) => Some(x@), None => None::<Seq<char>> };
            let bv = match build { Some(x) => Some(x@), None => None::<Seq<char>> };
            match r {
                Ok(p) => parse_core(core@, pv, bv) == Ok::<VersionModel, Seq<char>>(p.model()),
                Err(e) => parse_core(core@, pv, bv) == Err::<VersionModel, Seq<char>>(e@),
            }
        }),
{
    let parts = split_chars(core, '.');
    if parts.len() < 2 || parts.len() > 3 {
        return Err(String::from_str("version must be MAJOR.MINOR or MAJOR.MINOR.PATCH"));
    }
    let major = match parse_numeric_component(&parts[0], "major") {
        Ok(n) => n,
        Err(e) => { return Err(e); },
    };
    let minor = match parse_numeric_component(&parts[1], "minor") {
        Ok(n) => n,
        Err(e) => { return Err(e); },
    };
    let patch = if parts.len() == 3 {
        match parse_numeric_component(&parts[2], "patch") {
            Ok(n) => n,
            Err(e) => { return Err(e); },
        }
    } else {
        0
    };
    let p = ParsedVersion { major, minor, patch, pre_release: opt_string(pre), build: opt_string(build) };
    Ok(p)
}

/// Parse a SemVer-compatible version string (`MAJOR.MINOR.PATCH[-pre][+build]`).
///
/// Dot-separated numeric components must be non-empty. Pre-release and build
/// metadata follow SemVer 2.0 rules at a practical subset (alphanumeric and
/// `.` / `-` characters).
pub fn parse_version(version: &str) -> (r: Result<ParsedVersion, String>)
    ensures
        match r {
            Ok(p) => parse_version_spec(version@) == Ok::<VersionModel, Seq<char>>(p.model()),
            Err(e) => parse_version_spec(version@) == Err::<VersionModel, Seq<char>>(e@),
        },
{
    let raw = chars_of(version);
    let v = trim_chars(&raw);
    if v.len() == 0 {
        return Err(String::from_str("version must not be empty"));
    }
    let (core_and_pre, build) = match split_once_chars(&v, '+') {
        Some((left, right)) => {
            if right.len() == 0 || !is_semver_ident(&right, true) {
                return Err(String::from_str("invalid build metadata"));
            }
            (left, Some(right))
        },
        None => (v, None),
    };
    match split_once_chars(&core_and_pre, '-') {
        Some((left, right)) => {
            if right.len() == 0 || !is_semver_ident(&right, false) {
                return Err(String::from_str("invalid pre-release identifier"));
            }
            parse_core_exec(&left, Some(right), build)
        },
        None => parse_core_exec(&core_and_pre, None, build),
    }
}

} // verus!

verus! {

fn strip_draft_chars(v: &Vec<char>) -> (r: Vec<char>)
    ensures
        r@ == strip_draft(v@),
{
    let suffix = chars_of("-draft");
    proof { reveal_strlit("-draft"); }
    let mut cur = slice_of(v, 0, v.len());
    assert(cur@ =~= v@);
    while cur.len() >= 6 && ends_with_chars(&cur, &suffix)
        invariant
            suffix@ == "-draft"@,
            strip_draft(cur@) == strip_draft(v@),
        decreases cur.len(),
    {
        cur = slice_of(&cur, 0, cur.len() - 6);
    }
    cur
}

/// Normalize a version to `MAJOR.MINOR` for soft compatibility checks.
pub fn normalize_major_minor(value: &str) -> (r: String)
    ensures
        r@ == major_minor(value@),
{
    let raw = chars_of(value);
    let trimmed = trim_chars(&raw);
    let stripped = strip_draft_chars(&trimmed);
    let parts = split_chars(&stripped, '.');
    let mut first: Vec<Vec<char>> = Vec::new();
    let mut i: usize = 0;
    let ghost all = split(stripped@, '.');
    while i < parts.len() && i < 2
        invariant
            i <= parts@.len(),
            i <= 2,
            parts@.len() == all.len(),
            forall|k: int| 0 <= k < parts@.len() ==> #[trigger] parts@[k]@ == all[k],
            first@.len() == i,
            forall|k: int| 0 <= k < i ==> #[trigger] first@[k]@ == all[k],
        decreases 2 - i,
    {
        first.push(slice_of(&parts[i], 0, parts[i].len()));
        i += 1;
    }
    assert(first@.map_values(|p: Vec<char>| p@) =~= first_two(all));
    let dot = chars_of(".");
    let joined = join_chars(&first, &dot);
    string_of(&joined)
}

/// Compare two version strings for toolkit/profile compatibility.
///
/// Equality is exact when both sides match. Otherwise compare normalized
/// `MAJOR.MINOR` prefixes after stripping a trailing `-draft` suffix.
pub fn versions_compatible(left: &str, right: &str) -> (r: bool)
    ensures
        r == compatible(left@, right@),
{
    if str_eq(left, right) {
        return true;
    }
    let l = normalize_major_minor(left);
    let rr = normalize_major_minor(right);
    str_eq(l.as_str(), rr.as_str())
}

/// Version compatibility is an equivalence relation: every version is
/// compatible with itself, compatibility is symmetric, and two versions
/// compatible with a third are compatible with each other.
pub proof fn law_compatibility_is_equivalence(a: Seq<char>, b: Seq<char>, c: Seq<char>)
    ensures
        compatible(a, a),
        compatible(a, b) ==> compatible(b, a),
        compatible(a, b) && compatible(b, c) ==> compatible(a, c),
{
}


/// The version text `a.b.c`.
pub open spec fn numeric_version(a: nat, b: nat, c: nat) -> Seq<char> {
    decimal(a) + "."@ + decimal(b) + "."@ + decimal(c)
}

proof fn lemma_no_dot(x: Seq<char>)
    requires
        all_digits(x),
    ensures
        forall|k: int| 0 <= k < x.len() ==> #[trigger] x[k] != '.' && !is_space(x[k]),
{
    assert forall|k: int| 0 <= k < x.len() implies #[trigger] x[k] != '.' && !is_space(x[k]) by {
        assert(is_digit(x[k]));
    }
}

proof fn lemma_split_digits(x: Seq<char>)
    requires
        all_digits(x),
    ensures
        split(x, '.') == seq![x],
{
    lemma_no_dot(x);
    lemma_first_index_none(x, '.');
}

proof fn lemma_split_after_digits(x: Seq<char>, y: Seq<char>)
    requires
        all_digits(x),
    ensures
        split(x + "."@ + y, '.') == seq![x] + split(y, '.'),
{
    reveal_strlit(".");
    lemma_no_dot(x);
    let s = x + "."@ + y;
    assert(s[x.len() as int] == '.');
    assert forall|k: int| 0 <= k < x.len() implies s[k] != '.' by {
        assert(s[k] == x[k]);
    }
    lemma_first_index_at(s, '.', x.len() as int);
    assert(s.subrange(0, x.len() as int) =~= x);
    assert(s.subrange(x.len() as int + 1, s.len() as int) =~= y);
}

proof fn lemma_numeric_parts(a: nat, b: nat, c: nat)
    ensures
        split(numeric_version(a, b, c), '.') == seq![decimal(a), decimal(b), decimal(c)],
        split(decimal(a) + "."@ + decimal(b), '.') == seq![decimal(a), decimal(b)],
{
    lemma_decimal_digits(a);
    lemma_decimal_digits(b);
    lemma_decimal_digits(c);
    lemma_split_digits(decimal(c));
    lemma_split_digits(decimal(b));
    lemma_split_after_digits(decimal(b), decimal(c));
    assert(numeric_version(a, b, c) == decimal(a) + "."@ + (decimal(b) + "."@ + decimal(c)));
    lemma_split_after_digits(decimal(a), decimal(b) + "."@ + decimal(c));
    assert(split(numeric_version(a, b, c), '.') =~= seq![decimal(a), decimal(b), decimal(c)]);
    lemma_split_after_digits(decimal(a), decimal(b));
    assert(split(decimal(a) + "."@ + decimal(b), '.') =~= seq![decimal(a), decimal(b)]);
}

proof fn lemma_numeric_major_minor(a: nat, b: nat, c: nat)
    ensures
        major_minor(numeric_version(a, b, c)) == decimal(a) + "."@ + decimal(b),
{
    reveal_strlit("-draft");
    reveal_strlit(".");
    let v = numeric_version(a, b, c);
    lemma_decimal_digits(a);
    lemma_decimal_digits(c);
    lemma_no_dot(decimal(a));
    lemma_no_dot(decimal(c));
    assert(v[0] == decimal(a)[0]);
    assert(v.last() == decimal(c).last());
    assert(!is_space(v[0]));
    assert(!is_space(v.last()));
    assert(trim_start(v) == v);
    assert(trim_end(v) == v);
    assert(trim(v) == v);
    if v.len() >= 6 {
        assert(v.subrange(v.len() - 6, v.len() as int)[5] == v.last());
        assert("-draft"@[5] == 't');
    }
    assert(strip_draft(v) == v);
    lemma_numeric_parts(a, b, c);
    let parts = seq![decimal(a), decimal(b), decimal(c)];
    assert(first_two(parts) =~= seq![decimal(a), decimal(b)]);
    let two = seq![decimal(a), decimal(b)];
    assert(two.drop_last() =~= seq![decimal(a)]);
    assert(join(seq![decimal(a)], "."@) == decimal(a));
    assert(join(two, "."@) == join(two.drop_last(), "."@) + "."@ + two.last());
}

/// Versions `a.b.c` and `d.e.f` are compatible exactly when they agree on
/// MAJOR and MINOR: the patch component never decides, and a different minor
/// or major always does.
pub proof fn law_versions_compare_major_minor(a: nat, b: nat, c: nat, d: nat, e: nat, f: nat)
    ensures
        compatible(numeric_version(a, b, c), numeric_version(d, e, f)) <==> (a == d && b == e),
{
    lemma_numeric_major_minor(a, b, c);
    lemma_numeric_major_minor(d, e, f);
    lemma_numeric_parts(a, b, c);
    lemma_numeric_parts(d, e, f);
    if compatible(numeric_version(a, b, c), numeric_version(d, e, f)) {
        if numeric_version(a, b, c) == numeric_version(d, e, f) {
            assert(seq![decimal(a), decimal(b), decimal(c)][0] == seq![decimal(d), decimal(e), decimal(f)][0]);
            assert(seq![decimal(a), decimal(b), decimal(c)][1] == seq![decimal(d), decimal(e), decimal(f)][1]);
        } else {
            assert(seq![decimal(a), decimal(b)][0] == seq![decimal(d), decimal(e)][0]);
            assert(seq![decimal(a), decimal(b)][1] == seq![decimal(d), decimal(e)][1]);
        }
        lemma_decimal_injective(a, d);
        lemma_decimal_injective(b, e);
    }
}

/// Two versions are compatible only when they are equal or their normalized
/// MAJOR.MINOR forms are equal.
pub proof fn law_compatible_needs_same_major_minor(left: Seq<char>, right: Seq<char>)
    ensures
        compatible(left, right) ==> left == right || major_minor(left) == major_minor(right),
        major_minor(left) == major_minor(right) ==> compatible(left, right),
{
}

} // verus!
