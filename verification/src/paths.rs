//! Path containment and naming helpers for package and registry layouts.
//!
//! Paths use `/` as separator (POSIX); a path is absolute when it starts with `/`.
use vstd::prelude::*;
use vstd::string::StringSliceAdditionalSpecFns;
use vstd::utf8::encode_utf8;

use crate::text::{alnum, chars_of, contains_char, is_alnum, push_char, push_str, split, split_chars, str_eq};

verus! {

/// The `..` path segment.
pub open spec fn is_parent_segment(seg: Seq<char>) -> bool {
    seg == ".."@
}

/// No `/`-separated segment of `s` is `..`.
pub open spec fn no_parent_segment(s: Seq<char>) -> bool {
    forall|i: int| 0 <= i < split(s, '/').len() ==> !is_parent_segment(#[trigger] split(s, '/')[i])
}

/// A safe relative path: non-empty, no NUL, not absolute, and no `..` segment.
pub open spec fn safe_relative(s: Seq<char>) -> bool {
    &&& s.len() > 0
    &&& !contains_char(s, '\0')
    &&& s[0] != '/'
    &&& no_parent_segment(s)
}

/// Whether `v` has a `..` segment.
pub fn has_parent_segment(v: &[char]) -> (r: bool)
    ensures
        r == !no_parent_segment(v@),
{
    let segs = split_chars(v, '/');
    proof { reveal_strlit(".."); }
    let mut i: usize = 0;
    while i < segs.len()
        invariant
            i <= segs@.len(),
            segs@.len() == split(v@, '/').len(),
            forall|k: int| 0 <= k < segs@.len() ==> #[trigger] segs@[k]@ == split(v@, '/')[k],
            forall|k: int| 0 <= k < i ==> !is_parent_segment(#[trigger] split(v@, '/')[k]),
        decreases segs.len() - i,
    {
        proof { reveal_strlit(".."); }
        if segs[i].len() == 2 && segs[i][0] == '.' && segs[i][1] == '.' {
            assert(segs@[i as int]@ =~= ".."@);
            return true;
        }
        assert(!is_parent_segment(segs@[i as int]@));
        i += 1;
    }
    false
}

/// Whether `v` contains `c`.
pub fn has_char(v: &[char], c: char) -> (r: bool)
    ensures
        r == contains_char(v@, c),
{
    let mut i: usize = 0;
    while i < v.len()
        invariant
            i <= v@.len(),
            forall|k: int| 0 <= k < i ==> v@[k] != c,
        decreases v.len() - i,
    {
        if v[i] == c {
            return true;
        }
        i += 1;
    }
    false
}

/// Returns `true` when `relative` is a safe relative path (no absolute / `..` / NUL).
pub fn is_safe_relative(relative: &str) -> (r: bool)
    ensures
        r == safe_relative(relative@),
{
    let v = chars_of(relative);
    if v.len() == 0 || has_char(&v, '\0') {
        return false;
    }
    if v[0] == '/' {
        return false;
    }
    !has_parent_segment(&v)
}

/// Characters allowed in a registry path segment.
pub open spec fn segment_char(c: char) -> bool {
    is_alnum(c) || c == '.' || c == '_' || c == '-' || c == '+'
}

/// Non-empty text made only of segment characters that does not name the
/// current or the parent directory (`.` or `..`).
pub open spec fn safe_segment(s: Seq<char>) -> bool {
    &&& s.len() > 0
    &&& forall|i: int| 0 <= i < s.len() ==> segment_char(#[trigger] s[i])
    &&& s != "."@
    &&& s != ".."@
}

/// Returns true when `id` is safe to embed in a filesystem path segment.
///
/// Allows `+` so SemVer build metadata (for example `1.2.3+build`) can be used
/// in registry artifact ids/versions and content filenames.
pub fn is_safe_path_segment(id: &str) -> (r: bool)
    ensures
        r == safe_segment(id@),
{
    let v = chars_of(id);
    if v.len() == 0 {
        return false;
    }
    let mut i: usize = 0;
    while i < v.len()
        invariant
            i <= v@.len(),
            v@ == id@,
            forall|k: int| 0 <= k < i ==> segment_char(#[trigger] v@[k]),
        decreases v.len() - i,
    {
        let c = v[i];
        if !(alnum(c) || c == '.' || c == '_' || c == '-' || c == '+') {
            assert(!segment_char(id@[i as int]));
            return false;
        }
        i += 1;
    }
    if str_eq(id, ".") || str_eq(id, "..") {
        return false;
    }
    true
}

/// Lower-case hexadecimal digit for `d < 16`.
pub open spec fn hex(d: nat) -> char {
    if d < 10 { (('0' as u32) + d) as char } else { (('a' as u32) + d - 10) as char }
}

/// Two lower-case hex digits per byte.
pub open spec fn hex_bytes(b: Seq<u8>) -> Seq<char>
    decreases b.len(),
{
    if b.len() == 0 {
        Seq::empty()
    } else {
        hex_bytes(b.drop_last()) + seq![hex((b.last() / 16) as nat), hex((b.last() % 16) as nat)]
    }
}

/// Path key of an id/version pair: hex of the UTF-8 bytes of each, joined by `-`.
pub open spec fn path_key(id: Seq<char>, version: Seq<char>) -> Seq<char> {
    hex_bytes(encode_utf8(id)) + "-"@ + hex_bytes(encode_utf8(version))
}

fn hex_exec(d: u8) -> (r: char)
    requires
        d < 16,
    ensures
        r == hex(d as nat),
{
    if d < 10 {
        (('0' as u8) + d) as char
    } else {
        (('a' as u8) + d - 10) as char
    }
}

/// Appends two lower-case hexadecimal digits per byte.
pub fn push_hex_bytes(out: &mut String, b: &[u8])
    ensures
        final(out)@ == old(out)@ + hex_bytes(b@),
{
    let ghost start = out@;
    let mut i: usize = 0;
    assert(b@.take(0) =~= Seq::<u8>::empty());
    while i < b.len()
        invariant
            i <= b@.len(),
            out@ == start + hex_bytes(b@.take(i as int)),
        decreases b.len() - i,
    {
        let x = b[i];
        push_char(out, hex_exec(x / 16));
        push_char(out, hex_exec(x % 16));
        assert(b@.take(i + 1).drop_last() =~= b@.take(i as int));
        assert(out@ =~= start + hex_bytes(b@.take(i + 1)));
        i += 1;
    }
    assert(b@.take(b@.len() as int) =~= b@);
}

/// Encode an id/version into a path segment that is unique on case-insensitive
/// filesystems (`Demo` and `demo` produce distinct hex names).
pub fn encode_path_key(id: &str, version: &str) -> (r: String)
    ensures
        r@ == path_key(id@, version@),
{
    let mut out = String::new();
    push_hex_bytes(&mut out, id.as_bytes());
    push_str(&mut out, "-");
    push_hex_bytes(&mut out, version.as_bytes());
    out
}

/// Relative registry content path for a published artifact payload.
pub fn registry_content_relative_path(id: &str, version: &str) -> (r: String)
    ensures
        r@ == "artifacts/"@ + path_key(id@, version@) + ".yaml"@,
{
    let mut out = String::from_str("artifacts/");
    let key = encode_path_key(id, version);
    push_str(&mut out, key.as_str());
    push_str(&mut out, ".yaml");
    out
}

} // verus!

verus! {

proof fn lemma_hex_bytes_shape(b: Seq<u8>)
    ensures
        hex_bytes(b).len() == 2 * b.len(),
        forall|i: int| 0 <= i < hex_bytes(b).len() ==> #[trigger] hex_bytes(b)[i] != '-',
    decreases b.len(),
{
    if b.len() > 0 {
        lemma_hex_bytes_shape(b.drop_last());
        let h = hex_bytes(b);
        let p = hex_bytes(b.drop_last());
        assert forall|i: int| 0 <= i < h.len() implies #[trigger] h[i] != '-' by {
            if i < p.len() {
                assert(h[i] == p[i]);
            }
        }
    }
}

proof fn lemma_hex_injective(a: nat, b: nat)
    requires
        a < 16,
        b < 16,
        hex(a) == hex(b),
    ensures
        a == b,
{
}

proof fn lemma_hex_bytes_injective(a: Seq<u8>, b: Seq<u8>)
    requires
        hex_bytes(a) == hex_bytes(b),
    ensures
        a == b,
    decreases a.len(),
{
    lemma_hex_bytes_shape(a);
    lemma_hex_bytes_shape(b);
    if a.len() > 0 {
        let ha = hex_bytes(a);
        let hb = hex_bytes(b);
        assert(ha[ha.len() - 2] == hb[hb.len() - 2]);
        assert(ha[ha.len() - 1] == hb[hb.len() - 1]);
        let x = a.last();
        let y = b.last();
        lemma_hex_bytes_shape(a.drop_last());
        lemma_hex_bytes_shape(b.drop_last());
        assert(ha[ha.len() - 2] == hex((x / 16) as nat));
        assert(hb[hb.len() - 2] == hex((y / 16) as nat));
        assert(ha[ha.len() - 1] == hex((x % 16) as nat));
        assert(hb[hb.len() - 1] == hex((y % 16) as nat));
        lemma_hex_injective((x / 16) as nat, (y / 16) as nat);
        lemma_hex_injective((x % 16) as nat, (y % 16) as nat);
        assert(x == y);
        assert(hex_bytes(a.drop_last()) =~= ha.subrange(0, ha.len() - 2));
        assert(hex_bytes(b.drop_last()) =~= hb.subrange(0, hb.len() - 2));
        lemma_hex_bytes_injective(a.drop_last(), b.drop_last());
        assert(a =~= a.drop_last().push(x));
        assert(b =~= b.drop_last().push(y));
    }
}

/// Registry path keys are injective: distinct id/version pairs (including
/// pairs that differ only in letter case) never share a key, and keys use
/// only lower-case hex digits and `-`, so they stay distinct on
/// case-insensitive filesystems.
pub proof fn law_path_key_injective(id1: Seq<char>, v1: Seq<char>, id2: Seq<char>, v2: Seq<char>)
    requires
        path_key(id1, v1) == path_key(id2, v2),
    ensures
        id1 == id2,
        v1 == v2,
{
    let h1 = hex_bytes(encode_utf8(id1));
    let h2 = hex_bytes(encode_utf8(id2));
    let k = path_key(id1, v1);
    reveal_strlit("-");
    lemma_hex_bytes_shape(encode_utf8(id1));
    lemma_hex_bytes_shape(encode_utf8(id2));
    if h1.len() < h2.len() {
        assert(k[h1.len() as int] == '-');
        assert(path_key(id2, v2)[h1.len() as int] == h2[h1.len() as int]);
    } else if h2.len() < h1.len() {
        assert(path_key(id2, v2)[h2.len() as int] == '-');
        assert(k[h2.len() as int] == h1[h2.len() as int]);
    }
    assert(h1 =~= k.subrange(0, h1.len() as int));
    assert(h2 =~= path_key(id2, v2).subrange(0, h2.len() as int));
    assert(hex_bytes(encode_utf8(v1)) =~= k.subrange(h1.len() + 1int, k.len() as int));
    assert(hex_bytes(encode_utf8(v2)) =~= path_key(id2, v2).subrange(h2.len() + 1int, k.len() as int));
    lemma_hex_bytes_injective(encode_utf8(id1), encode_utf8(id2));
    lemma_hex_bytes_injective(encode_utf8(v1), encode_utf8(v2));
    vstd::utf8::encode_utf8_decode_utf8(id1);
    vstd::utf8::encode_utf8_decode_utf8(id2);
    vstd::utf8::encode_utf8_decode_utf8(v1);
    vstd::utf8::encode_utf8_decode_utf8(v2);
}

} // verus!
