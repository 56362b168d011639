//! Lookup cache for registry client answers.
//!
//! Entries are kept in memory under a key made of the registry id and the
//! artifact's id and version. A disk-backed cache also keeps each entry in a
//! file named after the hex-encoded key under its root directory; reading and
//! writing those files is the caller's part.
use vstd::prelude::*;
use vstd::string::StringSliceAdditionalSpecFns;
use vstd::utf8::encode_utf8;

use crate::diagnostics::clone_opt;
use crate::model::registry::{same_artifact, RegisteredArtifact};
use crate::paths::{hex_bytes, push_hex_bytes};
use crate::text::{concat3, push_str, str_eq};

verus! {

/// One cached answer.
#[derive(Debug)]
struct CachedEntry {
    artifact: RegisteredArtifact,
    content: Option<String>,
    etag: Option<String>,
}

/// A key and its entry.
#[derive(Debug)]
struct CacheSlot {
    key: String,
    entry: CachedEntry,
}

/// Disk/memory cache keyed by registry id + artifact id@version.
#[derive(Debug)]
pub struct RegistryCache {
    memory: Vec<CacheSlot>,
    root: Option<String>,
}

/// The cache key: `registry|artifact|version`.
pub open spec fn cache_key(registry_id: Seq<char>, artifact_id: Seq<char>, version: Seq<char>) -> Seq<char> {
    registry_id + "|"@ + artifact_id + "|"@ + version
}

/// Index of the first slot before `n` holding `key`.
spec fn first_slot(s: Seq<CacheSlot>, key: Seq<char>, n: int) -> Option<int>
    decreases n,
{
    if n <= 0 {
        None
    } else {
        match first_slot(s, key, n - 1) {
            Some(i) => Some(i),
            None => if s[n - 1].key@ == key { Some(n - 1) } else { None },
        }
    }
}

proof fn lemma_first_slot_stable(s: Seq<CacheSlot>, key: Seq<char>, m: int, n: int)
    requires
        0 <= m <= n,
        first_slot(s, key, m) is Some,
    ensures
        first_slot(s, key, n) == first_slot(s, key, m),
    decreases n - m,
{
    if n > m {
        lemma_first_slot_stable(s, key, m, n - 1);
    }
}

proof fn lemma_first_slot_range(s: Seq<CacheSlot>, key: Seq<char>, n: int)
    ensures
        first_slot(s, key, n) matches Some(i) ==> 0 <= i < n && s[i].key@ == key,
    decreases n,
{
    if n > 0 {
        lemma_first_slot_range(s, key, n - 1);
    }
}

proof fn lemma_first_slot_same_keys(a: Seq<CacheSlot>, b: Seq<CacheSlot>, key: Seq<char>, n: int)
    requires
        0 <= n <= a.len(),
        n <= b.len(),
        forall|i: int| 0 <= i < n ==> (#[trigger] a[i]).key@ == b[i].key@,
    ensures
        first_slot(a, key, n) == first_slot(b, key, n),
    decreases n,
{
    if n > 0 {
        assert(a[n - 1].key@ == b[n - 1].key@);
        lemma_first_slot_same_keys(a, b, key, n - 1);
    }
}

impl RegistryCache {
    /// What the memory holds under `key`: artifact, content and entity tag.
    pub closed spec fn lookup(&self, key: Seq<char>) -> Option<(RegisteredArtifact, Option<String>, Option<String>)> {
        match first_slot(self.memory@, key, self.memory@.len() as int) {
            Some(i) => Some((self.memory@[i].entry.artifact, self.memory@[i].entry.content, self.memory@[i].entry.etag)),
            None => None,
        }
    }

    /// The root directory of a disk-backed cache.
    pub closed spec fn root_dir(&self) -> Option<Seq<char>> {
        match self.root {
            Some(r) => Some(r@),
            None => None,
        }
    }

    /// An in-memory cache.
    pub fn memory() -> (r: RegistryCache)
        ensures
            r.root_dir() is None,
            forall|k: Seq<char>| #[trigger] r.lookup(k) is None,
    {
        RegistryCache { memory: Vec::new(), root: None }
    }

    /// A cache that also keeps its entries under `root` (which the caller
    /// creates).
    pub fn disk(root: String) -> (r: RegistryCache)
        ensures
            r.root_dir() == Some(root@),
            forall|k: Seq<char>| #[trigger] r.lookup(k) is None,
    {
        RegistryCache { memory: Vec::new(), root: Some(root) }
    }

    /// The cache key of an artifact of a registry.
    pub fn key(registry_id: &str, artifact_id: &str, version: &str) -> (r: String)
        ensures
            r@ == cache_key(registry_id@, artifact_id@, version@),
    {
        let mut out = concat3(registry_id, "|", artifact_id);
        push_str(&mut out, "|");
        push_str(&mut out, version);
        out
    }

    fn slot_of(&self, key: &str) -> (r: Option<usize>)
        ensures
            match r {
                Some(i) => i < self.memory@.len() && first_slot(self.memory@, key@, self.memory@.len() as int) == Some(i as int),
                None => first_slot(self.memory@, key@, self.memory@.len() as int) is None,
            },
    {
        let mut i: usize = 0;
        while i < self.memory.len()
            invariant
                i <= self.memory@.len(),
                first_slot(self.memory@, key@, i as int) is None,
            decreases self.memory.len() - i,
        {
            if str_eq(self.memory[i].key.as_str(), key) {
                proof { lemma_first_slot_stable(self.memory@, key@, i as int + 1, self.memory@.len() as int); }
                return Some(i);
            }
            i += 1;
        }
        None
    }

    /// Store artifact metadata (and optional content) in memory. A later read
    /// under the same key gives back exactly these values; reads under other
    /// keys are unaffected.
    pub fn put(&mut self, registry_id: &str, artifact: RegisteredArtifact, content: Option<String>, etag: Option<String>)
        ensures
            final(self).root_dir() == old(self).root_dir(),
            final(self).lookup(cache_key(registry_id@, artifact.id@, artifact.version@)) == Some((artifact, content, etag)),
            forall|k: Seq<char>| k != cache_key(registry_id@, artifact.id@, artifact.version@)
                ==> #[trigger] final(self).lookup(k) == old(self).lookup(k),
    {
        let key = RegistryCache::key(registry_id, artifact.id.as_str(), artifact.version.as_str());
        let ghost k0 = key@;
        let ghost before = self.memory@;
        let ghost entry = (artifact, content, etag);
        let slot = CacheSlot { key, entry: CachedEntry { artifact, content, etag } };
        match self.slot_of(slot_key(&slot)) {
            Some(i) => {
                proof { lemma_first_slot_range(before, k0, before.len() as int); }
                self.memory.set(i, slot);
                proof {
                    let after = self.memory@;
                    assert forall|j: int| 0 <= j < after.len() implies (#[trigger] after[j]).key@ == before[j].key@ by {}
                    assert forall|k: Seq<char>| true implies first_slot(after, k, after.len() as int)
                        == first_slot(before, k, before.len() as int) by {
                        lemma_first_slot_same_keys(after, before, k, after.len() as int);
                    }
                    assert(first_slot(after, k0, after.len() as int) == Some(i as int));
                }
            },
            None => {
                self.memory.push(slot);
                proof {
                    let after = self.memory@;
                    let n = before.len() as int;
                    assert forall|k: Seq<char>| k != k0 implies #[trigger] first_slot(after, k, n + 1)
                        == first_slot(before, k, n) by {
                        lemma_first_slot_same_keys(after, before, k, n);
                        lemma_first_slot_range(before, k, n);
                    }
                    lemma_first_slot_same_keys(after, before, k0, n);
                    assert(first_slot(after, k0, n + 1) == Some(n));
                }
            },
        }
        proof {
            assert forall|k: Seq<char>| k != k0 implies #[trigger] self.lookup(k) == old(self).lookup(k) by {
                lemma_first_slot_range(self.memory@, k, self.memory@.len() as int);
            }
        }
    }

    /// Read the memory entry for an artifact of a registry.
    pub fn get(&self, registry_id: &str, artifact_id: &str, version: &str)
        -> (r: Option<(RegisteredArtifact, Option<String>, Option<String>)>)
        ensures
            match self.lookup(cache_key(registry_id@, artifact_id@, version@)) {
                Some((a, c, e)) => r matches Some((a2, c2, e2)) && same_artifact(a2, a) && c2 == c && e2 == e,
                None => r is None,
            },
    {
        let key = RegistryCache::key(registry_id, artifact_id, version);
        match self.slot_of(key.as_str()) {
            Some(i) => {
                let e = &self.memory[i].entry;
                Some((e.artifact.clone(), clone_opt(&e.content), clone_opt(&e.etag)))
            },
            None => None,
        }
    }

    /// Forget every memory entry (a disk-backed cache's files are the caller's
    /// to remove).
    pub fn clear(&mut self)
        ensures
            final(self).root_dir() == old(self).root_dir(),
            forall|k: Seq<char>| #[trigger] final(self).lookup(k) is None,
    {
        self.memory = Vec::new();
    }

    /// Cache root directory when disk-backed.
    pub fn root(&self) -> (r: Option<&str>)
        ensures
            match r {
                Some(s) => self.root_dir() == Some(s@),
                None => self.root_dir() is None,
            },
    {
        match &self.root {
            Some(s) => Some(s.as_str()),
            None => None,
        }
    }
}

fn slot_key(slot: &CacheSlot) -> (r: &str)
    ensures
        r@ == slot.key@,
{
    slot.key.as_str()
}

/// File name of a cache key on disk: two lower-case hex digits per byte.
pub fn sanitize(key: &str) -> (r: String)
    ensures
        r@ == hex_bytes(encode_utf8(key@)),
{
    let mut out = String::new();
    push_hex_bytes(&mut out, key.as_bytes());
    out
}

} // verus!
