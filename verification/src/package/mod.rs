//! Pipeline packages: manifests and artifact resolution.
use vstd::prelude::*;

pub mod validate;

pub use validate::{validate_package, ArtifactFileProbe};

use crate::error::Error;
use crate::model::extension::ExtensionMap;
use crate::paths::{has_parent_segment, no_parent_segment};
use crate::text::{chars_of, push_str, str_eq};

verus! {

/// Top-level manifest for a `.dpcspkg` pipeline package.
#[derive(Debug)]
pub struct PackageManifest {
    /// Stable package identifier.
    pub id: String,
    /// Package version.
    pub version: String,
    /// Supported DPCS specification version.
    pub dpcs_version: String,
    /// Optional human-readable name.
    pub name: Option<String>,
    /// Optional description.
    pub description: Option<String>,
    /// Indexed package artifacts.
    pub artifacts: Vec<PackageArtifactEntry>,
    /// Extension fields.
    pub extensions: ExtensionMap,
}

impl PackageManifest {
    /// An empty manifest: no id, version `0.1.0`, the supported DPCS version.
    pub fn empty() -> (r: PackageManifest)
        ensures
            r.id@ == Seq::<char>::empty(),
            r.version@ == "0.1.0"@,
            r.dpcs_version@ == "1.0.0-draft"@,
            r.name is None,
            r.description is None,
            r.artifacts@.len() == 0,
            r.extensions.entries@.len() == 0,
    {
        proof { reveal_strlit("1.0.0-draft"); }
        PackageManifest {
            id: String::new(),
            version: String::from_str("0.1.0"),
            dpcs_version: String::from_str(crate::DPCS_SPEC_VERSION),
            name: None,
            description: None,
            artifacts: Vec::new(),
            extensions: ExtensionMap::empty(),
        }
    }
}

/// One artifact entry inside a package manifest.
#[derive(Debug)]
pub struct PackageArtifactEntry {
    /// Artifact identifier (unique within the package).
    pub id: String,
    /// Artifact type (for example `pipelineContract` or `capabilityProfile`).
    pub artifact_type: String,
    /// Artifact version.
    pub version: String,
    /// Path relative to the package root (POSIX separators).
    pub path: String,
    /// Extension fields.
    pub extensions: ExtensionMap,
}

/// Helper to construct a simple artifact entry.
pub fn artifact_entry(id: String, artifact_type: String, version: String, path: String) -> (r: PackageArtifactEntry)
    ensures
        r.id == id,
        r.artifact_type == artifact_type,
        r.version == version,
        r.path == path,
        r.extensions.entries@.len() == 0,
{
    PackageArtifactEntry { id, artifact_type, version, path, extensions: ExtensionMap::empty() }
}

/// On-disk layout of an unpacked `.dpcspkg`.
#[derive(Debug)]
pub struct PackageLayout {
    /// Path to the package directory.
    pub root: String,
    /// Parsed manifest.
    pub manifest: PackageManifest,
}

/// `root` joined with `p` (POSIX `Path::join`): an absolute `p` replaces the
/// root; otherwise `p` follows the root, separated by `/` unless the root is
/// empty or already ends with one.
pub open spec fn join_path(root: Seq<char>, p: Seq<char>) -> Seq<char> {
    if p.len() > 0 && p[0] == '/' {
        p
    } else if root.len() == 0 || root.last() == '/' {
        root + p
    } else {
        root + "/"@ + p
    }
}

/// Join a path under a root (POSIX `Path::join`).
pub fn join_path_exec(root: &str, p: &str) -> (r: String)
    ensures
        r@ == join_path(root@, p@),
{
    let pv = chars_of(p);
    if pv.len() > 0 && pv[0] == '/' {
        return String::from_str(p);
    }
    let rv = chars_of(root);
    let mut out = String::from_str(root);
    if !(rv.len() == 0 || rv[rv.len() - 1] == '/') {
        push_str(&mut out, "/");
    }
    push_str(&mut out, p);
    proof { reveal_strlit("/"); }
    out
}

/// Index of the first artifact with id `id` (and version `version`, when given).
pub open spec fn first_artifact(a: Seq<PackageArtifactEntry>, id: Seq<char>, version: Option<Seq<char>>, n: int) -> Option<int>
    decreases n,
{
    if n <= 0 {
        None
    } else {
        match first_artifact(a, id, version, n - 1) {
            Some(k) => Some(k),
            None => if a[n - 1].id@ == id && (match version { Some(v) => a[n - 1].version@ == v, None => true }) {
                Some(n - 1)
            } else {
                None
            },
        }
    }
}

impl PackageLayout {
    /// Resolve an artifact path by id (and optional version): the first
    /// matching entry's path joined under the package root.
    pub fn resolve_path(&self, id: &str, version: Option<&str>) -> (r: Option<String>)
        ensures
            match first_artifact(self.manifest.artifacts@, id@, match version { Some(v) => Some(v@), None => None },
                self.manifest.artifacts@.len() as int) {
                Some(k) => r matches Some(p) && p@ == join_path(self.root@, self.manifest.artifacts@[k].path@),
                None => r is None,
            },
    {
        let a = &self.manifest.artifacts;
        let ghost ver = match version { Some(v) => Some(v@), None => None };
        let mut i: usize = 0;
        while i < a.len()
            invariant
                i <= a@.len(),
                a == &self.manifest.artifacts,
                ver == match version { Some(v) => Some(v@), None => None },
                first_artifact(a@, id@, ver, i as int) is None,
            decreases a.len() - i,
        {
            let hit = str_eq(a[i].id.as_str(), id) && match version {
                Some(v) => str_eq(a[i].version.as_str(), v),
                None => true,
            };
            if hit {
                proof { lemma_first_artifact_stable(a@, id@, ver, i + 1, a@.len() as int); }
                return Some(join_path_exec(self.root.as_str(), a[i].path.as_str()));
            }
            i += 1;
        }
        None
    }
}

proof fn lemma_first_artifact_stable(a: Seq<PackageArtifactEntry>, id: Seq<char>, version: Option<Seq<char>>, m: int, n: int)
    requires
        0 <= m <= n,
        first_artifact(a, id, version, m) is Some,
    ensures
        first_artifact(a, id, version, n) == first_artifact(a, id, version, m),
    decreases n - m,
{
    if n > m {
        lemma_first_artifact_stable(a, id, version, m, n - 1);
    }
}

/// Resolve an artifact file path within a loaded package by id/version; the
/// error names the artifact (`id` or `id@version`).
pub fn resolve_artifact(layout: &PackageLayout, id: &str, version: Option<&str>) -> (r: Result<String, Error>)
    ensures
        match first_artifact(layout.manifest.artifacts@, id@, match version { Some(v) => Some(v@), None => None },
            layout.manifest.artifacts@.len() as int) {
            Some(k) => r matches Ok(p) && p@ == join_path(layout.root@, layout.manifest.artifacts@[k].path@),
            None => r matches Err(Error::Serialization(m)) && m@ == "artifact `"@ + id@ + "`"@
                + (match version { Some(v) => "@"@ + v@, None => Seq::empty() }) + " not found in package"@,
        },
{
    match layout.resolve_path(id, version) {
        Some(p) => Ok(p),
        None => {
            let mut m = String::from_str("artifact `");
            push_str(&mut m, id);
            push_str(&mut m, "`");
            match version {
                Some(v) => {
                    push_str(&mut m, "@");
                    push_str(&mut m, v);
                },
                None => {},
            }
            push_str(&mut m, " not found in package");
            Err(Error::Serialization(m))
        },
    }
}

/// Error for an artifact path that is absolute or has a `..` segment.
pub open spec fn package_path_error(p: Seq<char>) -> Option<Seq<char>> {
    if p.len() > 0 && p[0] == '/' {
        Some("artifact path must be relative: "@ + p)
    } else if !no_parent_segment(p) {
        Some("artifact path must not contain '..': "@ + p)
    } else {
        None
    }
}

/// Reject artifact paths that are absolute or contain `..`.
pub fn validate_artifact_path(path: &str) -> (r: Result<(), Error>)
    ensures
        match package_path_error(path@) {
            None => r is Ok,
            Some(m) => r matches Err(Error::Serialization(x)) && x@ == m,
        },
{
    let v = chars_of(path);
    if v.len() > 0 && v[0] == '/' {
        let mut m = String::from_str("artifact path must be relative: ");
        push_str(&mut m, path);
        return Err(Error::Serialization(m));
    }
    if has_parent_segment(&v) {
        let mut m = String::from_str("artifact path must not contain '..': ");
        push_str(&mut m, path);
        return Err(Error::Serialization(m));
    }
    Ok(())
}

/// Whether entry `e` can be packed: its path is relative without `..`, and
/// its file is `present`.
pub open spec fn packable(e: PackageArtifactEntry, present: bool) -> bool {
    package_path_error(e.path@) is None && present
}

/// Index of the first of the first `n` entries that cannot be packed.
pub open spec fn first_unpackable(a: Seq<PackageArtifactEntry>, present: Seq<bool>, n: int) -> Option<int>
    decreases n,
{
    if n <= 0 {
        None
    } else {
        match first_unpackable(a, present, n - 1) {
            Some(k) => Some(k),
            None => if !packable(a[n - 1], present[n - 1]) { Some(n - 1) } else { None },
        }
    }
}

/// Check that every manifest entry of `layout` can be packed, where
/// `present[i]` tells whether the file of entry `i` is a regular file under
/// the package root. The first entry that cannot be packed decides the error:
/// its path error, or `artifact file missing` for its joined path.
pub fn validate_layout_paths(layout: &PackageLayout, present: &[bool]) -> (r: Result<(), Error>)
    requires
        present@.len() == layout.manifest.artifacts@.len(),
    ensures
        match first_unpackable(layout.manifest.artifacts@, present@, layout.manifest.artifacts@.len() as int) {
            None => r is Ok,
            Some(k) => match package_path_error(layout.manifest.artifacts@[k].path@) {
                Some(m) => r matches Err(Error::Serialization(x)) && x@ == m,
                None => r matches Err(Error::Io { path, message }) && path@ == join_path(layout.root@,
                    layout.manifest.artifacts@[k].path@) && message@ == "artifact file missing"@,
            },
        },
{
    let a = &layout.manifest.artifacts;
    let mut i: usize = 0;
    while i < a.len()
        invariant
            i <= a@.len(),
            a == &layout.manifest.artifacts,
            present@.len() == a@.len(),
            first_unpackable(a@, present@, i as int) is None,
        decreases a.len() - i,
    {
        match validate_artifact_path(a[i].path.as_str()) {
            Err(e) => {
                proof { lemma_first_unpackable_stable(a@, present@, i + 1, a@.len() as int); }
                return Err(e);
            },
            Ok(()) => {},
        }
        if !present[i] {
            proof { lemma_first_unpackable_stable(a@, present@, i + 1, a@.len() as int); }
            return Err(Error::Io {
                path: join_path_exec(layout.root.as_str(), a[i].path.as_str()),
                message: String::from_str("artifact file missing"),
            });
        }
        i += 1;
    }
    Ok(())
}

proof fn lemma_first_unpackable_stable(a: Seq<PackageArtifactEntry>, present: Seq<bool>, m: int, n: int)
    requires
        0 <= m <= n,
        first_unpackable(a, present, m) is Some,
    ensures
        first_unpackable(a, present, n) == first_unpackable(a, present, m),
    decreases n - m,
{
    if n > m {
        lemma_first_unpackable_stable(a, present, m, n - 1);
    }
}

} // verus!
