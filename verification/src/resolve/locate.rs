//! Where a contract reference's document is looked for, and what is
//! reported when it is found nowhere.
//!
//! The places are tried in order: the location itself when absolute, under
//! the base directory, relative to the working directory, then in each
//! package root that opened (the manifest entry of the reference, then the
//! location under the root). The caller probes the candidates on disk.
use vstd::prelude::*;

use super::nesting::{reference_unresolved, unresolved_view};
use super::ResolveOptions;
use crate::diagnostics::{opt_text, Diagnostic};
use crate::model::step::ContractReference;
use crate::package::{first_artifact, join_path, join_path_exec, PackageLayout};
use crate::text::{chars_of, string_of, trim, trim_chars};

verus! {

/// A place where a referenced document may be.
#[derive(Debug)]
pub struct LocateCandidate {
    /// Path to probe.
    pub path: String,
    /// Whether the path is canonicalized when it is chosen.
    pub canonical: bool,
}

impl View for LocateCandidate {
    type V = (Seq<char>, bool);

    open spec fn view(&self) -> (Seq<char>, bool) {
        (self.path@, self.canonical)
    }
}

/// Candidates as plain values.
pub open spec fn candidate_views(v: Seq<LocateCandidate>) -> Seq<(Seq<char>, bool)> {
    v.map_values(|c: LocateCandidate| c@)
}

/// Local places for `location`: itself when absolute, under the base
/// directory when there is one, then relative to the working directory.
pub open spec fn local_candidates(location: Seq<char>, base: Option<Seq<char>>) -> Seq<(Seq<char>, bool)> {
    (if location.len() > 0 && location[0] == '/' { seq![(location, true)] } else { Seq::empty() })
        + (match base { Some(b) => seq![(join_path(b, location), true)], None => Seq::empty() })
        + seq![(location, true)]
}

/// Places in one package root: none when its manifest did not open; else the
/// manifest entry of the reference (by id and version), as is, then the
/// location under the root.
pub open spec fn package_candidates(reference: ContractReference, location: Seq<char>, root: Seq<char>,
    layout: Option<PackageLayout>) -> Seq<(Seq<char>, bool)> {
    match layout {
        None => Seq::empty(),
        Some(l) => (match first_artifact(l.manifest.artifacts@, reference.id@, opt_text(reference.version),
            l.manifest.artifacts@.len() as int) {
            Some(k) => seq![(join_path(l.root@, l.manifest.artifacts@[k].path@), false)],
            None => Seq::empty(),
        }) + seq![(join_path(root, location), true)],
    }
}

/// Places in the first `n` package roots, in order.
pub open spec fn packages_candidates(reference: ContractReference, location: Seq<char>, roots: Seq<String>,
    layouts: Seq<Option<PackageLayout>>, n: int) -> Seq<(Seq<char>, bool)>
    decreases n,
{
    if n <= 0 {
        Seq::empty()
    } else {
        packages_candidates(reference, location, roots, layouts, n - 1)
            + package_candidates(reference, location, roots[n - 1]@, layouts[n - 1])
    }
}

/// Every place where the document of `reference` is looked for, in order;
/// none when its trimmed location is empty.
pub open spec fn reference_candidates(reference: ContractReference, options: ResolveOptions,
    layouts: Seq<Option<PackageLayout>>) -> Seq<(Seq<char>, bool)> {
    reference_candidates_in(reference, opt_text(options.base_dir), options.package_roots@, layouts)
}

/// The places where the document of `reference` is looked for, given the
/// base directory and the package roots.
pub open spec fn reference_candidates_in(reference: ContractReference, base: Option<Seq<char>>, roots: Seq<String>,
    layouts: Seq<Option<PackageLayout>>) -> Seq<(Seq<char>, bool)> {
    let location = trim(reference.location@);
    if location.len() == 0 {
        Seq::empty()
    } else {
        local_candidates(location, base) + packages_candidates(reference, location, roots, layouts, roots.len() as int)
    }
}

fn push_candidate(out: &mut Vec<LocateCandidate>, path: String, canonical: bool)
    ensures
        candidate_views(final(out)@) == candidate_views(old(out)@).push((path@, canonical)),
{
    out.push(LocateCandidate { path, canonical });
    assert(candidate_views(out@) =~= candidate_views(old(out)@).push((path@, canonical)));
}

/// The local places where a document at `location` is looked for: itself
/// when absolute, under `base_dir` when given, then relative to the working
/// directory.
pub fn local_path_candidates(location: &str, base_dir: Option<&str>) -> (r: Vec<LocateCandidate>)
    ensures
        candidate_views(r@) == local_candidates(location@, match base_dir { Some(b) => Some(b@), None => None }),
{
    let v = chars_of(location);
    let mut out: Vec<LocateCandidate> = Vec::new();
    if v.len() > 0 && v[0] == '/' {
        push_candidate(&mut out, String::from_str(location), true);
    }
    match base_dir {
        Some(b) => push_candidate(&mut out, join_path_exec(b, location), true),
        None => {},
    }
    push_candidate(&mut out, String::from_str(location), true);
    assert(candidate_views(out@) =~= local_candidates(location@, match base_dir { Some(b) => Some(b@), None => None }));
    out
}

fn package_root_candidates(out: &mut Vec<LocateCandidate>, reference: &ContractReference, location: &str,
    root: &str, layout: &Option<PackageLayout>)
    ensures
        candidate_views(final(out)@) == candidate_views(old(out)@)
            + package_candidates(*reference, location@, root@, *layout),
{
    match layout {
        None => {
            assert(candidate_views(out@) =~= candidate_views(old(out)@) + Seq::<(Seq<char>, bool)>::empty());
        },
        Some(l) => {
            let version = match &reference.version {
                Some(v) => Some(v.as_str()),
                None => None,
            };
            assert(opt_text(reference.version) == match version { Some(v) => Some(v@), None => None::<Seq<char>> });
            let ghost before = candidate_views(out@);
            match l.resolve_path(reference.id.as_str(), version) {
                Some(p) => push_candidate(out, p, false),
                None => {},
            }
            push_candidate(out, join_path_exec(root, location), true);
            assert(candidate_views(out@) =~= before + package_candidates(*reference, location@, root@, *layout));
        },
    }
}

/// Every place where the document of `reference` is looked for, in order:
/// the local places for its trimmed location, then for each package root
/// whose manifest opened (`layouts[i]` is what opening root `i` gave) the
/// manifest entry of the reference and the location under the root. An
/// empty location is looked for nowhere.
pub fn locate_candidates(reference: &ContractReference, options: &ResolveOptions,
    layouts: &Vec<Option<PackageLayout>>) -> (r: Vec<LocateCandidate>)
    requires
        layouts@.len() == options.package_roots@.len(),
    ensures
        candidate_views(r@) == reference_candidates(*reference, *options, layouts@),
{
    let trimmed = trim_chars(&chars_of(reference.location.as_str()));
    if trimmed.len() == 0 {
        let out: Vec<LocateCandidate> = Vec::new();
        assert(candidate_views(out@) =~= Seq::<(Seq<char>, bool)>::empty());
        return out;
    }
    let location = string_of(&trimmed);
    let base = match &options.base_dir {
        Some(b) => Some(b.as_str()),
        None => None,
    };
    assert(opt_text(options.base_dir) == match base { Some(b) => Some(b@), None => None::<Seq<char>> });
    let mut out = local_path_candidates(location.as_str(), base);
    let ghost local = candidate_views(out@);
    let mut i: usize = 0;
    while i < options.package_roots.len()
        invariant
            i <= options.package_roots@.len(),
            layouts@.len() == options.package_roots@.len(),
            location@ == trim(reference.location@),
            candidate_views(out@) == local + packages_candidates(*reference, location@, options.package_roots@,
                layouts@, i as int),
        decreases options.package_roots.len() - i,
    {
        let ghost before = candidate_views(out@);
        package_root_candidates(&mut out, reference, location.as_str(), options.package_roots[i].as_str(), &layouts[i]);
        assert(candidate_views(out@) =~= local + packages_candidates(*reference, location@, options.package_roots@,
            layouts@, i + 1));
        i += 1;
    }
    out
}

/// Index of the first `true` flag among the first `n`.
pub open spec fn first_present(present: Seq<bool>, n: int) -> Option<int>
    decreases n,
{
    if n <= 0 {
        None
    } else {
        match first_present(present, n - 1) {
            Some(k) => Some(k),
            None => if present[n - 1] { Some(n - 1) } else { None },
        }
    }
}

/// What locating a reference (at position `index`) gives, where `present[i]`
/// tells whether candidate `i` is a file: the first present candidate; and,
/// when none is and the reference must be present (a nested DPCS contract)
/// with a non-empty location, the unresolved-location finding.
pub fn locate_reference(reference: &ContractReference, index: usize, require_presence: bool, present: &[bool])
    -> (r: (Option<usize>, Option<Diagnostic>))
    ensures
        match first_present(present@, present@.len() as int) {
            Some(k) => r.0 == Some(k as usize),
            None => r.0 is None,
        },
        match r.1 {
            Some(d) => d@ == unresolved_view(*reference, index as int),
            None => true,
        },
        (r.1 is Some) == (first_present(present@, present@.len() as int) is None && require_presence
            && trim(reference.location@).len() > 0),
{
    let mut i: usize = 0;
    while i < present.len()
        invariant
            i <= present@.len(),
            first_present(present@, i as int) is None,
        decreases present.len() - i,
    {
        if present[i] {
            proof { lemma_first_present_stable(present@, i + 1, present@.len() as int); }
            return (Some(i), None);
        }
        i += 1;
    }
    if require_presence && trim_chars(&chars_of(reference.location.as_str())).len() > 0 {
        (None, Some(reference_unresolved(reference, index)))
    } else {
        (None, None)
    }
}

proof fn lemma_first_present_stable(present: Seq<bool>, m: int, n: int)
    requires
        0 <= m <= n,
        first_present(present, m) is Some,
    ensures
        first_present(present, n) == first_present(present, m),
    decreases n - m,
{
    if n > m {
        lemma_first_present_stable(present, m, n - 1);
    }
}

} // verus!
