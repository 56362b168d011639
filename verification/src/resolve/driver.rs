//! Resolution of a contract's references and nested pipelines against what
//! the caller has learnt of the file system.
//!
//! Resolution alternates decisions with outside work: probing paths, opening
//! package roots, reading, parsing and validating documents. The decisions
//! are made here, over a [`ResolveWorld`] that holds the answers known so
//! far. When an answer is missing, resolution stops with the question to
//! answer ([`WorldQuestion`]); the caller finds it out, adds it to the world
//! and resolves again. A loaded document is used up when a step takes it, so
//! a document needed twice is supplied twice.
use vstd::prelude::*;

use super::locate::{
    candidate_views, first_present, local_candidates, local_path_candidates, locate_candidates, locate_reference,
    reference_candidates_in,
};
use super::nesting::{
    check_nested_contract, nested_step_plan, reference_unloadable, registry_base_invalid, registry_base_invalid_view,
    registry_cache_failed, registry_cache_failed_view, unresolved_view, NestedSource, wants_nested, too_deep_view,
    last_reference, first_reference, nested_refusal, unloadable_view, lemma_last_reference_bound,
};
use super::{dpcs_reference_type, parent_of, path_parent, is_dpcs_reference_type, NestedPipeline, ResolutionResult, ResolveOptions, MAX_NESTING_DEPTH};
use crate::diagnostics::{clone_opt, clone_strings, opt_text, texts, DiagnosticView, ValidationReport};
use crate::diagnostics::report::no_errors;
use crate::model::contract::PipelineContract;
use crate::model::step::{ContractReference, PipelineStep};
use crate::package::PackageLayout;
use crate::text::{contains_char, str_eq, trim};

verus! {

/// What reading a document gave.
#[derive(Debug)]
pub enum LoadedDocument {
    /// The document parsed; `report` is its own validation report.
    Loaded {
        /// The parsed contract.
        contract: PipelineContract,
        /// Its validation report.
        report: ValidationReport,
    },
    /// The document could not be read or parsed.
    Failed(String),
}

/// What probing a path gave.
#[derive(Debug)]
pub struct PathProbe {
    /// The probed path.
    pub path: String,
    /// Whether it is a regular file.
    pub is_file: bool,
    /// Its canonical form (the path itself when it cannot be canonicalized).
    pub canonical: String,
}

/// What asking the registry for a reference's content gave.
#[derive(Debug)]
pub enum FetchOutcome {
    /// No client could be made for the base URL (the error text).
    InvalidBase(String),
    /// The content was fetched and stored in a new file at this path.
    Stored(String),
    /// The content was fetched but could not be stored (the error text).
    NotStored(String),
    /// The registry did not give the content.
    Unavailable,
}

/// A registry fetch for a reference, by id and version.
#[derive(Debug)]
pub struct RegistryFetch {
    /// Reference id.
    pub id: String,
    /// Reference version.
    pub version: Option<String>,
    /// What the fetch gave.
    pub outcome: FetchOutcome,
}

/// The answers known so far.
#[derive(Debug)]
pub struct ResolveWorld {
    /// What opening each package root of the options gave, in order.
    pub layouts: Vec<Option<PackageLayout>>,
    /// Probed paths.
    pub probes: Vec<PathProbe>,
    /// Loaded documents by path, each usable once.
    pub documents: Vec<(String, LoadedDocument)>,
    /// Registry fetches.
    pub fetches: Vec<RegistryFetch>,
}

/// An answer resolution needs.
#[derive(Debug, PartialEq, Eq)]
pub enum WorldQuestion {
    /// Is this path a file, and what is its canonical form?
    Probe(String),
    /// Read, parse and validate the document at this path.
    Load(String),
    /// Fetch the content of this reference (id and version) from the
    /// registry of the options and store it in a new file.
    Fetch {
        /// Reference id.
        id: String,
        /// Reference version.
        version: Option<String>,
    },
}

/// A question, as plain values.
pub enum QuestionView {
    /// Probe this path.
    Probe(Seq<char>),
    /// Load the document at this path.
    Load(Seq<char>),
    /// Fetch this reference (id, version) from the registry.
    Fetch(Seq<char>, Option<Seq<char>>),
}

impl View for WorldQuestion {
    type V = QuestionView;

    open spec fn view(&self) -> QuestionView {
        match self {
            WorldQuestion::Probe(p) => QuestionView::Probe(p@),
            WorldQuestion::Load(p) => QuestionView::Load(p@),
            WorldQuestion::Fetch { id, version } => QuestionView::Fetch(id@, opt_text(*version)),
        }
    }
}

/// A lookup's answer (a path, nothing, or a question), as plain values.
pub open spec fn answer_of(r: Result<Option<String>, WorldQuestion>) -> Result<Option<Seq<char>>, QuestionView> {
    match r {
        Ok(Some(p)) => Ok(Some(p@)),
        Ok(None) => Ok(None),
        Err(q) => Err(q@),
    }
}

/// The parts of a world that resolution only reads: the package layouts,
/// the probes and the registry fetches.
pub open spec fn facts(w: ResolveWorld) -> (Seq<Option<PackageLayout>>, Seq<PathProbe>, Seq<RegistryFetch>) {
    (w.layouts@, w.probes@, w.fetches@)
}

/// Resolve options as plain values: base directory, package roots, and
/// whether a registry is set.
pub struct OptionsView {
    /// Base directory.
    pub base: Option<Seq<char>>,
    /// Package roots.
    pub roots: Seq<String>,
    /// Whether a registry base URL is set.
    pub registry: bool,
}

/// The plain-value form of `o`.
pub open spec fn options_view(o: ResolveOptions) -> OptionsView {
    OptionsView { base: opt_text(o.base_dir), roots: o.package_roots@, registry: o.registry_base_url is Some }
}

/// The first probe of `path` among `probes`.
pub open spec fn probe_of(probes: Seq<PathProbe>, path: Seq<char>, n: int) -> Option<int>
    decreases n,
{
    if n <= 0 {
        None
    } else {
        match probe_of(probes, path, n - 1) {
            Some(k) => Some(k),
            None => if probes[n - 1].path@ == path { Some(n - 1) } else { None },
        }
    }
}

proof fn lemma_probe_of_stable(probes: Seq<PathProbe>, path: Seq<char>, m: int, n: int)
    requires
        0 <= m <= n,
        probe_of(probes, path, m) is Some,
    ensures
        probe_of(probes, path, n) == probe_of(probes, path, m),
    decreases n - m,
{
    if n > m {
        lemma_probe_of_stable(probes, path, m, n - 1);
    }
}

/// Whether `path` is a file, with its canonical form, as the world knows it.
fn probe(world: &ResolveWorld, path: &str) -> (r: Result<Option<String>, WorldQuestion>)
    ensures
        match probe_of(world.probes@, path@, world.probes@.len() as int) {
            None => r matches Err(WorldQuestion::Probe(p)) && p@ == path@,
            Some(k) => if world.probes@[k].is_file {
                r matches Ok(Some(c)) && c@ == world.probes@[k].canonical@
            } else {
                r == Ok::<Option<String>, WorldQuestion>(None)
            },
        },
{
    let mut i: usize = 0;
    while i < world.probes.len()
        invariant
            i <= world.probes@.len(),
            probe_of(world.probes@, path@, i as int) is None,
        decreases world.probes.len() - i,
    {
        if str_eq(world.probes[i].path.as_str(), path) {
            proof { lemma_probe_of_stable(world.probes@, path@, i + 1, world.probes@.len() as int); }
            if world.probes[i].is_file {
                return Ok(Some(world.probes[i].canonical.clone()));
            }
            return Ok(None);
        }
        i += 1;
    }
    Err(WorldQuestion::Probe(String::from_str(path)))
}

/// What probing `cands` in order finds: the first that is a file (its
/// canonical form when the candidate asks for it, else its path), nothing
/// when none is, or the first path whose probe is not known (`Err`).
pub open spec fn search(cands: Seq<(Seq<char>, bool)>, probes: Seq<PathProbe>) -> Result<Option<Seq<char>>, Seq<char>>
    decreases cands.len(),
{
    if cands.len() == 0 {
        Ok(None)
    } else {
        match probe_of(probes, cands[0].0, probes.len() as int) {
            None => Err(cands[0].0),
            Some(k) => if probes[k].is_file {
                Ok(Some(if cands[0].1 { probes[k].canonical@ } else { cands[0].0 }))
            } else {
                search(cands.drop_first(), probes)
            },
        }
    }
}

/// A search's outcome as an answer.
pub open spec fn search_answer(s: Result<Option<Seq<char>>, Seq<char>>) -> Result<Option<Seq<char>>, QuestionView> {
    match s {
        Ok(x) => Ok(x),
        Err(p) => Err(QuestionView::Probe(p)),
    }
}

proof fn lemma_search_step(cands: Seq<(Seq<char>, bool)>, probes: Seq<PathProbe>, i: int)
    requires
        0 <= i < cands.len(),
    ensures
        cands.skip(i).len() > 0,
        cands.skip(i)[0] == cands[i],
        cands.skip(i).drop_first() == cands.skip(i + 1),
{
    assert(cands.skip(i).drop_first() =~= cands.skip(i + 1));
}

/// The first fetch of reference `id` at `version` among the first `n`.
pub open spec fn first_fetch(fetches: Seq<RegistryFetch>, id: Seq<char>, version: Option<Seq<char>>, n: int) -> Option<int>
    decreases n,
{
    if n <= 0 {
        None
    } else {
        match first_fetch(fetches, id, version, n - 1) {
            Some(k) => Some(k),
            None => if fetches[n - 1].id@ == id && opt_text(fetches[n - 1].version) == version { Some(n - 1) } else { None },
        }
    }
}

proof fn lemma_first_fetch_stable(fetches: Seq<RegistryFetch>, id: Seq<char>, version: Option<Seq<char>>, m: int, n: int)
    requires
        0 <= m <= n,
        first_fetch(fetches, id, version, m) is Some,
    ensures
        first_fetch(fetches, id, version, n) == first_fetch(fetches, id, version, m),
    decreases n - m,
{
    if n > m {
        lemma_first_fetch_stable(fetches, id, version, m, n - 1);
    }
}

/// Recorded locations as plain values.
pub open spec fn loc_views(locs: Seq<(String, String)>) -> Seq<(Seq<char>, Seq<char>)> {
    locs.map_values(|e: (String, String)| (e.0@, e.1@))
}

/// The first recorded location among the first `n` with key `id`.
pub open spec fn first_key(locs: Seq<(Seq<char>, Seq<char>)>, id: Seq<char>, n: int) -> Option<int>
    decreases n,
{
    if n <= 0 {
        None
    } else {
        match first_key(locs, id, n - 1) {
            Some(k) => Some(k),
            None => if locs[n - 1].0 == id { Some(n - 1) } else { None },
        }
    }
}

proof fn lemma_first_key_stable(locs: Seq<(Seq<char>, Seq<char>)>, id: Seq<char>, m: int, n: int)
    requires
        0 <= m <= n,
        first_key(locs, id, m) is Some,
    ensures
        first_key(locs, id, n) == first_key(locs, id, m),
    decreases n - m,
{
    if n > m {
        lemma_first_key_stable(locs, id, m, n - 1);
    }
}

/// The location recorded for `id`.
pub open spec fn recorded(locs: Seq<(Seq<char>, Seq<char>)>, id: Seq<char>) -> Option<Seq<char>> {
    match first_key(locs, id, locs.len() as int) {
        Some(k) => Some(locs[k].1),
        None => None,
    }
}

/// `locs` with `path` recorded for `id`, in place of an earlier record.
pub open spec fn record(locs: Seq<(Seq<char>, Seq<char>)>, id: Seq<char>, path: Seq<char>) -> Seq<(Seq<char>, Seq<char>)> {
    match first_key(locs, id, locs.len() as int) {
        Some(k) => locs.update(k, (id, path)),
        None => locs.push((id, path)),
    }
}

/// What locating `reference` (at position `index`) gives with the facts
/// `f`, and the findings it reports: the first candidate that is a file;
/// else, with a registry, its stored fetch (a fetch failing for want of a
/// client or of storage is reported); else nothing, with the
/// unresolved-location finding when the reference must be present.
pub open spec fn locate_spec(f: (Seq<Option<PackageLayout>>, Seq<PathProbe>, Seq<RegistryFetch>), reference: ContractReference,
    ov: OptionsView, index: int, require: bool) -> (Result<Option<Seq<char>>, QuestionView>, Seq<DiagnosticView>) {
    let unresolved = if require && trim(reference.location@).len() > 0 {
        seq![unresolved_view(reference, index)]
    } else {
        Seq::empty()
    };
    match search(reference_candidates_in(reference, ov.base, ov.roots, f.0), f.1) {
        Err(p) => (Err(QuestionView::Probe(p)), Seq::empty()),
        Ok(Some(p)) => (Ok(Some(p)), Seq::empty()),
        Ok(None) => if !ov.registry {
            (Ok(None), unresolved)
        } else {
            match first_fetch(f.2, reference.id@, opt_text(reference.version), f.2.len() as int) {
                None => (Err(QuestionView::Fetch(reference.id@, opt_text(reference.version))), Seq::empty()),
                Some(k) => match f.2[k].outcome {
                    FetchOutcome::Stored(p) => (Ok(Some(p@)), Seq::empty()),
                    FetchOutcome::InvalidBase(m) => (Ok(None), seq![registry_base_invalid_view(reference, m@, index)] + unresolved),
                    FetchOutcome::NotStored(m) => (Ok(None), seq![registry_cache_failed_view(reference, m@, index)] + unresolved),
                    FetchOutcome::Unavailable => (Ok(None), unresolved),
                },
            }
        },
    }
}

proof fn lemma_none_present(present: Seq<bool>, n: int)
    requires
        0 <= n <= present.len(),
        forall|j: int| 0 <= j < n ==> !present[j],
    ensures
        first_present(present, n) is None,
    decreases n,
{
    if n > 0 {
        lemma_none_present(present, n - 1);
    }
}

/// The first document loaded from `path` among `docs`.
pub open spec fn document_of(docs: Seq<(String, LoadedDocument)>, path: Seq<char>, n: int) -> Option<int>
    decreases n,
{
    if n <= 0 {
        None
    } else {
        match document_of(docs, path, n - 1) {
            Some(k) => Some(k),
            None => if docs[n - 1].0@ == path { Some(n - 1) } else { None },
        }
    }
}

proof fn lemma_document_of_stable(docs: Seq<(String, LoadedDocument)>, path: Seq<char>, m: int, n: int)
    requires
        0 <= m <= n,
        document_of(docs, path, m) is Some,
    ensures
        document_of(docs, path, n) == document_of(docs, path, m),
    decreases n - m,
{
    if n > m {
        lemma_document_of_stable(docs, path, m, n - 1);
    }
}

proof fn lemma_document_of_bounds(docs: Seq<(String, LoadedDocument)>, path: Seq<char>, n: int)
    requires
        n <= docs.len(),
        document_of(docs, path, n) is Some,
    ensures
        0 <= document_of(docs, path, n)->0 < n,
        docs[document_of(docs, path, n)->0].0@ == path,
    decreases n,
{
    if n > 0 && document_of(docs, path, n - 1) is Some {
        lemma_document_of_bounds(docs, path, n - 1);
    }
}

/// Take the first document loaded from `path` out of the world.
fn take_document(world: &mut ResolveWorld, path: &str) -> (r: Result<LoadedDocument, WorldQuestion>)
    ensures
        final(world).layouts == old(world).layouts,
        final(world).probes == old(world).probes,
        final(world).fetches == old(world).fetches,
        match document_of(old(world).documents@, path@, old(world).documents@.len() as int) {
            None => r matches Err(WorldQuestion::Load(p)) && p@ == path@ && final(world).documents == old(world).documents,
            Some(k) => r == Ok::<LoadedDocument, WorldQuestion>(old(world).documents@[k].1)
                && final(world).documents@ == old(world).documents@.remove(k),
        },
{
    let mut i: usize = 0;
    while i < world.documents.len()
        invariant
            i <= world.documents@.len(),
            world == old(world),
            document_of(world.documents@, path@, i as int) is None,
        decreases world.documents.len() - i,
    {
        if str_eq(world.documents[i].0.as_str(), path) {
            proof { lemma_document_of_stable(world.documents@, path@, i + 1, world.documents@.len() as int); }
            let (_, doc) = world.documents.remove(i);
            return Ok(doc);
        }
        i += 1;
    }
    Err(WorldQuestion::Load(String::from_str(path)))
}

/// The registry fetch recorded for `reference`.
fn fetch_of<'a>(world: &'a ResolveWorld, reference: &ContractReference) -> (r: Option<&'a FetchOutcome>)
    ensures
        match first_fetch(world.fetches@, reference.id@, opt_text(reference.version), world.fetches@.len() as int) {
            Some(k) => r == Some(&world.fetches@[k].outcome),
            None => r is None,
        },
{
    let mut i: usize = 0;
    while i < world.fetches.len()
        invariant
            i <= world.fetches@.len(),
            first_fetch(world.fetches@, reference.id@, opt_text(reference.version), i as int) is None,
        decreases world.fetches.len() - i,
    {
        let f = &world.fetches[i];
        let same_version = match (&f.version, &reference.version) {
            (Some(a), Some(b)) => str_eq(a.as_str(), b.as_str()),
            (None, None) => true,
            _ => false,
        };
        assert(same_version == (opt_text(f.version) == opt_text(reference.version)));
        if str_eq(f.id.as_str(), reference.id.as_str()) && same_version {
            proof {
                lemma_first_fetch_stable(world.fetches@, reference.id@, opt_text(reference.version), i + 1,
                    world.fetches@.len() as int);
            }
            return Some(&f.outcome);
        }
        i += 1;
    }
    None
}

/// Find the document of `reference` (at position `index`): the first of its
/// candidates that is a file, in canonical form when the candidate asks for
/// it; else, when a registry is set, the file its fetched content was stored
/// in (a fetch that fails for want of a client or of storage is reported).
/// When none is found and the reference must be present, the
/// unresolved-location finding is reported.
fn locate(world: &ResolveWorld, reference: &ContractReference, options: &ResolveOptions, index: usize,
    require_presence: bool, report: &mut ValidationReport) -> (r: Result<Option<String>, WorldQuestion>)
    requires
        world.layouts@.len() == options.package_roots@.len(),
    ensures
        answer_of(r) == locate_spec(facts(*world), *reference, options_view(*options), index as int, require_presence).0,
        r is Ok ==> final(report)@ == old(report)@
            + locate_spec(facts(*world), *reference, options_view(*options), index as int, require_presence).1,
{
    let candidates = locate_candidates(reference, options, &world.layouts);
    let ghost cands = candidate_views(candidates@);
    assert(cands.skip(0) =~= cands);
    let mut present: Vec<bool> = Vec::new();
    let mut i: usize = 0;
    while i < candidates.len()
        invariant
            i <= candidates@.len(),
            present@.len() == i,
            forall|j: int| 0 <= j < i ==> !present@[j],
            cands == candidate_views(candidates@),
            cands == reference_candidates_in(*reference, opt_text(options.base_dir), options.package_roots@, world.layouts@),
            search(cands, world.probes@) == search(cands.skip(i as int), world.probes@),
            report == old(report),
        decreases candidates.len() - i,
    {
        proof { lemma_search_step(cands, world.probes@, i as int); }
        let c = &candidates[i];
        assert(cands[i as int] == (c.path@, c.canonical));
        match probe(world, c.path.as_str()) {
            Err(q) => return Err(q),
            Ok(Some(canonical)) => {
                if c.canonical {
                    return Ok(Some(canonical));
                }
                return Ok(Some(c.path.clone()));
            },
            Ok(None) => present.push(false),
        }
        i += 1;
    }
    assert(cands.skip(i as int) =~= Seq::<(Seq<char>, bool)>::empty());
    proof { lemma_none_present(present@, present@.len() as int); }
    match &options.registry_base_url {
        None => {},
        Some(_) => match fetch_of(world, reference) {
            None => return Err(WorldQuestion::Fetch { id: reference.id.clone(), version: clone_opt(&reference.version) }),
            Some(FetchOutcome::Stored(p)) => return Ok(Some(p.clone())),
            Some(FetchOutcome::InvalidBase(m)) => report.push(registry_base_invalid(reference, m.as_str(), index)),
            Some(FetchOutcome::NotStored(m)) => report.push(registry_cache_failed(reference, m.as_str(), index)),
            Some(FetchOutcome::Unavailable) => {},
        },
    }
    let (_, finding) = locate_reference(reference, index, require_presence, present.as_slice());
    match finding {
        Some(d) => report.push(d),
        None => {},
    }
    Ok(None)
}

/// The first local place for `location` that is a file, in canonical form.
fn locate_local(world: &ResolveWorld, location: &str, base_dir: &Option<String>) -> (r: Result<Option<String>, WorldQuestion>)
    ensures
        answer_of(r) == search_answer(search(local_candidates(location@, opt_text(*base_dir)), world.probes@)),
{
    let base = match base_dir {
        Some(b) => Some(b.as_str()),
        None => None,
    };
    assert(opt_text(*base_dir) == match base { Some(b) => Some(b@), None => None::<Seq<char>> });
    let candidates = local_path_candidates(location, base);
    let ghost cands = candidate_views(candidates@);
    assert(cands.skip(0) =~= cands);
    let mut i: usize = 0;
    while i < candidates.len()
        invariant
            i <= candidates@.len(),
            cands == candidate_views(candidates@),
            cands == local_candidates(location@, opt_text(*base_dir)),
            forall|j: int| 0 <= j < cands.len() ==> (#[trigger] cands[j]).1,
            search(cands, world.probes@) == search(cands.skip(i as int), world.probes@),
        decreases candidates.len() - i,
    {
        proof { lemma_search_step(cands, world.probes@, i as int); }
        assert(cands[i as int] == (candidates@[i as int].path@, candidates@[i as int].canonical));
        match probe(world, candidates[i].path.as_str()) {
            Err(q) => return Err(q),
            Ok(Some(canonical)) => return Ok(Some(canonical)),
            Ok(None) => {},
        }
        i += 1;
    }
    assert(cands.skip(i as int) =~= Seq::<(Seq<char>, bool)>::empty());
    Ok(None)
}

/// The location recorded for reference `id`.
fn location_of(locations: &Vec<(String, String)>, id: &str) -> (r: Option<String>)
    ensures
        match r {
            Some(p) => recorded(loc_views(locations@), id@) == Some(p@),
            None => recorded(loc_views(locations@), id@) is None,
        },
{
    let ghost lv = loc_views(locations@);
    let mut i: usize = 0;
    while i < locations.len()
        invariant
            i <= locations@.len(),
            lv == loc_views(locations@),
            first_key(lv, id@, i as int) is None,
        decreases locations.len() - i,
    {
        assert(lv[i as int] == (locations@[i as int].0@, locations@[i as int].1@));
        if str_eq(locations[i].0.as_str(), id) {
            proof { lemma_first_key_stable(lv, id@, i + 1, lv.len() as int); }
            return Some(locations[i].1.clone());
        }
        i += 1;
    }
    None
}

/// Record `path` for reference `id`, replacing an earlier record.
fn record_location(locations: &mut Vec<(String, String)>, id: String, path: String)
    ensures
        loc_views(final(locations)@) == record(loc_views(old(locations)@), id@, path@),
{
    let ghost lv = loc_views(locations@);
    let mut i: usize = 0;
    while i < locations.len()
        invariant
            i <= locations@.len(),
            locations == old(locations),
            lv == loc_views(locations@),
            first_key(lv, id@, i as int) is None,
        decreases locations.len() - i,
    {
        assert(lv[i as int] == (locations@[i as int].0@, locations@[i as int].1@));
        if str_eq(locations[i].0.as_str(), id.as_str()) {
            proof { lemma_first_key_stable(lv, id@, i + 1, lv.len() as int); }
            let ghost (iv, pv) = (id@, path@);
            locations.set(i, (id, path));
            assert(loc_views(locations@) =~= lv.update(i as int, (iv, pv)));
            return;
        }
        i += 1;
    }
    let ghost (iv, pv) = (id@, path@);
    locations.push((id, path));
    assert(loc_views(locations@) =~= lv.push((iv, pv)));
}

/// A nested pipeline found under `ancestors` at nesting `depth`: its contract
/// has a stable identity, is none of its ancestors, and sits within the depth
/// limit.
pub open spec fn node_ok(n: NestedPipeline, ancestors: Seq<Seq<char>>, depth: int) -> bool {
    &&& trim(n.contract.id@).len() > 0
    &&& !ancestors.contains(n.contract.id@)
    &&& depth < MAX_NESTING_DEPTH
}

/// Every nested pipeline of the forest `ns`, found under `ancestors` at
/// nesting `depth`, and every one below it, is well placed: no identity is
/// blank or repeats one of its ancestors, and no pipeline is nested deeper
/// than the limit.
pub open spec fn well_nested(ns: Seq<NestedPipeline>, ancestors: Seq<Seq<char>>, depth: int) -> bool
    decreases ns,
{
    if ns.len() == 0 {
        true
    } else {
        let last = ns[ns.len() - 1];
        proof {
            assert(decreases_to!(ns => ns[ns.len() - 1]));
            assert(decreases_to!(ns[ns.len() - 1] => ns[ns.len() - 1].children));
            assert(decreases_to!(ns[ns.len() - 1].children => ns[ns.len() - 1].children@));
        }
        &&& well_nested(ns.drop_last(), ancestors, depth)
        &&& node_ok(last, ancestors, depth)
        &&& well_nested(last.children@, ancestors.push(last.contract.id@), depth + 1)
    }
}

/// `d` holds `contract`, validated without errors.
pub open spec fn holds_valid(d: LoadedDocument, contract: PipelineContract) -> bool {
    match d {
        LoadedDocument::Loaded { contract: c, report } => c == contract && no_errors(report@),
        LoadedDocument::Failed(_) => false,
    }
}

/// `contract` was loaded from one of `docs` and validated without errors.
pub open spec fn validated_in(contract: PipelineContract, docs: Seq<(String, LoadedDocument)>) -> bool {
    exists|k: int| 0 <= k < docs.len() && holds_valid((#[trigger] docs[k]).1, contract)
}

/// Every contract of the forest `ns`, children included, was loaded from one
/// of `docs` and validated without errors.
pub open spec fn all_validated(ns: Seq<NestedPipeline>, docs: Seq<(String, LoadedDocument)>) -> bool
    decreases ns,
{
    if ns.len() == 0 {
        true
    } else {
        let last = ns[ns.len() - 1];
        proof {
            assert(decreases_to!(ns => ns[ns.len() - 1]));
            assert(decreases_to!(ns[ns.len() - 1] => ns[ns.len() - 1].children));
            assert(decreases_to!(ns[ns.len() - 1].children => ns[ns.len() - 1].children@));
        }
        &&& all_validated(ns.drop_last(), docs)
        &&& validated_in(last.contract, docs)
        &&& all_validated(last.children@, docs)
    }
}

/// Every document of `a` is one of `b`.
pub open spec fn docs_within(a: Seq<(String, LoadedDocument)>, b: Seq<(String, LoadedDocument)>) -> bool {
    forall|x: (String, LoadedDocument)| a.contains(x) ==> b.contains(x)
}

proof fn lemma_validated_widen(ns: Seq<NestedPipeline>, a: Seq<(String, LoadedDocument)>, b: Seq<(String, LoadedDocument)>)
    requires
        all_validated(ns, a),
        docs_within(a, b),
    ensures
        all_validated(ns, b),
    decreases ns,
{
    if ns.len() > 0 {
        let last = ns[ns.len() - 1];
        assert(decreases_to!(ns => ns[ns.len() - 1]));
        assert(decreases_to!(ns[ns.len() - 1] => ns[ns.len() - 1].children));
        assert(decreases_to!(ns[ns.len() - 1].children => ns[ns.len() - 1].children@));
        lemma_validated_widen(ns.drop_last(), a, b);
        lemma_validated_widen(last.children@, a, b);
        let k = choose|k: int| 0 <= k < a.len() && holds_valid((#[trigger] a[k]).1, last.contract);
        assert(a.contains(a[k]));
        let j = choose|j: int| 0 <= j < b.len() && b[j] == a[k];
        assert(b[j] == a[k]);
    }
}

proof fn lemma_validated_in_widen(c: PipelineContract, a: Seq<(String, LoadedDocument)>, b: Seq<(String, LoadedDocument)>)
    requires
        validated_in(c, a),
        docs_within(a, b),
    ensures
        validated_in(c, b),
{
    let k = choose|k: int| 0 <= k < a.len() && holds_valid((#[trigger] a[k]).1, c);
    assert(a.contains(a[k]));
    let j = choose|j: int| 0 <= j < b.len() && b[j] == a[k];
    assert(b[j] == a[k]);
}

proof fn lemma_remove_within(s: Seq<(String, LoadedDocument)>, k: int)
    requires
        0 <= k < s.len(),
    ensures
        docs_within(s.remove(k), s),
{
    assert forall|x: (String, LoadedDocument)| s.remove(k).contains(x) implies s.contains(x) by {
        let i = choose|i: int| 0 <= i < s.remove(k).len() && s.remove(k)[i] == x;
        if i < k {
            assert(s[i] == x);
        } else {
            assert(s[i + 1] == x);
        }
    }
}

/// The facts a world holds, as plain values.
pub type Facts = (Seq<Option<PackageLayout>>, Seq<PathProbe>, Seq<RegistryFetch>);

/// A nested pipeline as plain values.
pub struct NestedView {
    /// Parent step identifier.
    pub parent_step_id: Seq<char>,
    /// The step's contract reference.
    pub contract_ref: Seq<char>,
    /// The nested contract.
    pub contract: PipelineContract,
    /// Its own nested pipelines.
    pub children: Seq<NestedView>,
}

/// A forest of nested pipelines as plain values.
pub open spec fn nested_views(ns: Seq<NestedPipeline>) -> Seq<NestedView>
    decreases ns,
{
    if ns.len() == 0 {
        Seq::empty()
    } else {
        let last = ns[ns.len() - 1];
        proof {
            assert(decreases_to!(ns => ns[ns.len() - 1]));
            assert(decreases_to!(ns[ns.len() - 1] => ns[ns.len() - 1].children));
            assert(decreases_to!(ns[ns.len() - 1].children => ns[ns.len() - 1].children@));
        }
        nested_views(ns.drop_last()).push(NestedView {
            parent_step_id: last.parent_step_id@,
            contract_ref: last.contract_ref@,
            contract: last.contract,
            children: nested_views(last.children@),
        })
    }
}

/// A nested pipeline as plain values.
pub open spec fn nested_view(n: NestedPipeline) -> NestedView {
    NestedView {
        parent_step_id: n.parent_step_id@,
        contract_ref: n.contract_ref@,
        contract: n.contract,
        children: nested_views(n.children@),
    }
}

/// The contract a document holds, or why it holds none.
pub open spec fn loaded_of(d: LoadedDocument) -> Result<PipelineContract, String> {
    match d {
        LoadedDocument::Loaded { contract, .. } => Ok(contract),
        LoadedDocument::Failed(m) => Err(m),
    }
}

/// The validation findings a document came with.
pub open spec fn report_of(d: LoadedDocument) -> Seq<DiagnosticView> {
    match d {
        LoadedDocument::Loaded { report, .. } => report@,
        LoadedDocument::Failed(_) => Seq::empty(),
    }
}

/// Options for a contract nested in the document at `path`: based at its
/// parent, with the same package roots and registry.
pub open spec fn child_view(ov: OptionsView, path: Seq<char>) -> OptionsView {
    OptionsView { base: path_parent(path), roots: ov.roots, registry: ov.registry }
}

/// Locating the references of `contract` from position `i` on, with the
/// documents `docs` left, the findings `rep` so far and the locations
/// `locs` recorded: each reference is located and its location recorded; a
/// nested DPCS reference must also load (a document is used up), or an
/// unloadable finding is reported. Ends with the documents left, the
/// findings and the locations, or the first question that cannot be
/// answered.
pub open spec fn refs_spec(f: Facts, contract: PipelineContract, ov: OptionsView, i: int,
    docs: Seq<(String, LoadedDocument)>, rep: Seq<DiagnosticView>, locs: Seq<(Seq<char>, Seq<char>)>)
    -> Result<(Seq<(String, LoadedDocument)>, Seq<DiagnosticView>, Seq<(Seq<char>, Seq<char>)>), QuestionView>
    decreases contract.contract_references@.len() - i,
{
    if 0 <= i < contract.contract_references@.len() {
        let reference = contract.contract_references@[i];
        let require = dpcs_reference_type(reference.reference_type@);
        let (a, found) = locate_spec(f, reference, ov, i, require);
        match a {
            Err(q) => Err(q),
            Ok(None) => refs_spec(f, contract, ov, i + 1, docs, rep + found, locs),
            Ok(Some(p)) => {
                let locs2 = record(locs, reference.id@, p);
                if !require {
                    refs_spec(f, contract, ov, i + 1, docs, rep + found, locs2)
                } else {
                    match document_of(docs, p, docs.len() as int) {
                        None => Err(QuestionView::Load(p)),
                        Some(k) => refs_spec(f, contract, ov, i + 1, docs.remove(k), rep + found + match docs[k].1 {
                            LoadedDocument::Failed(m) => seq![unloadable_view(reference, p, m@, i)],
                            LoadedDocument::Loaded { .. } => Seq::empty(),
                        }, locs2),
                    }
                }
            },
        }
    } else {
        Ok((docs, rep, locs))
    }
}

/// Resolving the nested pipeline of `step` of `parent`: none when the step
/// names none; refused with a finding beyond the depth limit; else its
/// document is found (from the recorded location, by its reference, or as a
/// local path), loaded (used up), judged, and its own references and nested
/// pipelines resolved. Ends with the documents left, the findings and the
/// nested pipeline if any, or the first question that cannot be answered.
pub open spec fn step_spec(f: Facts, parent: PipelineContract, step: PipelineStep, ov: OptionsView,
    locs: Seq<(Seq<char>, Seq<char>)>, docs: Seq<(String, LoadedDocument)>, rep: Seq<DiagnosticView>,
    anc: Seq<Seq<char>>, depth: int)
    -> Result<(Seq<(String, LoadedDocument)>, Seq<DiagnosticView>, Option<NestedView>), QuestionView>
    decreases MAX_NESTING_DEPTH - depth, 0int, 0int,
{
    match step.contract_ref {
        None => Ok((docs, rep, None)),
        Some(cr) => if !wants_nested(parent, step) {
            Ok((docs, rep, None))
        } else if depth >= MAX_NESTING_DEPTH {
            Ok((docs, rep.push(too_deep_view(step.id@)), None))
        } else {
            let refs = parent.contract_references@;
            let found: (Result<Option<Seq<char>>, QuestionView>, Seq<DiagnosticView>) = match recorded(locs, cr@) {
                Some(p) => (Ok(Some(p)), Seq::empty()),
                None => match last_reference(refs, cr@, refs.len() as int) {
                    Some(k) => locate_spec(f, refs[k], ov, first_reference(refs, cr@, refs.len() as int)->0, true),
                    None => if contains_char(cr@, '/') {
                        (search_answer(search(local_candidates(cr@, ov.base), f.1)), Seq::empty())
                    } else {
                        (Ok(None), Seq::empty())
                    },
                },
            };
            match found.0 {
                Err(q) => Err(q),
                Ok(None) => Ok((docs, rep + found.1, None)),
                Ok(Some(p)) => match document_of(docs, p, docs.len() as int) {
                    None => Err(QuestionView::Load(p)),
                    Some(k) => {
                        let doc = docs[k].1;
                        let rest = docs.remove(k);
                        match nested_refusal(step.id@, p, loaded_of(doc), anc, report_of(doc)) {
                            Some(ds) => Ok((rest, rep + found.1 + ds, None)),
                            None => match doc {
                                LoadedDocument::Loaded { contract: c, .. } => match level_spec(f, c, child_view(ov, p), rest,
                                    rep + found.1, anc.push(c.id@), depth + 1) {
                                    Err(q) => Err(q),
                                    Ok((d2, r2, _l, ns)) => Ok((d2, r2, Some(NestedView {
                                        parent_step_id: step.id@,
                                        contract_ref: cr@,
                                        contract: c,
                                        children: ns,
                                    }))),
                                },
                                LoadedDocument::Failed(_) => Ok((rest, rep + found.1, None)),
                            },
                        }
                    },
                },
            }
        },
    }
}

/// Resolving the nested pipelines of the steps of `contract` from position
/// `j` on, in order.
pub open spec fn steps_spec(f: Facts, contract: PipelineContract, ov: OptionsView, locs: Seq<(Seq<char>, Seq<char>)>,
    j: int, docs: Seq<(String, LoadedDocument)>, rep: Seq<DiagnosticView>, anc: Seq<Seq<char>>, depth: int)
    -> Result<(Seq<(String, LoadedDocument)>, Seq<DiagnosticView>, Seq<NestedView>), QuestionView>
    decreases MAX_NESTING_DEPTH - depth, 1int, contract.steps@.len() - j,
{
    if 0 <= j < contract.steps@.len() {
        match step_spec(f, contract, contract.steps@[j], ov, locs, docs, rep, anc, depth) {
            Err(q) => Err(q),
            Ok((d, r, o)) => match steps_spec(f, contract, ov, locs, j + 1, d, r, anc, depth) {
                Err(q) => Err(q),
                Ok((d2, r2, ns)) => Ok((d2, r2, match o {
                    Some(n) => seq![n] + ns,
                    None => ns,
                })),
            },
        }
    } else {
        Ok((docs, rep, Seq::empty()))
    }
}

/// Resolving the references, then the nested pipelines, of `contract`
/// nested `depth` deep under the identities `anc`. Ends with the documents
/// left, the findings, the recorded locations and the nested pipelines, or
/// the first question that cannot be answered.
pub open spec fn level_spec(f: Facts, contract: PipelineContract, ov: OptionsView, docs: Seq<(String, LoadedDocument)>,
    rep: Seq<DiagnosticView>, anc: Seq<Seq<char>>, depth: int)
    -> Result<(Seq<(String, LoadedDocument)>, Seq<DiagnosticView>, Seq<(Seq<char>, Seq<char>)>, Seq<NestedView>), QuestionView>
    decreases MAX_NESTING_DEPTH - depth, 2int, 0int,
{
    match refs_spec(f, contract, ov, 0, docs, rep, Seq::empty()) {
        Err(q) => Err(q),
        Ok((d, r, locs)) => match steps_spec(f, contract, ov, locs, 0, d, r, anc, depth) {
            Err(q) => Err(q),
            Ok((d2, r2, ns)) => Ok((d2, r2, locs, ns)),
        },
    }
}

proof fn lemma_steps_unfold(f: Facts, contract: PipelineContract, ov: OptionsView, locs: Seq<(Seq<char>, Seq<char>)>,
    j: int, docs: Seq<(String, LoadedDocument)>, rep: Seq<DiagnosticView>, anc: Seq<Seq<char>>, depth: int)
    requires
        0 <= j < contract.steps@.len(),
    ensures
        steps_spec(f, contract, ov, locs, j, docs, rep, anc, depth) == match step_spec(f, contract, contract.steps@[j], ov,
            locs, docs, rep, anc, depth) {
            Err(q) => Err(q),
            Ok((d, r, o)) => match steps_spec(f, contract, ov, locs, j + 1, d, r, anc, depth) {
                Err(q) => Err(q),
                Ok((d2, r2, ns)) => Ok((d2, r2, match o {
                    Some(n) => seq![n] + ns,
                    None => ns,
                })),
            },
        },
{
}

proof fn lemma_steps_prefix(f: Facts, contract: PipelineContract, ov: OptionsView, locs: Seq<(Seq<char>, Seq<char>)>,
    j: int, docs: Seq<(String, LoadedDocument)>, rep: Seq<DiagnosticView>, anc: Seq<Seq<char>>, depth: int,
    rb: Result<(Seq<(String, LoadedDocument)>, Seq<DiagnosticView>, Seq<NestedView>), QuestionView>,
    prefix: Seq<NestedView>, d: Seq<(String, LoadedDocument)>, r: Seq<DiagnosticView>, o: Option<NestedView>)
    requires
        0 <= j < contract.steps@.len(),
        step_spec(f, contract, contract.steps@[j], ov, locs, docs, rep, anc, depth) == Ok::<(Seq<(String, LoadedDocument)>,
            Seq<DiagnosticView>, Option<NestedView>), QuestionView>((d, r, o)),
        match steps_spec(f, contract, ov, locs, j, docs, rep, anc, depth) {
            Err(q) => rb == Err::<(Seq<(String, LoadedDocument)>, Seq<DiagnosticView>, Seq<NestedView>), QuestionView>(q),
            Ok((d1, r1, ns)) => rb == Ok::<(Seq<(String, LoadedDocument)>, Seq<DiagnosticView>, Seq<NestedView>), QuestionView>((d1, r1, prefix + ns)),
        },
    ensures
        match steps_spec(f, contract, ov, locs, j + 1, d, r, anc, depth) {
            Err(q) => rb == Err::<(Seq<(String, LoadedDocument)>, Seq<DiagnosticView>, Seq<NestedView>), QuestionView>(q),
            Ok((d1, r1, ns)) => rb == Ok::<(Seq<(String, LoadedDocument)>, Seq<DiagnosticView>, Seq<NestedView>), QuestionView>((d1, r1,
                match o { Some(n) => prefix.push(n), None => prefix } + ns)),
        },
{
    lemma_steps_unfold(f, contract, ov, locs, j, docs, rep, anc, depth);
    match steps_spec(f, contract, ov, locs, j + 1, d, r, anc, depth) {
        Err(q) => {},
        Ok((d1, r1, ns)) => {
            match o {
                Some(n) => { assert(prefix + (seq![n] + ns) =~= prefix.push(n) + ns); },
                None => {},
            }
        },
    }
}

/// The nested pipeline that step `step` of `parent` names, if any, with its
/// own nested pipelines.
fn resolve_step_nested(
    parent: &PipelineContract,
    step: &PipelineStep,
    locations: &Vec<(String, String)>,
    options: &ResolveOptions,
    world: &mut ResolveWorld,
    ancestors: &mut Vec<String>,
    depth: usize,
    report: &mut ValidationReport,
) -> (r: Result<Option<NestedPipeline>, WorldQuestion>)
    requires
        old(world).layouts@.len() == options.package_roots@.len(),
        depth <= MAX_NESTING_DEPTH,
    ensures
        final(world).layouts == old(world).layouts,
        final(ancestors)@ == old(ancestors)@,
        docs_within(final(world).documents@, old(world).documents@),
        r matches Ok(Some(n)) ==> node_ok(n, texts(old(ancestors)@), depth as int)
            && well_nested(n.children@, texts(old(ancestors)@).push(n.contract.id@), depth + 1)
            && validated_in(n.contract, old(world).documents@) && all_validated(n.children@, old(world).documents@),
        facts(*final(world)) == facts(*old(world)),
        match step_spec(facts(*old(world)), *parent, *step, options_view(*options), loc_views(locations@),
            old(world).documents@, old(report)@, texts(old(ancestors)@), depth as int) {
            Err(q) => r matches Err(x) && x@ == q,
            Ok((d, rep, o)) => r matches Ok(x) && final(world).documents@ == d && final(report)@ == rep && match o {
                Some(nv) => x matches Some(n) && nested_view(n) == nv,
                None => x is None,
            },
        },
    decreases MAX_NESTING_DEPTH - depth, 0nat,
{
    let cr = match &step.contract_ref {
        None => return Ok(None),
        Some(c) => c,
    };
    let located = location_of(locations, cr.as_str());
    let source = match nested_step_plan(parent, step, depth, located.is_some()) {
        Err(d) => {
            report.push(d);
            return Ok(None);
        },
        Ok(None) => return Ok(None),
        Ok(Some(source)) => source,
    };
    let path = match source {
        NestedSource::Located => match located {
            Some(p) => p,
            None => return Ok(None),
        },
        NestedSource::Locate { reference, index } => {
            proof {
                lemma_last_reference_bound(parent.contract_references@, cr@, parent.contract_references@.len() as int);
            }
            if reference >= parent.contract_references.len() {
                return Ok(None);
            }
            match locate(world, &parent.contract_references[reference], options, index, true, report) {
                Err(q) => return Err(q),
                Ok(None) => return Ok(None),
                Ok(Some(p)) => p,
            }
        },
        NestedSource::LocalPath => match locate_local(world, cr.as_str(), &options.base_dir) {
            Err(q) => return Err(q),
            Ok(None) => return Ok(None),
            Ok(Some(p)) => p,
        },
    };
    let ghost w0 = world.documents@;
    let doc = match take_document(world, path.as_str()) {
        Err(q) => return Err(q),
        Ok(d) => d,
    };
    let ghost k = document_of(w0, path@, w0.len() as int)->0;
    proof {
        lemma_document_of_bounds(w0, path@, w0.len() as int);
        lemma_remove_within(w0, k);
    }
    let ghost w1 = world.documents@;
    assert(doc == w0[k].1);
    let (loaded, nested_report) = match doc {
        LoadedDocument::Loaded { contract, report: r } => (Ok(contract), r),
        LoadedDocument::Failed(m) => (Err(m), ValidationReport::new()),
    };
    match check_nested_contract(step, path.as_str(), &loaded, ancestors, &nested_report) {
        Err(findings) => {
            report.extend(findings);
            return Ok(None);
        },
        Ok(()) => {},
    }
    let contract = match loaded {
        Ok(c) => c,
        Err(_) => return Ok(None),
    };
    assert(validated_in(contract, w0)) by {
        assert(holds_valid(w0[k].1, contract));
    }
    let child_options = ResolveOptions {
        base_dir: parent_of(path.as_str()),
        package_roots: clone_strings(&options.package_roots),
        registry_base_url: clone_opt(&options.registry_base_url),
    };
    let ghost before = ancestors@;
    ancestors.push(contract.id.clone());
    assert(texts(ancestors@) =~= texts(before).push(contract.id@));
    let children = resolve_level(&contract, &child_options, world, ancestors, depth + 1, report);
    ancestors.pop();
    assert(ancestors@ =~= before);
    let children = match children {
        Err(q) => return Err(q),
        Ok((_, c)) => c,
    };
    proof { lemma_validated_widen(children@, w1, w0); }
    let n = NestedPipeline {
        parent_step_id: step.id.clone(),
        contract_ref: cr.clone(),
        contract,
        children,
    };
    Ok(Some(n))
}

/// Resolve the references and nested pipelines of `contract`, nested
/// `depth` deep under `ancestors`: each reference is located (a nested DPCS
/// one must be found and must load), then each step's nested pipeline is
/// loaded, judged and resolved in turn.
fn resolve_level(
    contract: &PipelineContract,
    options: &ResolveOptions,
    world: &mut ResolveWorld,
    ancestors: &mut Vec<String>,
    depth: usize,
    report: &mut ValidationReport,
) -> (r: Result<(Vec<(String, String)>, Vec<NestedPipeline>), WorldQuestion>)
    requires
        old(world).layouts@.len() == options.package_roots@.len(),
        depth <= MAX_NESTING_DEPTH,
    ensures
        final(world).layouts == old(world).layouts,
        final(ancestors)@ == old(ancestors)@,
        docs_within(final(world).documents@, old(world).documents@),
        r matches Ok((_, ns)) ==> well_nested(ns@, texts(old(ancestors)@), depth as int)
            && all_validated(ns@, old(world).documents@),
        facts(*final(world)) == facts(*old(world)),
        match level_spec(facts(*old(world)), *contract, options_view(*options), old(world).documents@, old(report)@,
            texts(old(ancestors)@), depth as int) {
            Err(q) => r matches Err(x) && x@ == q,
            Ok((d, rep, locs, ns)) => r matches Ok((l, x)) && final(world).documents@ == d && final(report)@ == rep
                && loc_views(l@) == locs && nested_views(x@) == ns,
        },
    decreases MAX_NESTING_DEPTH - depth, 1nat,
{
    let ghost f = facts(*world);
    let ghost ov = options_view(*options);
    let ghost anc = texts(ancestors@);
    let ghost ra = refs_spec(f, *contract, ov, 0, world.documents@, report@, Seq::empty());
    let mut locations: Vec<(String, String)> = Vec::new();
    assert(loc_views(locations@) =~= Seq::<(Seq<char>, Seq<char>)>::empty());
    let refs = &contract.contract_references;
    let mut i: usize = 0;
    while i < refs.len()
        invariant
            i <= refs@.len(),
            refs == &contract.contract_references,
            world.layouts == old(world).layouts,
            world.layouts@.len() == options.package_roots@.len(),
            facts(*world) == f,
            f == facts(*old(world)),
            ov == options_view(*options),
            ancestors == old(ancestors),
            docs_within(world.documents@, old(world).documents@),
            refs_spec(f, *contract, ov, i as int, world.documents@, report@, loc_views(locations@)) == ra,
            ra == refs_spec(f, *contract, ov, 0, old(world).documents@, old(report)@, Seq::empty()),
        decreases refs.len() - i,
    {
        let reference = &refs[i];
        let require = is_dpcs_reference_type(reference.reference_type.as_str());
        let ghost rep0 = report@;
        let ghost docs0 = world.documents@;
        let ghost locs0 = loc_views(locations@);
        match locate(world, reference, options, i, require, report) {
            Err(q) => return Err(q),
            Ok(None) => {},
            Ok(Some(path)) => {
                record_location(&mut locations, reference.id.clone(), path.clone());
                if require {
                    let ghost w = world.documents@;
                    let taken = take_document(world, path.as_str());
                    proof {
                        if document_of(w, path@, w.len() as int) is Some {
                            lemma_document_of_bounds(w, path@, w.len() as int);
                            lemma_remove_within(w, document_of(w, path@, w.len() as int)->0);
                        }
                    }
                    match taken {
                        Err(q) => return Err(q),
                        Ok(LoadedDocument::Loaded { .. }) => {},
                        Ok(LoadedDocument::Failed(m)) => report.push(reference_unloadable(reference, path.as_str(), m.as_str(), i)),
                    }
                }
            },
        }
        i += 1;
    }
    let ghost locs_a = loc_views(locations@);
    let ghost docs_a = world.documents@;
    let ghost rep_a = report@;
    assert(ra == Ok::<(Seq<(String, LoadedDocument)>, Seq<DiagnosticView>, Seq<(Seq<char>, Seq<char>)>), QuestionView>((docs_a, rep_a, locs_a)));
    let ghost rb = steps_spec(f, *contract, ov, locs_a, 0, world.documents@, report@, anc, depth as int);
    let mut nested: Vec<NestedPipeline> = Vec::new();
    proof {
        if rb is Ok {
            assert(nested_views(nested@) + rb->Ok_0.2 =~= rb->Ok_0.2);
        }
    }
    let mut j: usize = 0;
    while j < contract.steps.len()
        invariant
            j <= contract.steps@.len(),
            facts(*world) == f,
            f == facts(*old(world)),
            ov == options_view(*options),
            anc == texts(old(ancestors)@),
            loc_views(locations@) == locs_a,
            ra == refs_spec(f, *contract, ov, 0, old(world).documents@, old(report)@, Seq::empty()),
            ra == Ok::<(Seq<(String, LoadedDocument)>, Seq<DiagnosticView>, Seq<(Seq<char>, Seq<char>)>), QuestionView>((docs_a, rep_a, locs_a)),
            rb == steps_spec(f, *contract, ov, locs_a, 0, docs_a, rep_a, anc, depth as int),
            match steps_spec(f, *contract, ov, locs_a, j as int, world.documents@, report@, anc, depth as int) {
                Err(q) => rb == Err::<(Seq<(String, LoadedDocument)>, Seq<DiagnosticView>, Seq<NestedView>), QuestionView>(q),
                Ok((d, r, ns)) => rb == Ok::<(Seq<(String, LoadedDocument)>, Seq<DiagnosticView>, Seq<NestedView>), QuestionView>((d, r, nested_views(nested@) + ns)),
            },
            world.layouts == old(world).layouts,
            world.layouts@.len() == options.package_roots@.len(),
            ancestors@ == old(ancestors)@,
            depth <= MAX_NESTING_DEPTH,
            well_nested(nested@, texts(old(ancestors)@), depth as int),
            docs_within(world.documents@, old(world).documents@),
            all_validated(nested@, old(world).documents@),
        decreases contract.steps.len() - j,
    {
        let ghost w = world.documents@;
        let ghost rep0 = report@;
        let ghost nested0 = nested@;
        proof { lemma_steps_unfold(f, *contract, ov, locs_a, j as int, w, rep0, anc, depth as int); }
        match resolve_step_nested(contract, &contract.steps[j], &locations, options, world, ancestors, depth, report) {
            Err(q) => return Err(q),
            Ok(None) => {
                proof { lemma_steps_prefix(f, *contract, ov, locs_a, j as int, w, rep0, anc, depth as int, rb,
                    nested_views(nested0), world.documents@, report@, None); }
            },
            Ok(Some(n)) => {
                proof {
                    lemma_validated_in_widen(n.contract, w, old(world).documents@);
                    lemma_validated_widen(n.children@, w, old(world).documents@);
                }
                let ghost before = nested@;
                nested.push(n);
                assert(nested@.drop_last() =~= before);
                proof {
                    assert(nested_views(nested@) == nested_views(nested0).push(nested_view(n)));
                    lemma_steps_prefix(f, *contract, ov, locs_a, j as int, w, rep0, anc, depth as int, rb,
                        nested_views(nested0), world.documents@, report@, Some(nested_view(n)));
                }
            },
        }
        j += 1;
    }
    proof {
        assert(nested_views(nested@) + Seq::<NestedView>::empty() =~= nested_views(nested@));
    }
    Ok((locations, nested))
}

/// Resolve the contract references and nested pipelines of `contract`
/// against what `world` knows, or say what it still needs to know. The
/// nested pipelines found form a well-placed forest under the contract: no
/// nested contract lacks an identity, repeats the identity of a contract
/// enclosing it, or lies deeper than the nesting limit. The findings come
/// sorted.
pub fn resolve_contract_references(contract: &PipelineContract, options: &ResolveOptions, world: &mut ResolveWorld)
    -> (r: Result<ResolutionResult, WorldQuestion>)
    requires
        old(world).layouts@.len() == options.package_roots@.len(),
    ensures
        final(world).layouts == old(world).layouts,
        r matches Ok(res) ==> well_nested(res.nested@, seq![contract.id@], 0)
            && all_validated(res.nested@, old(world).documents@),
        facts(*final(world)) == facts(*old(world)),
        match level_spec(facts(*old(world)), *contract, options_view(*options), old(world).documents@, Seq::empty(),
            seq![contract.id@], 0) {
            Err(q) => r matches Err(x) && x@ == q,
            Ok((d, rep, locs, ns)) => r matches Ok(res) && final(world).documents@ == d
                && res.report@ == crate::diagnostics::report::sort_diagnostics(rep) && loc_views(res.locations@) == locs
                && nested_views(res.nested@) == ns,
        },
{
    let mut report = ValidationReport::new();
    let mut ancestors: Vec<String> = Vec::new();
    ancestors.push(contract.id.clone());
    assert(texts(ancestors@) =~= seq![contract.id@]);
    match resolve_level(contract, options, world, &mut ancestors, 0, &mut report) {
        Err(q) => Err(q),
        Ok((locations, nested)) => {
            report.sort_deterministic();
            Ok(ResolutionResult { locations, nested, report })
        },
    }
}

/// Merge a contract's validation report with the findings of resolving its
/// references, sorted.
pub fn validate_resolved(validation: ValidationReport, resolution: ResolutionResult) -> (r: ValidationReport)
    ensures
        r@ == crate::diagnostics::report::sort_diagnostics(validation@ + resolution.report@),
{
    let mut report = validation;
    report.extend(resolution.report);
    report.sort_deterministic();
    report
}

} // verus!
