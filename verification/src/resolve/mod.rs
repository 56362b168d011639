//! Contract reference resolution: options, nested pipelines, and the rules
//! that decide which references and steps denote nested Pipeline Contracts.
use vstd::prelude::*;

pub mod driver;
pub mod locate;
pub mod nesting;

use crate::diagnostics::{opt_text, ValidationReport};
use crate::diagnostics::report::no_errors;
use crate::model::contract::PipelineContract;
use crate::model::step::PipelineStep;
use crate::paths::has_char;
use crate::text::{chars_of, contains_char, lower, str_eq, string_of, to_lower, trim, trim_chars};

verus! {

/// Maximum nesting depth for recursive DPCS pipeline resolution.
pub const MAX_NESTING_DEPTH: usize = 8;

/// Options controlling how Contract References are resolved.
#[derive(Debug)]
pub struct ResolveOptions {
    /// Directory used as the root for relative `location` paths.
    pub base_dir: Option<String>,
    /// Unpacked package roots searched for artifact paths.
    pub package_roots: Vec<String>,
    /// Registry base URL searched last, when set.
    pub registry_base_url: Option<String>,
}

/// ASCII lower-case, trimmed form of a type name.
pub open spec fn type_key(s: Seq<char>) -> Seq<char> {
    trim(s).map_values(|c: char| lower(c))
}

/// Reference types that denote nested DPCS Pipeline Contracts.
pub open spec fn dpcs_reference_type(t: Seq<char>) -> bool {
    let k = type_key(t);
    k == "dpcs"@ || k == "pipeline"@ || k == "dpcs:pipeline"@ || k == "nested"@
}

/// Step types that denote nested pipelines.
pub open spec fn nested_step_type(t: Seq<char>) -> bool {
    let k = type_key(t);
    k == "dpcs:pipeline"@ || k == "nested"@ || k == "pipeline"@ || k == "dpcs:nested"@
}

fn type_key_exec(s: &str) -> (r: String)
    ensures
        r@ == type_key(s@),
{
    let t = trim_chars(&chars_of(s));
    let mut out: Vec<char> = Vec::new();
    let mut i: usize = 0;
    while i < t.len()
        invariant
            i <= t@.len(),
            out@ == t@.take(i as int).map_values(|c: char| lower(c)),
        decreases t.len() - i,
    {
        out.push(to_lower(t[i]));
        assert(out@ =~= t@.take(i + 1).map_values(|c: char| lower(c)));
        i += 1;
    }
    assert(t@.take(t@.len() as int) =~= t@);
    string_of(&out)
}

/// Whether a reference type denotes a nested DPCS Pipeline Contract.
pub fn is_dpcs_reference_type(reference_type: &str) -> (r: bool)
    ensures
        r == dpcs_reference_type(reference_type@),
{
    let k = type_key_exec(reference_type);
    let k = k.as_str();
    str_eq(k, "dpcs") || str_eq(k, "pipeline") || str_eq(k, "dpcs:pipeline") || str_eq(k, "nested")
}

/// Whether a step's type denotes a nested pipeline.
pub fn is_nested_step(step: &PipelineStep) -> (r: bool)
    ensures
        r == nested_step_type(step.step_type@),
{
    let k = type_key_exec(step.step_type.as_str());
    let k = k.as_str();
    str_eq(k, "dpcs:pipeline") || str_eq(k, "nested") || str_eq(k, "pipeline") || str_eq(k, "dpcs:nested")
}

/// A contract reference value that is a path (it contains `/`).
pub fn looks_like_path(value: &str) -> (r: bool)
    ensures
        r == contains_char(value@, '/'),
{
    has_char(&chars_of(value), '/')
}

/// What `std::path::Path::parent` gives for the path `p`: the path without
/// its final component, or nothing when it ends in a root or is empty.
pub uninterp spec fn path_parent(p: Seq<char>) -> Option<Seq<char>>;

/// Calls `std::path::Path::parent` on `p`. Trusted: the result, as text, is
/// `path_parent(p)`.
#[verifier::external_body]
fn parent_of(p: &str) -> (r: Option<String>)
    ensures
        match r {
            Some(q) => path_parent(p@) == Some(q@),
            None => path_parent(p@) is None,
        },
{
    match std::path::Path::new(p).parent() {
        Some(q) => Some(q.to_string_lossy().into_owned()),
        None => None,
    }
}

/// The base directory for a document at `p`: its parent, unless that is empty.
pub open spec fn document_base(p: Seq<char>) -> Option<Seq<char>> {
    match path_parent(p) {
        Some(q) => if q.len() > 0 { Some(q) } else { None },
        None => None,
    }
}

impl ResolveOptions {
    /// Build options rooted at the parent of `document_path` (no base
    /// directory when the parent is empty or there is none).
    pub fn from_document_path(document_path: &str) -> (r: ResolveOptions)
        ensures
            opt_text(r.base_dir) == document_base(document_path@),
            r.package_roots@.len() == 0,
            r.registry_base_url is None,
    {
        let base_dir = match parent_of(document_path) {
            Some(q) => if chars_of(q.as_str()).len() > 0 { Some(q) } else { None },
            None => None,
        };
        ResolveOptions { base_dir, package_roots: Vec::new(), registry_base_url: None }
    }

    /// Options with the given base directory and no package roots.
    pub fn with_base_dir(base_dir: Option<String>) -> (r: ResolveOptions)
        ensures
            r.base_dir == base_dir,
            r.package_roots@.len() == 0,
            r.registry_base_url is None,
    {
        ResolveOptions { base_dir, package_roots: Vec::new(), registry_base_url: None }
    }

    /// Add an unpacked package root to the search path.
    pub fn with_package_root(self, root: String) -> (r: ResolveOptions)
        ensures
            r.base_dir == self.base_dir,
            r.package_roots@ == self.package_roots@.push(root),
            r.registry_base_url == self.registry_base_url,
    {
        let mut s = self;
        s.package_roots.push(root);
        s
    }
}

/// A nested Pipeline Contract loaded via a step `contractRef`.
#[derive(Debug)]
pub struct NestedPipeline {
    /// Parent step identifier in the enclosing contract.
    pub parent_step_id: String,
    /// Stable reference id or location used to load the nested contract.
    pub contract_ref: String,
    /// Loaded nested Pipeline Contract (own identity/interface preserved).
    pub contract: PipelineContract,
    /// Recursively resolved child nested pipelines.
    pub children: Vec<NestedPipeline>,
}

/// Outcome of resolving Contract References for a Pipeline Contract.
#[derive(Debug)]
pub struct ResolutionResult {
    /// Contract-reference id paired with its resolved path.
    pub locations: Vec<(String, String)>,
    /// Nested DPCS pipelines discovered via step `contractRef`s.
    pub nested: Vec<NestedPipeline>,
    /// Diagnostics produced during resolution.
    pub report: ValidationReport,
}

impl ResolutionResult {
    /// Returns whether resolution produced no errors.
    pub fn is_ok(&self) -> (r: bool)
        ensures
            r == no_errors(self.report@),
    {
        self.report.is_valid()
    }
}

} // verus!
