use dpcs::diagnostics::{Diagnostic, ValidationReport};
use dpcs::model::contract::PipelineContract;
use dpcs::model::extension::ExtensionMap;
use dpcs::model::graph::PipelineGraph;
use dpcs::model::interface::PipelineInterface;
use dpcs::model::lineage::{PipelineLineage, PipelineProvenance};
use dpcs::model::step::{ContractReference, PipelineStep};
use dpcs::resolve::nesting::{
    apply_nested_provenance, check_nested_contract, nested_step_plan, reference_unloadable, reference_unresolved,
    stamp_nested_parents, NestedSource,
};
use dpcs::package::{artifact_entry, PackageLayout, PackageManifest};
use dpcs::resolve::driver::{
    resolve_contract_references, validate_resolved, FetchOutcome, LoadedDocument, PathProbe, RegistryFetch, ResolveWorld,
    WorldQuestion,
};
use dpcs::resolve::locate::{local_path_candidates, locate_candidates, locate_reference, LocateCandidate};
use dpcs::resolve::{is_dpcs_reference_type, is_nested_step, looks_like_path, NestedPipeline, ResolveOptions};

fn no_ext() -> ExtensionMap {
    ExtensionMap { entries: vec![] }
}

fn step(id: &str, step_type: &str, contract_ref: Option<&str>) -> PipelineStep {
    PipelineStep {
        id: id.to_owned(),
        step_type: step_type.to_owned(),
        name: None,
        contract_ref: contract_ref.map(str::to_owned),
        transform_ref: None,
        inputs: vec![],
        outputs: vec![],
        extensions: no_ext(),
    }
}

fn reference(id: &str, reference_type: &str, location: &str) -> ContractReference {
    ContractReference {
        id: id.to_owned(),
        reference_type: reference_type.to_owned(),
        location: location.to_owned(),
        version: None,
        extensions: no_ext(),
    }
}

fn contract(id: &str, refs: Vec<ContractReference>) -> PipelineContract {
    PipelineContract {
        dpcs_version: "1.0.0".to_owned(),
        id: id.to_owned(),
        name: None,
        version: "1.0.0".to_owned(),
        metadata: None,
        interface: PipelineInterface { inputs: vec![], outputs: vec![], metadata: None, extensions: no_ext() },
        graph: PipelineGraph { entry_points: vec![], exit_points: vec![], metadata: None, edges: vec![], extensions: no_ext() },
        steps: vec![],
        contract_references: refs,
        data_flow: vec![],
        control_flow: vec![],
        execution: None,
        scheduling: vec![],
        quality_gates: vec![],
        failure_semantics: vec![],
        lineage: None,
        compatibility: None,
        security: None,
        governance: None,
        extensions: no_ext(),
    }
}

fn nested(step_id: &str, id: &str, children: Vec<NestedPipeline>) -> NestedPipeline {
    NestedPipeline {
        parent_step_id: step_id.to_owned(),
        contract_ref: format!("{id}.yaml"),
        contract: contract(id, vec![]),
        children,
    }
}

#[test]
fn reference_and_step_types() {
    assert!(is_dpcs_reference_type(" DPCS:Pipeline "));
    assert!(!is_dpcs_reference_type("odcs"));
    assert!(is_nested_step(&step("s", "dpcs:nested", None)));
    assert!(!is_nested_step(&step("s", "transform", None)));
    assert!(looks_like_path("sub/child.yaml"));
    assert!(!looks_like_path("child"));
    let o = ResolveOptions::with_base_dir(Some("/c".to_owned())).with_package_root("/p".to_owned());
    assert_eq!(o.package_roots, vec!["/p".to_owned()]);
}

#[test]
fn where_a_step_looks_for_its_nested_contract() {
    let parent = contract(
        "root",
        vec![reference("child", "dpcs", "child.yaml"), reference("data", "odcs", "d.yaml"), reference("child", "pipeline", "c2.yaml")],
    );
    assert_eq!(nested_step_plan(&parent, &step("s", "transform", None), 0, false).unwrap(), None);
    assert_eq!(nested_step_plan(&parent, &step("s", "nested", Some("data")), 0, false).unwrap(), None);
    assert_eq!(nested_step_plan(&parent, &step("s", "x", Some("child")), 0, true).unwrap(), Some(NestedSource::Located));
    assert_eq!(
        nested_step_plan(&parent, &step("s", "x", Some("child")), 3, false).unwrap(),
        Some(NestedSource::Locate { reference: 2, index: 0 })
    );
    assert_eq!(nested_step_plan(&parent, &step("s", "nested", Some("sub/x.yaml")), 0, false).unwrap(), Some(NestedSource::LocalPath));
    assert_eq!(nested_step_plan(&parent, &step("s", "nested", Some("plain")), 0, false).unwrap(), None);
    assert_eq!(nested_step_plan(&parent, &step("s", "transform", Some("sub/x.yaml")), 0, false).unwrap(), None);
    let d = nested_step_plan(&parent, &step("deep", "x", Some("child")), 8, false).unwrap_err();
    assert_eq!(d.id, "DPCS-REF-008");
    assert_eq!(d.message, "nested pipeline depth exceeds limit (8) at step `deep`");
    assert_eq!(d.object_ref.as_deref(), Some("steps.deep.contractRef"));
}

#[test]
fn nested_contracts_are_judged() {
    let s = step("s", "nested", Some("child"));
    let ancestors = vec!["root".to_owned()];
    let ok = ValidationReport::new();
    assert!(check_nested_contract(&s, "/c/child.yaml", &Ok(contract("child", vec![])), &ancestors, &ok).is_ok());
    let r = check_nested_contract(&s, "/c/child.yaml", &Err("no such file".to_owned()), &ancestors, &ok).unwrap_err();
    assert_eq!(r.diagnostics[0].id, "DPCS-REF-007");
    assert_eq!(r.diagnostics[0].message, "step `s` nested contract at `/c/child.yaml` could not be loaded: no such file");
    let r = check_nested_contract(&s, "p", &Ok(contract(" ", vec![])), &ancestors, &ok).unwrap_err();
    assert_eq!(r.diagnostics[0].message, "nested pipeline for step `s` is missing a stable identity");
    let r = check_nested_contract(&s, "p", &Ok(contract("root", vec![])), &ancestors, &ok).unwrap_err();
    assert_eq!(r.diagnostics[0].message, "nested pipeline cycle detected involving `root` (step `s`)");
    assert_eq!(r.diagnostics[0].remediation.as_deref(), Some("Remove cyclic nested Pipeline Contract references"));
    let mut bad = ValidationReport::new();
    bad.push(Diagnostic::error("DPCS-STR-001", "structural", "missing steps".to_owned()));
    bad.push(Diagnostic::warning("DPCS-STR-009", "structural", "odd".to_owned()));
    let r = check_nested_contract(&s, "p", &Ok(contract("child", vec![])), &ancestors, &bad).unwrap_err();
    let ids: Vec<&str> = r.diagnostics.iter().map(|d| d.id.as_str()).collect();
    assert_eq!(ids, vec!["DPCS-REF-008", "DPCS-STR-001", "DPCS-STR-009"]);
    assert_eq!(r.diagnostics[0].message, "nested pipeline `child` referenced by step `s` failed validation");
    assert_eq!(r.diagnostics[0].related_diagnostics, vec!["DPCS-STR-001".to_owned()]);
}

#[test]
fn reference_findings() {
    let d = reference_unresolved(&reference("child", "dpcs", "  child.yaml "), 1);
    assert_eq!(d.message, "contract reference `child` location `child.yaml` could not be resolved");
    assert_eq!(d.object_ref.as_deref(), Some("contractReferences[1].location"));
    let d = reference_unloadable(&reference("child", "dpcs", "child.yaml"), "/c/child.yaml", "invalid document", 0);
    assert_eq!(
        d.message,
        "contract reference `child` resolves to `/c/child.yaml` but could not be loaded as a Pipeline Contract: invalid document"
    );
    assert_eq!(d.remediation.as_deref(), Some("Ensure the location points to a valid DPCS YAML/JSON document"));
}

#[test]
fn provenance_records_nested_identities() {
    let tree = vec![nested("s1", "c", vec![nested("x", "a", vec![])]), nested("s2", "b", vec![])];
    let mut lineage: Option<PipelineLineage> = None;
    apply_nested_provenance(&mut lineage, "root", &vec![]);
    assert!(lineage.is_none());
    apply_nested_provenance(&mut lineage, "root", &tree);
    let p = lineage.as_ref().unwrap().provenance.as_ref().unwrap();
    assert_eq!(p.originating.as_deref(), Some("root"));
    assert_eq!(p.nested, vec!["a".to_owned(), "b".to_owned(), "c".to_owned()]);
    let mut with_origin = Some(PipelineLineage {
        datasets: vec![],
        steps: vec![],
        provenance: Some(PipelineProvenance {
            originating: Some("first".to_owned()),
            parents: vec![],
            nested: vec!["c".to_owned(), "z".to_owned()],
            imported: vec![],
            version_history: vec![],
            extensions: no_ext(),
        }),
        audit: None,
        extensions: no_ext(),
    });
    apply_nested_provenance(&mut with_origin, "root", &tree);
    let p = with_origin.unwrap().provenance.unwrap();
    assert_eq!(p.originating.as_deref(), Some("first"));
    assert_eq!(p.nested, vec!["a".to_owned(), "b".to_owned(), "c".to_owned(), "z".to_owned()]);
}

#[test]
fn parents_are_stamped_down_the_tree() {
    let mut tree = vec![nested("s1", "c", vec![nested("x", "a", vec![])]), nested("s2", "b", vec![])];
    stamp_nested_parents(&mut tree, "root");
    let parents = |n: &NestedPipeline| n.contract.lineage.as_ref().unwrap().provenance.as_ref().unwrap().parents.clone();
    assert_eq!(parents(&tree[0]), vec!["root".to_owned()]);
    assert_eq!(parents(&tree[1]), vec!["root".to_owned()]);
    assert_eq!(parents(&tree[0].children[0]), vec!["c".to_owned()]);
    assert_eq!(tree[0].parent_step_id, "s1");
    stamp_nested_parents(&mut tree, "alpha");
    assert_eq!(parents(&tree[1]), vec!["alpha".to_owned(), "root".to_owned()]);
    stamp_nested_parents(&mut tree, "root");
    assert_eq!(parents(&tree[1]), vec!["alpha".to_owned(), "root".to_owned()]);
}

fn views(c: &[LocateCandidate]) -> Vec<(String, bool)> {
    c.iter().map(|c| (c.path.clone(), c.canonical)).collect()
}

#[test]
fn options_from_a_document_path() {
    assert_eq!(ResolveOptions::from_document_path("contracts/p.yaml").base_dir, Some("contracts".to_owned()));
    assert_eq!(ResolveOptions::from_document_path("p.yaml").base_dir, None);
    assert_eq!(ResolveOptions::from_document_path("/p.yaml").base_dir, Some("/".to_owned()));
    assert!(ResolveOptions::from_document_path("a/b/c.yaml").package_roots.is_empty());
}

#[test]
fn local_places_in_order() {
    assert_eq!(
        views(&local_path_candidates("child.yaml", Some("/c"))),
        vec![("/c/child.yaml".to_owned(), true), ("child.yaml".to_owned(), true)]
    );
    assert_eq!(
        views(&local_path_candidates("/abs/x.yaml", Some("/c"))),
        vec![("/abs/x.yaml".to_owned(), true), ("/abs/x.yaml".to_owned(), true), ("/abs/x.yaml".to_owned(), true)]
    );
    assert_eq!(views(&local_path_candidates("x.yaml", None)), vec![("x.yaml".to_owned(), true)]);
}

#[test]
fn reference_places_cover_package_roots() {
    let mut m = PackageManifest::empty();
    m.artifacts = vec![artifact_entry("child".to_owned(), "dpcs".to_owned(), "1.0.0".to_owned(), "nested/child.yaml".to_owned())];
    let layout = PackageLayout { root: "/pkg".to_owned(), manifest: m };
    let options = ResolveOptions::with_base_dir(Some("/c".to_owned()))
        .with_package_root("/pkg".to_owned())
        .with_package_root("/missing".to_owned());
    let r = reference("child", "dpcs", "  child.yaml ");
    assert_eq!(
        views(&locate_candidates(&r, &options, &vec![Some(layout), None])),
        vec![
            ("/c/child.yaml".to_owned(), true),
            ("child.yaml".to_owned(), true),
            ("/pkg/nested/child.yaml".to_owned(), false),
            ("/pkg/child.yaml".to_owned(), true),
        ]
    );
    assert!(locate_candidates(&reference("child", "dpcs", "   "), &options, &vec![None, None]).is_empty());
}

#[test]
fn locating_picks_the_first_present_place() {
    let r = reference("child", "dpcs", "child.yaml");
    let (found, finding) = locate_reference(&r, 0, true, &[false, true, true]);
    assert_eq!(found, Some(1));
    assert!(finding.is_none());
    let (found, finding) = locate_reference(&r, 2, true, &[false, false]);
    assert_eq!(found, None);
    let d = finding.expect("unresolved finding");
    assert_eq!(d.id, "DPCS-REF-007");
    assert_eq!(d.message, "contract reference `child` location `child.yaml` could not be resolved");
    assert_eq!(d.object_ref.as_deref(), Some("contractReferences[2].location"));
    let (_, finding) = locate_reference(&reference("odcs", "odcs", "x.yaml"), 0, false, &[false]);
    assert!(finding.is_none());
    let (_, finding) = locate_reference(&reference("blank", "dpcs", "  "), 0, true, &[]);
    assert!(finding.is_none());
}

/// Answer the resolver's questions from an in-memory file system until it
/// finishes, as a caller does with the real one.
fn resolve_in(
    root: &PipelineContract,
    options: &ResolveOptions,
    files: &dyn Fn(&str) -> Option<PipelineContract>,
) -> (dpcs::resolve::ResolutionResult, Vec<WorldQuestion>) {
    resolve_with_registry(root, options, files, &|_| FetchOutcome::Unavailable)
}

fn resolve_with_registry(
    root: &PipelineContract,
    options: &ResolveOptions,
    files: &dyn Fn(&str) -> Option<PipelineContract>,
    registry: &dyn Fn(&str) -> FetchOutcome,
) -> (dpcs::resolve::ResolutionResult, Vec<WorldQuestion>) {
    let mut probes: Vec<(String, bool)> = vec![];
    let mut loads: Vec<String> = vec![];
    let mut fetched: Vec<(String, Option<String>)> = vec![];
    let mut asked = vec![];
    loop {
        let mut world = ResolveWorld {
            layouts: options.package_roots.iter().map(|_| None).collect(),
            probes: probes
                .iter()
                .map(|(p, f)| PathProbe { path: p.clone(), is_file: *f, canonical: p.clone() })
                .collect(),
            documents: loads
                .iter()
                .map(|p| {
                    let doc = match files(p) {
                        Some(c) => LoadedDocument::Loaded { contract: c, report: ValidationReport::new() },
                        None => LoadedDocument::Failed("not a contract".to_owned()),
                    };
                    (p.clone(), doc)
                })
                .collect(),
            fetches: fetched
                .iter()
                .map(|(id, version)| RegistryFetch { id: id.clone(), version: version.clone(), outcome: registry(id) })
                .collect(),
        };
        match resolve_contract_references(root, options, &mut world) {
            Ok(result) => return (result, asked),
            Err(WorldQuestion::Probe(p)) => {
                probes.push((p.clone(), files(&p).is_some()));
                asked.push(WorldQuestion::Probe(p));
            }
            Err(WorldQuestion::Load(p)) => {
                loads.push(p.clone());
                asked.push(WorldQuestion::Load(p));
            }
            Err(WorldQuestion::Fetch { id, version }) => {
                fetched.push((id.clone(), version.clone()));
                asked.push(WorldQuestion::Fetch { id, version });
            }
        }
    }
}

fn parent_with_child() -> PipelineContract {
    let mut parent = contract("parent.pipe", vec![reference("child", "dpcs", "child.yaml")]);
    parent.steps = vec![step("nest", "dpcs:pipeline", Some("child"))];
    parent
}

#[test]
fn resolves_a_nested_pipeline_by_asking() {
    let parent = parent_with_child();
    let options = ResolveOptions::with_base_dir(Some("/c".to_owned()));
    let files = |p: &str| if p == "/c/child.yaml" { Some(contract("child.pipe", vec![])) } else { None };
    let (result, asked) = resolve_in(&parent, &options, &files);
    assert_eq!(
        asked,
        vec![
            WorldQuestion::Probe("/c/child.yaml".to_owned()),
            WorldQuestion::Load("/c/child.yaml".to_owned()),
            WorldQuestion::Load("/c/child.yaml".to_owned()),
        ]
    );
    assert!(result.report.diagnostics.is_empty());
    assert_eq!(result.locations, vec![("child".to_owned(), "/c/child.yaml".to_owned())]);
    assert_eq!(result.nested.len(), 1);
    assert_eq!(result.nested[0].parent_step_id, "nest");
    assert_eq!(result.nested[0].contract_ref, "child");
    assert_eq!(result.nested[0].contract.id, "child.pipe");
    assert!(result.nested[0].children.is_empty());
}

#[test]
fn nested_cycles_and_missing_documents_are_refused() {
    let parent = parent_with_child();
    let options = ResolveOptions::with_base_dir(Some("/c".to_owned()));
    let cyclic = |p: &str| if p == "/c/child.yaml" { Some(contract("parent.pipe", vec![])) } else { None };
    let (result, _) = resolve_in(&parent, &options, &cyclic);
    assert!(result.nested.is_empty());
    assert_eq!(result.report.diagnostics.len(), 1);
    assert_eq!(result.report.diagnostics[0].id, "DPCS-REF-008");
    assert_eq!(
        result.report.diagnostics[0].message,
        "nested pipeline cycle detected involving `parent.pipe` (step `nest`)"
    );

    let nothing = |_: &str| None;
    let (result, asked) = resolve_in(&parent, &options, &nothing);
    assert!(result.nested.is_empty());
    assert_eq!(
        asked,
        vec![WorldQuestion::Probe("/c/child.yaml".to_owned()), WorldQuestion::Probe("child.yaml".to_owned())]
    );
    let ids: Vec<&str> = result.report.diagnostics.iter().map(|d| d.id.as_str()).collect();
    assert_eq!(ids, vec!["DPCS-REF-007", "DPCS-REF-007"]);
    let merged = validate_resolved(ValidationReport::new(), result);
    assert_eq!(merged.diagnostics.len(), 2);
}

#[test]
fn registry_is_asked_last() {
    let parent = parent_with_child();
    let mut options = ResolveOptions::with_base_dir(None);
    options.registry_base_url = Some("http://registry.local/".to_owned());
    let files = |p: &str| if p == "/tmp/fetched-child.yaml" { Some(contract("child.pipe", vec![])) } else { None };
    let stored = |_: &str| FetchOutcome::Stored("/tmp/fetched-child.yaml".to_owned());
    let (result, asked) = resolve_with_registry(&parent, &options, &files, &stored);
    assert_eq!(asked[0], WorldQuestion::Probe("child.yaml".to_owned()));
    assert_eq!(asked[1], WorldQuestion::Fetch { id: "child".to_owned(), version: None });
    assert_eq!(result.locations, vec![("child".to_owned(), "/tmp/fetched-child.yaml".to_owned())]);
    assert_eq!(result.nested.len(), 1);

    let broken = |_: &str| FetchOutcome::InvalidBase("relative URL without a base".to_owned());
    let (result, _) = resolve_with_registry(&parent, &options, &files, &broken);
    let messages: Vec<&str> = result.report.diagnostics.iter().map(|d| d.message.as_str()).collect();
    assert!(messages.contains(&"contract reference `child`: invalid registry base URL: relative URL without a base"));
    assert!(messages.contains(&"contract reference `child` location `child.yaml` could not be resolved"));
}

#[test]
fn resolves_relative_nested_pipeline() {
    let mut parent = contract("parent.pipe", vec![reference("child", "dpcs", "child.dpcs.yaml")]);
    parent.version = "0.1.0".to_owned();
    parent.steps = vec![step("nest", "dpcs:pipeline", Some("child"))];
    let opts = ResolveOptions::with_base_dir(Some("/work".to_owned()));
    let files = |p: &str| {
        if p == "/work/child.dpcs.yaml" {
            let mut child = contract("child.pipe", vec![]);
            child.version = "0.1.0".to_owned();
            Some(child)
        } else {
            None
        }
    };
    let (result, _) = resolve_in(&parent, &opts, &files);
    assert!(result.is_ok(), "{:?}", result.report.diagnostics);
    assert_eq!(result.nested.len(), 1);
    assert_eq!(result.nested[0].contract.id, "child.pipe");
    assert!(result.nested[0].children.is_empty());
}
