//! Kubernetes scaffold (experimental): a ConfigMap describing the plan and a
//! Job (or CronJob, when the plan is scheduled by cron) whose pod runs the
//! steps one after another: every step but the last as an init container, in
//! plan order, the last as the main container. Steps are never peer
//! containers, which Kubernetes would start in parallel.
use vstd::prelude::*;

use super::artifact::BindingFile;
use super::common::{first_cron, first_timezone, with_extras, yaml_file, PlanView};
use super::names::{assign_names, escape, k8s_name_spec, NameMap};
use super::scaffold::{lemma_with_extras_contains, lemma_with_extras_keeps, name_for, name_of, step_facts, step_ref_of, step_type_of};
use crate::diagnostics::texts;
use crate::model::failure::FailureSemantics;
use crate::model::quality_gate::QualityGate;
use crate::plan::{PipelinePlan, PlanDependencyEdge};
use crate::report::markdown::concat;
use crate::text::{concat3, join, join_strings, push_str};

verus! {

/// Identifiers named by the scaffold: the step order, then the contract id.
pub open spec fn k8s_keys(p: PipelinePlan) -> Seq<Seq<char>> {
    with_extras(texts(p.step_order@), seq![p.contract_id@])
}

/// Unique Kubernetes names of [`k8s_keys`].
pub open spec fn k8s_names(p: PipelinePlan) -> Seq<Seq<char>> {
    assign_names(k8s_keys(p).map_values(|s: Seq<char>| k8s_name_spec(s)))
}

/// Kubernetes name of an identifier of the scaffold.
pub open spec fn k8s_of(p: PipelinePlan, id: Seq<char>) -> Seq<char> {
    name_for(k8s_keys(p), k8s_names(p), id)
}

/// YAML double-quoted escape.
pub open spec fn yq(s: Seq<char>) -> Seq<char> {
    escape(s)
}

/// One container running one step.
pub open spec fn container_text(name: Seq<char>, step_id: Seq<char>, contract_id: Seq<char>) -> Seq<char> {
    "- name: "@ + name + "\n          image: example.com/dpcs-step:scaffold\n          command: [\"/bin/true\"]\n          env:\n            - name: DPCS_STEP_ID\n              value: \""@
        + yq(step_id) + "\"\n            - name: DPCS_CONTRACT_ID\n              value: \""@ + yq(contract_id) + "\"\n"@
}

/// Container of the step named `id`.
pub open spec fn step_container(p: PipelinePlan, id: Seq<char>) -> Seq<char> {
    container_text(k8s_of(p, id), id, p.contract_id@)
}

/// The pod spec: with no steps a single no-op container named after the
/// pipeline; with one step one container; otherwise every step but the last
/// as an init container, in plan order, and the last as the main container.
pub open spec fn pod_spec_text(p: PipelinePlan, pipeline: Seq<char>) -> Seq<char> {
    let order = texts(p.step_order@);
    if order.len() == 0 {
        "restartPolicy: Never\n      containers:\n"@ + container_text(pipeline + "-noop"@, "noop"@, p.contract_id@)
    } else if order.len() == 1 {
        "restartPolicy: Never\n      containers:\n"@ + step_container(p, order[0])
    } else {
        "restartPolicy: Never\n      initContainers:\n"@
            + concat(order.drop_last().map_values(|id: Seq<char>| step_container(p, id)))
            + "      containers:\n"@ + step_container(p, order.last())
    }
}

/// The Job manifest.
pub open spec fn job_text(p: PipelinePlan, name: Seq<char>) -> Seq<char> {
    let label = k8s_name_spec(p.contract_id@);
    "# DPCS Kubernetes Job scaffold (experimental)\n# Steps run sequentially via initContainers + main container (topology linearized by step_order).\napiVersion: batch/v1\nkind: Job\nmetadata:\n  name: "@
        + name + "\n  labels:\n    app.kubernetes.io/managed-by: dpcs\n    dpcs.io/contract-id: \""@ + label
        + "\"\nspec:\n  template:\n    metadata:\n      labels:\n        dpcs.io/contract-id: \""@ + label
        + "\"\n    spec:\n"@ + pod_spec_text(p, name) + "\n"@
}

/// The schedule's time-zone line, when one is declared.
pub open spec fn timezone_line(p: PipelinePlan) -> Seq<char> {
    match first_timezone(p.scheduling@) {
        Some(tz) => "  timeZone: \""@ + yq(tz) + "\"\n"@,
        None => Seq::empty(),
    }
}

/// The CronJob manifest for schedule `cron`.
pub open spec fn cronjob_text(p: PipelinePlan, name: Seq<char>, cron: Seq<char>) -> Seq<char> {
    let label = k8s_name_spec(p.contract_id@);
    "# DPCS Kubernetes CronJob scaffold (experimental)\n# Steps run sequentially via initContainers + main container (topology linearized by step_order).\napiVersion: batch/v1\nkind: CronJob\nmetadata:\n  name: "@
        + name + "\n  labels:\n    app.kubernetes.io/managed-by: dpcs\n    dpcs.io/contract-id: \""@ + label
        + "\"\nspec:\n  schedule: \""@ + yq(cron) + "\"\n"@ + timezone_line(p)
        + "  concurrencyPolicy: Forbid\n  jobTemplate:\n    spec:\n      template:\n        metadata:\n          labels:\n            dpcs.io/contract-id: \""@
        + label + "\"\n        spec:\n"@ + pod_spec_text(p, name) + "\n"@
}

/// Summary lines of the steps in `order`.
pub open spec fn step_summary(p: PipelinePlan, order: Seq<Seq<char>>) -> Seq<Seq<char>>
    decreases order.len(),
{
    if order.len() == 0 {
        Seq::empty()
    } else {
        let id = order.last();
        step_summary(p, order.drop_last()) + seq![
            "  - id: \""@ + yq(id) + "\""@,
            "    type: \""@ + yq(step_type_of(p, id)) + "\""@,
            "    contractRef: \""@ + yq(step_ref_of(p, id)) + "\""@
        ]
    }
}

/// Lines of the plan summary kept in the ConfigMap.
pub open spec fn summary_lines(p: PipelinePlan) -> Seq<Seq<char>> {
    seq!["contractId: \""@ + yq(p.contract_id@) + "\""@, "steps:"@]
        + step_summary(p, texts(p.step_order@))
        + (if p.quality_gates@.len() > 0 {
            seq!["qualityGates:"@] + p.quality_gates@.map_values(|g: QualityGate| "  - \""@ + yq(g.id@) + "\""@)
        } else {
            Seq::empty()
        })
        + (if p.failure_semantics@.len() > 0 {
            seq!["failureSemantics:"@] + p.failure_semantics@.map_values(|f: FailureSemantics| "  - \""@ + yq(f.id@) + "\""@)
        } else {
            Seq::empty()
        })
}

/// A dependency edge as `from->to`.
pub open spec fn edge_text(e: PlanDependencyEdge) -> Seq<char> {
    e.from@ + "->"@ + e.to@
}

/// The ConfigMap manifest.
pub open spec fn configmap_text(p: PipelinePlan, profile: Seq<char>, name: Seq<char>) -> Seq<char> {
    "# DPCS Kubernetes scaffold (experimental)\napiVersion: v1\nkind: ConfigMap\nmetadata:\n  name: "@ + name
        + "-plan\n  labels:\n    app.kubernetes.io/managed-by: dpcs\n    dpcs.io/contract-id: \""@ + k8s_name_spec(p.contract_id@)
        + "\"\n    dpcs.io/contract-version: \""@ + k8s_name_spec(p.contract_version@)
        + "\"\n    dpcs.io/profile: \""@ + k8s_name_spec(profile)
        + "\"\ndata:\n  contractId: \""@ + yq(p.contract_id@)
        + "\"\n  contractVersion: \""@ + yq(p.contract_version@)
        + "\"\n  profileIdentity: \""@ + yq(profile)
        + "\"\n  dpcsVersion: \""@ + yq(p.dpcs_version@)
        + "\"\n  stepOrder: \""@ + yq(join(texts(p.step_order@), ","@))
        + "\"\n  dependencyEdges: \""@ + yq(join(p.dependency_edges@.map_values(|e: PlanDependencyEdge| edge_text(e)), ","@))
        + "\"\n  planSummary: |\n"@
        + join(summary_lines(p).map_values(|l: Seq<char>| "    "@ + l), "\n"@) + "\n"@
}

proof fn lemma_contract_named(p: PipelinePlan)
    ensures
        k8s_keys(p).contains(p.contract_id@),
{
    lemma_with_extras_contains(texts(p.step_order@), seq![p.contract_id@], 0);
}

fn k8s_names_of(view: &PlanView) -> (r: NameMap)
    ensures
        r.keys() == k8s_keys(*view.plan),
        r.names() == k8s_names(*view.plan),
{
    let extras: Vec<&str> = vec![view.contract_id()];
    assert(extras@.map_values(|e: &str| e@) =~= seq![view.plan.contract_id@]);
    view.unique_k8s_names(extras.as_slice())
}

fn container_block(name: &str, step_id: &str, contract_id: &str) -> (r: String)
    ensures
        r@ == container_text(name@, step_id@, contract_id@),
{
    let mut out = concat3("- name: ", name,
        "\n          image: example.com/dpcs-step:scaffold\n          command: [\"/bin/true\"]\n          env:\n            - name: DPCS_STEP_ID\n              value: \"");
    push_str(&mut out, PlanView::yaml_string(step_id).as_str());
    push_str(&mut out, "\"\n            - name: DPCS_CONTRACT_ID\n              value: \"");
    push_str(&mut out, PlanView::yaml_string(contract_id).as_str());
    push_str(&mut out, "\"\n");
    out
}

fn step_container_exec(view: &PlanView, names: &NameMap, id: &str) -> (r: String)
    requires
        names.keys() == k8s_keys(*view.plan),
        names.names() == k8s_names(*view.plan),
        names.keys().contains(id@),
    ensures
        r@ == step_container(*view.plan, id@),
{
    let n = name_of(names, id);
    container_block(n.as_str(), id, view.contract_id())
}

/// The pod spec of the workload, running the steps in plan order.
fn ordered_pod_spec(view: &PlanView, names: &NameMap, pipeline_name: &str) -> (r: String)
    requires
        names.keys() == k8s_keys(*view.plan),
        names.names() == k8s_names(*view.plan),
    ensures
        r@ == pod_spec_text(*view.plan, pipeline_name@),
{
    let p = view.plan;
    let order = view.step_order();
    let ghost ids = texts(p.step_order@);
    if order.len() == 0 {
        let noop = concat3(pipeline_name, "-noop", "");
        proof { reveal_strlit(""); }
        let mut out = String::from_str("restartPolicy: Never\n      containers:\n");
        push_str(&mut out, container_block(noop.as_str(), "noop", view.contract_id()).as_str());
        return out;
    }
    if order.len() == 1 {
        proof {
            lemma_with_extras_keeps(ids, seq![p.contract_id@], 0);
            assert(ids[0] == order@[0]@);
        }
        let mut out = String::from_str("restartPolicy: Never\n      containers:\n");
        push_str(&mut out, step_container_exec(view, names, order[0].as_str()).as_str());
        return out;
    }
    let mut out = String::from_str("restartPolicy: Never\n      initContainers:\n");
    let ghost head = out@;
    let last = order.len() - 1;
    let ghost init = ids.drop_last().map_values(|id: Seq<char>| step_container(*p, id));
    let mut i: usize = 0;
    while i < last
        invariant
            i <= last,
            last == order@.len() - 1,
            p == view.plan,
            order == &p.step_order,
            ids == texts(p.step_order@),
            names.keys() == k8s_keys(*p),
            names.names() == k8s_names(*p),
            init == ids.drop_last().map_values(|id: Seq<char>| step_container(*p, id)),
            out@ == head + concat(init.take(i as int)),
        decreases last - i,
    {
        proof {
            lemma_with_extras_keeps(ids, seq![p.contract_id@], i as int);
            assert(ids[i as int] == order@[i as int]@);
        }
        let c = step_container_exec(view, names, order[i].as_str());
        push_str(&mut out, c.as_str());
        proof {
            assert(init[i as int] == c@);
            assert(init.take(i + 1).drop_last() =~= init.take(i as int));
        }
        i += 1;
    }
    assert(init.take(init.len() as int) =~= init);
    push_str(&mut out, "      containers:\n");
    proof {
        lemma_with_extras_keeps(ids, seq![p.contract_id@], last as int);
        assert(ids[last as int] == order@[last as int]@);
        assert(ids.last() == ids[last as int]);
    }
    push_str(&mut out, step_container_exec(view, names, order[last].as_str()).as_str());
    out
}

/// The Job manifest of the plan.
fn job_yaml(view: &PlanView, name: &str, names: &NameMap) -> (r: String)
    requires
        names.keys() == k8s_keys(*view.plan),
        names.names() == k8s_names(*view.plan),
    ensures
        r@ == job_text(*view.plan, name@),
{
    let label = PlanView::k8s_name(view.contract_id());
    let mut out = concat3(
        "# DPCS Kubernetes Job scaffold (experimental)\n# Steps run sequentially via initContainers + main container (topology linearized by step_order).\napiVersion: batch/v1\nkind: Job\nmetadata:\n  name: ",
        name, "\n  labels:\n    app.kubernetes.io/managed-by: dpcs\n    dpcs.io/contract-id: \"");
    push_str(&mut out, label.as_str());
    push_str(&mut out, "\"\nspec:\n  template:\n    metadata:\n      labels:\n        dpcs.io/contract-id: \"");
    push_str(&mut out, label.as_str());
    push_str(&mut out, "\"\n    spec:\n");
    push_str(&mut out, ordered_pod_spec(view, names, name).as_str());
    push_str(&mut out, "\n");
    out
}

/// The CronJob manifest of the plan, scheduled by `cron`.
fn cronjob_yaml(view: &PlanView, name: &str, names: &NameMap, cron: &str) -> (r: String)
    requires
        names.keys() == k8s_keys(*view.plan),
        names.names() == k8s_names(*view.plan),
    ensures
        r@ == cronjob_text(*view.plan, name@, cron@),
{
    let label = PlanView::k8s_name(view.contract_id());
    let mut out = concat3(
        "# DPCS Kubernetes CronJob scaffold (experimental)\n# Steps run sequentially via initContainers + main container (topology linearized by step_order).\napiVersion: batch/v1\nkind: CronJob\nmetadata:\n  name: ",
        name, "\n  labels:\n    app.kubernetes.io/managed-by: dpcs\n    dpcs.io/contract-id: \"");
    push_str(&mut out, label.as_str());
    push_str(&mut out, "\"\nspec:\n  schedule: \"");
    push_str(&mut out, PlanView::yaml_string(cron).as_str());
    push_str(&mut out, "\"\n");
    let ghost a = out@;
    match view.primary_timezone() {
        Some(tz) => {
            push_str(&mut out, "  timeZone: \"");
            push_str(&mut out, PlanView::yaml_string(tz).as_str());
            push_str(&mut out, "\"\n");
        },
        None => {},
    }
    assert(out@ =~= a + timezone_line(*view.plan));
    let ghost b = out@;
    push_str(&mut out, "  concurrencyPolicy: Forbid\n  jobTemplate:\n    spec:\n      template:\n        metadata:\n          labels:\n            dpcs.io/contract-id: \"");
    push_str(&mut out, label.as_str());
    push_str(&mut out, "\"\n        spec:\n");
    push_str(&mut out, ordered_pod_spec(view, names, name).as_str());
    push_str(&mut out, "\n");
    assert(out@ =~= cronjob_text(*view.plan, name@, cron@));
    out
}

fn push_line(lines: &mut Vec<String>, line: String)
    ensures
        texts(final(lines)@) == texts(old(lines)@).push(line@),
{
    lines.push(line);
    assert(texts(lines@) =~= texts(old(lines)@).push(line@));
}

fn quoted(prefix: &str, raw: &str) -> (r: String)
    ensures
        r@ == prefix@ + yq(raw@) + "\""@,
{
    concat3(prefix, PlanView::yaml_string(raw).as_str(), "\"")
}

/// The plan summary kept in the ConfigMap, line by line.
fn plan_summary_lines(view: &PlanView) -> (r: Vec<String>)
    ensures
        texts(r@) == summary_lines(*view.plan),
{
    let p = view.plan;
    let mut lines: Vec<String> = Vec::new();
    push_line(&mut lines, quoted("contractId: \"", view.contract_id()));
    push_line(&mut lines, String::from_str("steps:"));
    let ghost head = texts(lines@);
    let order = view.step_order();
    let mut i: usize = 0;
    while i < order.len()
        invariant
            i <= order@.len(),
            p == view.plan,
            order == &p.step_order,
            texts(lines@) == head + step_summary(*p, texts(p.step_order@).take(i as int)),
        decreases order.len() - i,
    {
        let id = order[i].as_str();
        let (step_type, contract) = step_facts(view, id);
        push_line(&mut lines, quoted("  - id: \"", id));
        push_line(&mut lines, quoted("    type: \"", step_type.as_str()));
        push_line(&mut lines, quoted("    contractRef: \"", contract.as_str()));
        proof {
            let t = texts(p.step_order@).take(i + 1);
            assert(t.drop_last() =~= texts(p.step_order@).take(i as int));
            assert(t.last() == id@);
        }
        i += 1;
    }
    assert(texts(p.step_order@).take(order@.len() as int) =~= texts(p.step_order@));
    let ghost mid = texts(lines@);
    let gates = view.quality_gates();
    if gates.len() > 0 {
        push_line(&mut lines, String::from_str("qualityGates:"));
        let ghost g0 = texts(lines@);
        let ghost all = p.quality_gates@.map_values(|g: QualityGate| "  - \""@ + yq(g.id@) + "\""@);
        let mut j: usize = 0;
        while j < gates.len()
            invariant
                j <= gates@.len(),
                gates == &p.quality_gates,
                all == p.quality_gates@.map_values(|g: QualityGate| "  - \""@ + yq(g.id@) + "\""@),
                texts(lines@) == g0 + all.take(j as int),
            decreases gates.len() - j,
        {
            push_line(&mut lines, quoted("  - \"", gates[j].id.as_str()));
            assert(all.take(j + 1) =~= all.take(j as int).push(all[j as int]));
            j += 1;
        }
        assert(all.take(all.len() as int) =~= all);
    }
    let ghost mid2 = texts(lines@);
    let failures = view.failure_semantics();
    if failures.len() > 0 {
        push_line(&mut lines, String::from_str("failureSemantics:"));
        let ghost f0 = texts(lines@);
        let ghost all = p.failure_semantics@.map_values(|f: FailureSemantics| "  - \""@ + yq(f.id@) + "\""@);
        let mut j: usize = 0;
        while j < failures.len()
            invariant
                j <= failures@.len(),
                failures == &p.failure_semantics,
                all == p.failure_semantics@.map_values(|f: FailureSemantics| "  - \""@ + yq(f.id@) + "\""@),
                texts(lines@) == f0 + all.take(j as int),
            decreases failures.len() - j,
        {
            push_line(&mut lines, quoted("  - \"", failures[j].id.as_str()));
            assert(all.take(j + 1) =~= all.take(j as int).push(all[j as int]));
            j += 1;
        }
        assert(all.take(all.len() as int) =~= all);
    }
    assert(texts(lines@) =~= summary_lines(*p));
    lines
}

/// Lines indented by four spaces and joined with line breaks.
fn indented_lines(lines: &Vec<String>) -> (r: String)
    ensures
        r@ == join(texts(lines@).map_values(|l: Seq<char>| "    "@ + l), "\n"@),
{
    let mut padded: Vec<String> = Vec::new();
    let mut i: usize = 0;
    while i < lines.len()
        invariant
            i <= lines@.len(),
            texts(padded@) == texts(lines@).take(i as int).map_values(|l: Seq<char>| "    "@ + l),
        decreases lines.len() - i,
    {
        push_line(&mut padded, concat3("    ", lines[i].as_str(), ""));
        proof {
            reveal_strlit("");
            assert(texts(lines@).take(i + 1).map_values(|l: Seq<char>| "    "@ + l)
                =~= texts(lines@).take(i as int).map_values(|l: Seq<char>| "    "@ + l).push("    "@ + lines@[i as int]@));
        }
        i += 1;
    }
    assert(texts(lines@).take(lines@.len() as int) =~= texts(lines@));
    assert(texts(padded@) =~= padded@.map_values(|s: String| s@));
    join_strings(&padded, "\n")
}

fn edges_csv(view: &PlanView) -> (r: String)
    ensures
        r@ == join(view.plan.dependency_edges@.map_values(|e: PlanDependencyEdge| edge_text(e)), ","@),
{
    let edges = view.dependency_edges();
    let mut parts: Vec<String> = Vec::new();
    let mut i: usize = 0;
    while i < edges.len()
        invariant
            i <= edges@.len(),
            edges == &view.plan.dependency_edges,
            texts(parts@) == edges@.take(i as int).map_values(|e: PlanDependencyEdge| edge_text(e)),
        decreases edges.len() - i,
    {
        push_line(&mut parts, concat3(edges[i].from.as_str(), "->", edges[i].to.as_str()));
        assert(edges@.take(i + 1).map_values(|e: PlanDependencyEdge| edge_text(e))
            =~= edges@.take(i as int).map_values(|e: PlanDependencyEdge| edge_text(e)).push(edge_text(edges@[i as int])));
        i += 1;
    }
    assert(edges@.take(edges@.len() as int) =~= edges@);
    assert(texts(parts@) =~= parts@.map_values(|s: String| s@));
    join_strings(&parts, ",")
}

/// The scaffold's name for the pipeline itself.
pub open spec fn pipeline_name(p: PipelinePlan) -> Seq<char> {
    k8s_of(p, p.contract_id@)
}

/// The ConfigMap describing the plan, at `pipeline-configmap.yaml`.
pub fn configmap_file(view: &PlanView) -> (r: BindingFile)
    ensures
        r.relative_path@ == "pipeline-configmap.yaml"@,
        r.media_type@ == "application/yaml"@,
        r.content@ == configmap_text(*view.plan, view.ctx.profile_identity@, pipeline_name(*view.plan)),
{
    let p = view.plan;
    let names = k8s_names_of(view);
    proof { lemma_contract_named(*p); }
    let name = name_of(&names, view.contract_id());
    let mut out = concat3("# DPCS Kubernetes scaffold (experimental)\napiVersion: v1\nkind: ConfigMap\nmetadata:\n  name: ", name.as_str(),
        "-plan\n  labels:\n    app.kubernetes.io/managed-by: dpcs\n    dpcs.io/contract-id: \"");
    push_str(&mut out, PlanView::k8s_name(view.contract_id()).as_str());
    push_str(&mut out, "\"\n    dpcs.io/contract-version: \"");
    push_str(&mut out, PlanView::k8s_name(view.contract_version()).as_str());
    push_str(&mut out, "\"\n    dpcs.io/profile: \"");
    push_str(&mut out, PlanView::k8s_name(view.profile_identity()).as_str());
    let ghost a = out@;
    push_str(&mut out, "\"\ndata:\n  contractId: \"");
    push_str(&mut out, PlanView::yaml_string(view.contract_id()).as_str());
    push_str(&mut out, "\"\n  contractVersion: \"");
    push_str(&mut out, PlanView::yaml_string(view.contract_version()).as_str());
    push_str(&mut out, "\"\n  profileIdentity: \"");
    push_str(&mut out, PlanView::yaml_string(view.profile_identity()).as_str());
    push_str(&mut out, "\"\n  dpcsVersion: \"");
    push_str(&mut out, PlanView::yaml_string(p.dpcs_version.as_str()).as_str());
    let ghost b = out@;
    let order_csv = join_strings(view.step_order(), ",");
    assert(texts(p.step_order@) =~= p.step_order@.map_values(|s: String| s@));
    push_str(&mut out, "\"\n  stepOrder: \"");
    push_str(&mut out, PlanView::yaml_string(order_csv.as_str()).as_str());
    push_str(&mut out, "\"\n  dependencyEdges: \"");
    push_str(&mut out, PlanView::yaml_string(edges_csv(view).as_str()).as_str());
    push_str(&mut out, "\"\n  planSummary: |\n");
    push_str(&mut out, indented_lines(&plan_summary_lines(view)).as_str());
    push_str(&mut out, "\n");
    assert(out@ =~= configmap_text(*p, view.ctx.profile_identity@, pipeline_name(*p)));
    yaml_file("pipeline-configmap.yaml", out)
}

/// The workload: a CronJob at `cronjob.yaml` when the plan is scheduled by
/// cron, otherwise a Job at `job.yaml`.
pub fn workload_file(view: &PlanView) -> (r: BindingFile)
    ensures
        r.media_type@ == "application/yaml"@,
        match first_cron(view.plan.scheduling@) {
            Some(cron) => r.relative_path@ == "cronjob.yaml"@
                && r.content@ == cronjob_text(*view.plan, pipeline_name(*view.plan), cron),
            None => r.relative_path@ == "job.yaml"@ && r.content@ == job_text(*view.plan, pipeline_name(*view.plan)),
        },
{
    let names = k8s_names_of(view);
    proof { lemma_contract_named(*view.plan); }
    let name = name_of(&names, view.contract_id());
    match view.primary_cron() {
        Some(cron) => yaml_file("cronjob.yaml", cronjob_yaml(view, name.as_str(), &names, cron)),
        None => yaml_file("job.yaml", job_yaml(view, name.as_str(), &names)),
    }
}

} // verus!
