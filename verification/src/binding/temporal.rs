//! Temporal scaffold (experimental): one activity per step and a workflow
//! awaiting them in plan order, noting each step's predecessors.
use vstd::prelude::*;

use super::artifact::BindingFile;
use super::common::{header_lines, python_file, with_extras, PlanView};
use super::dagster::{pq, pred_list};
use super::names::{assign_names, python_class_name_spec, python_ident_spec, NameMap};
use super::scaffold::{lemma_with_extras_keeps, name_for, name_of, step_facts, step_ref_of};
use crate::diagnostics::texts;
use crate::plan::PipelinePlan;
use crate::report::markdown::concat;
use crate::text::{concat3, join, join_strings, lemma_sorted_set_unique, push_str};

verus! {

/// Identifiers named by the workflow: the step order.
pub open spec fn activity_keys(p: PipelinePlan) -> Seq<Seq<char>> {
    with_extras(texts(p.step_order@), Seq::empty())
}

/// Unique Python identifiers of the steps.
pub open spec fn activity_names(p: PipelinePlan) -> Seq<Seq<char>> {
    assign_names(activity_keys(p).map_values(|s: Seq<char>| python_ident_spec(s)))
}

/// Python name of a step.
pub open spec fn act_name(p: PipelinePlan, id: Seq<char>) -> Seq<char> {
    name_for(activity_keys(p), activity_names(p), id)
}

/// The activity of one step.
pub open spec fn activity_block(p: PipelinePlan, id: Seq<char>) -> Seq<char> {
    "@activity.defn(name=\""@ + pq(id) + "\")\nasync def "@ + act_name(p, id) + "_activity() -> None:\n    \"\"\"DPCS step "@
        + pq(id) + " contractRef="@ + pq(step_ref_of(p, id)) + ".\"\"\"\n    return None\n\n"@
}

/// Awaiting the activity of one step.
pub open spec fn await_block(p: PipelinePlan, id: Seq<char>) -> Seq<char> {
    "        await workflow.execute_activity(\n            "@ + act_name(p, id)
        + "_activity,\n            start_to_close_timeout=timedelta(minutes=30),\n        )\n"@
}

/// Awaiting one step, preceded by a note naming its predecessors.
pub open spec fn ordered_await(p: PipelinePlan, id: Seq<char>) -> Seq<char> {
    (if pred_list(p, id).len() > 0 {
        "        # waits for: "@ + join(pred_list(p, id), ", "@) + "\n"@
    } else {
        Seq::empty()
    }) + await_block(p, id)
}

/// The body of the workflow's `run`.
pub open spec fn run_body(p: PipelinePlan) -> Seq<char> {
    let order = texts(p.step_order@);
    if order.len() == 0 {
        "        return None\n"@
    } else if p.dependency_edges@.len() == 0 {
        "        # Independent activities: sequential awaits are a linearization only.\n"@
            + concat(order.map_values(|id: Seq<char>| await_block(p, id)))
    } else {
        "        # Await activities in topologic step_order; edges are enforced by sequencing.\n"@
            + concat(order.map_values(|id: Seq<char>| ordered_await(p, id)))
    }
}

/// The Temporal workflow module.
pub open spec fn workflow_source(p: PipelinePlan, profile: Seq<char>) -> Seq<char> {
    join(header_lines(p, profile, "Temporal (experimental)"@), "\n"@) + "\n"@
        + "from datetime import timedelta\n\nfrom temporalio import activity, workflow\n\n"@
        + concat(texts(p.step_order@).map_values(|id: Seq<char>| activity_block(p, id)))
        + "@workflow.defn(name=\""@ + pq(p.contract_id@) + "\")\nclass "@ + python_class_name_spec(p.contract_id@)
        + ":\n    @workflow.run\n    async def run(self) -> None:\n"@ + run_body(p)
}

fn activity_names_of(view: &PlanView) -> (r: NameMap)
    ensures
        r.keys() == activity_keys(*view.plan),
        r.names() == activity_names(*view.plan),
{
    let extras: Vec<&str> = Vec::new();
    assert(extras@.map_values(|e: &str| e@) =~= Seq::<Seq<char>>::empty());
    view.unique_python_idents(extras.as_slice())
}

fn activity_block_exec(view: &PlanView, names: &NameMap, id: &str) -> (r: String)
    requires
        names.keys() == activity_keys(*view.plan),
        names.names() == activity_names(*view.plan),
        names.keys().contains(id@),
    ensures
        r@ == activity_block(*view.plan, id@),
{
    let fn_name = name_of(names, id);
    let (_step_type, contract) = step_facts(view, id);
    let mut out = concat3("@activity.defn(name=\"", PlanView::py_string(id).as_str(), "\")\nasync def ");
    push_str(&mut out, fn_name.as_str());
    push_str(&mut out, "_activity() -> None:\n    \"\"\"DPCS step ");
    push_str(&mut out, PlanView::py_string(id).as_str());
    push_str(&mut out, " contractRef=");
    push_str(&mut out, PlanView::py_string(contract.as_str()).as_str());
    push_str(&mut out, ".\"\"\"\n    return None\n\n");
    out
}

fn await_block_exec(view: &PlanView, names: &NameMap, id: &str) -> (r: String)
    requires
        names.keys() == activity_keys(*view.plan),
        names.names() == activity_names(*view.plan),
        names.keys().contains(id@),
    ensures
        r@ == await_block(*view.plan, id@),
{
    let fn_name = name_of(names, id);
    concat3("        await workflow.execute_activity(\n            ", fn_name.as_str(),
        "_activity,\n            start_to_close_timeout=timedelta(minutes=30),\n        )\n")
}

fn waits_for(view: &PlanView, id: &str) -> (r: String)
    ensures
        r@ == (if pred_list(*view.plan, id@).len() > 0 {
            "        # waits for: "@ + join(pred_list(*view.plan, id@), ", "@) + "\n"@
        } else {
            Seq::<char>::empty()
        }),
{
    let preds = view.predecessors(id);
    proof {
        lemma_sorted_set_unique(pred_list(*view.plan, id@), texts(preds@));
    }
    if preds.len() == 0 {
        return String::new();
    }
    let joined = join_strings(&preds, ", ");
    assert(texts(preds@) =~= preds@.map_values(|s: String| s@));
    concat3("        # waits for: ", joined.as_str(), "\n")
}

/// The Temporal workflow module of a plan, at `workflow.py`.
pub fn workflow_file(view: &PlanView) -> (r: BindingFile)
    ensures
        r.relative_path@ == "workflow.py"@,
        r.media_type@ == "text/x-python"@,
        r.content@ == workflow_source(*view.plan, view.ctx.profile_identity@),
{
    let p = view.plan;
    let names = activity_names_of(view);
    let mut body = view.header_comment("Temporal (experimental)");
    push_str(&mut body, "\n");
    push_str(&mut body, "from datetime import timedelta\n\nfrom temporalio import activity, workflow\n\n");
    let ghost head = body@;
    let order = view.step_order();
    let ghost ids = texts(p.step_order@);
    let ghost acts = ids.map_values(|id: Seq<char>| activity_block(*p, id));
    let mut i: usize = 0;
    while i < order.len()
        invariant
            i <= order@.len(),
            p == view.plan,
            order == &p.step_order,
            ids == texts(p.step_order@),
            names.keys() == activity_keys(*p),
            names.names() == activity_names(*p),
            acts == ids.map_values(|id: Seq<char>| activity_block(*p, id)),
            body@ == head + concat(acts.take(i as int)),
        decreases order.len() - i,
    {
        proof {
            lemma_with_extras_keeps(ids, Seq::empty(), i as int);
            assert(ids[i as int] == order@[i as int]@);
        }
        let block = activity_block_exec(view, &names, order[i].as_str());
        push_str(&mut body, block.as_str());
        proof {
            assert(acts.take(i + 1).drop_last() =~= acts.take(i as int));
        }
        i += 1;
    }
    assert(acts.take(acts.len() as int) =~= acts);
    push_str(&mut body, "@workflow.defn(name=\"");
    push_str(&mut body, PlanView::py_string(view.contract_id()).as_str());
    push_str(&mut body, "\")\nclass ");
    push_str(&mut body, PlanView::python_class_name(view.contract_id()).as_str());
    push_str(&mut body, ":\n    @workflow.run\n    async def run(self) -> None:\n");
    let ghost rstart = body@;
    if order.len() == 0 {
        push_str(&mut body, "        return None\n");
    } else {
        let wired = view.dependency_edges().len() > 0;
        if wired {
            push_str(&mut body, "        # Await activities in topologic step_order; edges are enforced by sequencing.\n");
        } else {
            push_str(&mut body, "        # Independent activities: sequential awaits are a linearization only.\n");
        }
        let ghost astart = body@;
        let ghost waits = if wired {
            ids.map_values(|id: Seq<char>| ordered_await(*p, id))
        } else {
            ids.map_values(|id: Seq<char>| await_block(*p, id))
        };
        let mut k: usize = 0;
        while k < order.len()
            invariant
                k <= order@.len(),
                p == view.plan,
                order == &p.step_order,
                ids == texts(p.step_order@),
                wired == (p.dependency_edges@.len() > 0),
                names.keys() == activity_keys(*p),
                names.names() == activity_names(*p),
                waits == if wired {
                    ids.map_values(|id: Seq<char>| ordered_await(*p, id))
                } else {
                    ids.map_values(|id: Seq<char>| await_block(*p, id))
                },
                body@ == astart + concat(waits.take(k as int)),
            decreases order.len() - k,
        {
            let id = order[k].as_str();
            proof {
                lemma_with_extras_keeps(ids, Seq::empty(), k as int);
                assert(ids[k as int] == id@);
            }
            let ghost before = body@;
            if wired {
                push_str(&mut body, waits_for(view, id).as_str());
            }
            push_str(&mut body, await_block_exec(view, &names, id).as_str());
            proof {
                assert(body@ =~= before + waits[k as int]);
                assert(waits.take(k + 1).drop_last() =~= waits.take(k as int));
            }
            k += 1;
        }
        assert(waits.take(waits.len() as int) =~= waits);
    }
    assert(body@ =~= rstart + run_body(*p));
    assert(body@ =~= workflow_source(*p, view.ctx.profile_identity@));
    python_file("workflow.py", body)
}

} // verus!
