//! Dagster scaffold: one op per step and a graph wiring each op to the
//! results of its predecessors along the plan's dependency edges.
use vstd::prelude::*;

use super::airflow::{lemma_contract_named, py_name, python_keys, python_names};
use super::artifact::BindingFile;
use super::common::{header_lines, is_predecessor, python_file, PlanView};
use super::names::{escape, NameMap};
use super::scaffold::{lemma_with_extras_keeps, name_of, step_facts, step_ref_of, step_type_of};
use crate::diagnostics::texts;
use crate::plan::PipelinePlan;
use crate::report::markdown::{concat, lemma_concat_holds};
use crate::text::{concat3, encloses, lemma_encloses_wrap, join, lemma_sorted_set_unique, push_str, strictly_sorted};

verus! {

/// The predecessors of step `id`: the sources of its incoming dependency
/// edges, sorted and without repeats.
pub open spec fn pred_list(p: PipelinePlan, id: Seq<char>) -> Seq<Seq<char>> {
    choose|s: Seq<Seq<char>>| strictly_sorted(s)
        && s.to_set() == Set::new(|x: Seq<char>| is_predecessor(p.dependency_edges@, id, x))
}

/// Python escape.
pub open spec fn pq(s: Seq<char>) -> Seq<char> {
    escape(s)
}

/// The op decorator of one step and the start of its definition.
pub open spec fn op_head(p: PipelinePlan, id: Seq<char>) -> Seq<char> {
    "@op(name=\""@ + pq(id) + "\", tags={\"dpcs.contractRef\": \""@ + pq(step_ref_of(p, id))
        + "\", \"dpcs.stepType\": \""@ + pq(step_type_of(p, id)) + "\"})\ndef "@ + py_name(p, id)
}

/// The body of the op of one step.
pub open spec fn op_tail(id: Seq<char>) -> Seq<char> {
    "    context.log.info(\"DPCS step "@ + pq(id) + "\")\n    return True\n\n"@
}

/// The op of one step; it takes the upstream results when the step has a
/// predecessor.
pub open spec fn op_block(p: PipelinePlan, id: Seq<char>) -> Seq<char> {
    op_head(p, id)
        + (if pred_list(p, id).len() == 0 {
            "_op(context: OpExecutionContext):\n"@
        } else {
            "_op(context: OpExecutionContext, upstream):\n"@
        })
        + op_tail(id)
}

/// Arguments of an op call in the graph: nothing, the one predecessor's
/// result, or the list of the predecessors' results.
pub open spec fn call_args(p: PipelinePlan, id: Seq<char>) -> Seq<char> {
    let preds = pred_list(p, id);
    if preds.len() == 0 {
        ")"@
    } else if preds.len() == 1 {
        py_name(p, preds[0]) + "_result)"@
    } else {
        "["@ + join(preds.map_values(|x: Seq<char>| py_name(p, x) + "_result"@), ", "@) + "])"@
    }
}

/// A graph line calling the op of step `id` on its predecessors' results.
pub open spec fn wired_call(p: PipelinePlan, id: Seq<char>) -> Seq<char> {
    "    "@ + py_name(p, id) + "_result = "@ + py_name(p, id) + "_op("@ + call_args(p, id) + "\n"@
}

/// A graph line calling the op of step `id` on nothing.
pub open spec fn entry_call(p: PipelinePlan, id: Seq<char>) -> Seq<char> {
    "    "@ + py_name(p, id) + "_result = "@ + py_name(p, id) + "_op()"@ + "\n"@
}

/// The graph body: `pass` with no steps; with no dependency edges every op
/// as an independent entry; otherwise every op wired to its predecessors.
pub open spec fn graph_body(p: PipelinePlan) -> Seq<char> {
    let order = texts(p.step_order@);
    if order.len() == 0 {
        "    pass\n"@
    } else if p.dependency_edges@.len() == 0 {
        concat(order.map_values(|id: Seq<char>| entry_call(p, id)))
    } else {
        concat(order.map_values(|id: Seq<char>| wired_call(p, id)))
    }
}

/// The Dagster definitions module.
pub open spec fn definitions_source(p: PipelinePlan, profile: Seq<char>) -> Seq<char> {
    let job = py_name(p, p.contract_id@);
    join(header_lines(p, profile, "Dagster"@), "\n"@) + "\n"@
        + "from dagster import Definitions, OpExecutionContext, graph, op\n\n"@
        + concat(texts(p.step_order@).map_values(|id: Seq<char>| op_block(p, id)))
        + "@graph(name=\""@ + pq(job) + "_graph\")\ndef "@ + job + "_graph():\n"@ + graph_body(p)
        + "\n"@ + job + "_job = "@ + job + "_graph.to_job(name=\""@ + pq(job) + "\")\n\ndefs = Definitions(jobs=["@ + job
        + "_job])\n"@
}

/// Whether every dependency edge into a planned step comes from an
/// identifier the module names (a step in the plan order or the contract).
pub open spec fn sources_named(p: PipelinePlan) -> bool {
    forall|i: int| 0 <= i < p.dependency_edges@.len() && texts(p.step_order@).contains(#[trigger] p.dependency_edges@[i].to@)
        ==> python_keys(p).contains(p.dependency_edges@[i].from@)
}

fn preds_of(view: &PlanView, id: &str) -> (r: Vec<String>)
    ensures
        texts(r@) == pred_list(*view.plan, id@),
        forall|k: int| 0 <= k < r@.len() ==> is_predecessor(view.plan.dependency_edges@, id@, #[trigger] texts(r@)[k]),
{
    let r = view.predecessors(id);
    proof {
        let set = Set::new(|x: Seq<char>| is_predecessor(view.plan.dependency_edges@, id@, x));
        assert(strictly_sorted(texts(r@)) && texts(r@).to_set() == set);
        let c = pred_list(*view.plan, id@);
        lemma_sorted_set_unique(c, texts(r@));
        assert forall|k: int| 0 <= k < r@.len() implies is_predecessor(view.plan.dependency_edges@, id@, #[trigger] texts(r@)[k]) by {
            assert(texts(r@).to_set().contains(texts(r@)[k]));
        }
    }
    r
}

proof fn lemma_pred_named(p: PipelinePlan, id: Seq<char>, x: Seq<char>)
    requires
        sources_named(p),
        texts(p.step_order@).contains(id),
        is_predecessor(p.dependency_edges@, id, x),
    ensures
        python_keys(p).contains(x),
{
    let i = choose|i: int| 0 <= i < p.dependency_edges@.len() && p.dependency_edges@[i].to@ == id
        && p.dependency_edges@[i].from@ == x;
    assert(python_keys(p).contains(p.dependency_edges@[i].from@));
}

fn op_block_exec(view: &PlanView, names: &NameMap, id: &str) -> (r: String)
    requires
        names.keys() == python_keys(*view.plan),
        names.names() == python_names(*view.plan),
        names.keys().contains(id@),
    ensures
        r@ == op_block(*view.plan, id@),
{
    let fn_name = name_of(names, id);
    let (step_type, contract) = step_facts(view, id);
    let preds = preds_of(view, id);
    let mut out = concat3("@op(name=\"", PlanView::py_string(id).as_str(), "\", tags={\"dpcs.contractRef\": \"");
    push_str(&mut out, PlanView::py_string(contract.as_str()).as_str());
    push_str(&mut out, "\", \"dpcs.stepType\": \"");
    push_str(&mut out, PlanView::py_string(step_type.as_str()).as_str());
    push_str(&mut out, "\"})\ndef ");
    push_str(&mut out, fn_name.as_str());
    let ghost a = out@;
    if preds.len() == 0 {
        push_str(&mut out, "_op(context: OpExecutionContext):\n");
    } else {
        push_str(&mut out, "_op(context: OpExecutionContext, upstream):\n");
    }
    push_str(&mut out, "    context.log.info(\"DPCS step ");
    push_str(&mut out, PlanView::py_string(id).as_str());
    push_str(&mut out, "\")\n    return True\n\n");
    assert(out@ =~= op_block(*view.plan, id@));
    out
}

fn call_args_exec(view: &PlanView, names: &NameMap, id: &str) -> (r: String)
    requires
        names.keys() == python_keys(*view.plan),
        names.names() == python_names(*view.plan),
        sources_named(*view.plan),
        texts(view.plan.step_order@).contains(id@),
    ensures
        r@ == call_args(*view.plan, id@),
{
    proof {
        reveal_strlit(")");
        reveal_strlit("");
    }
    let p = view.plan;
    let preds = preds_of(view, id);
    let ghost ps = texts(preds@);
    if preds.len() == 0 {
        return String::from_str(")");
    }
    if preds.len() == 1 {
        proof { lemma_pred_named(*p, id@, ps[0]); }
        let n = name_of(names, preds[0].as_str());
        return concat3(n.as_str(), "_result)", "");
    }
    let ghost items = ps.map_values(|x: Seq<char>| py_name(*p, x) + "_result"@);
    let mut out = String::from_str("[");
    let mut i: usize = 0;
    while i < preds.len()
        invariant
            i <= preds@.len(),
            p == view.plan,
            ps == texts(preds@),
            ps == pred_list(*p, id@),
            forall|k: int| 0 <= k < preds@.len() ==> is_predecessor(p.dependency_edges@, id@, #[trigger] texts(preds@)[k]),
            sources_named(*p),
            texts(p.step_order@).contains(id@),
            names.keys() == python_keys(*p),
            names.names() == python_names(*p),
            items == ps.map_values(|x: Seq<char>| py_name(*p, x) + "_result"@),
            out@ == "["@ + join(items.take(i as int), ", "@),
        decreases preds.len() - i,
    {
        if i > 0 {
            push_str(&mut out, ", ");
        }
        proof {
            assert(is_predecessor(p.dependency_edges@, id@, texts(preds@)[i as int]));
            lemma_pred_named(*p, id@, ps[i as int]);
        }
        let n = name_of(names, preds[i].as_str());
        push_str(&mut out, n.as_str());
        push_str(&mut out, "_result");
        proof {
            assert(items.take(i + 1).drop_last() =~= items.take(i as int));
            if i == 0 {
                assert(items.take(1) =~= seq![items[0]]);
            }
        }
        i += 1;
    }
    assert(items.take(items.len() as int) =~= items);
    push_str(&mut out, "])");
    proof { reveal_strlit(""); }
    out
}

/// The Dagster definitions module of a plan, at `definitions.py`.
pub fn definitions_file(view: &PlanView) -> (r: BindingFile)
    requires
        sources_named(*view.plan),
    ensures
        r.relative_path@ == "definitions.py"@,
        r.media_type@ == "text/x-python"@,
        r.content@ == definitions_source(*view.plan, view.ctx.profile_identity@),
{
    let p = view.plan;
    let extras: Vec<&str> = vec![view.contract_id()];
    assert(extras@.map_values(|e: &str| e@) =~= seq![p.contract_id@]);
    let names = view.unique_python_idents(extras.as_slice());
    proof { lemma_contract_named(*p); }
    let job = name_of(&names, view.contract_id());
    let mut body = view.header_comment("Dagster");
    push_str(&mut body, "\n");
    push_str(&mut body, "from dagster import Definitions, OpExecutionContext, graph, op\n\n");
    let ghost head = body@;
    let order = view.step_order();
    let ghost ids = texts(p.step_order@);
    let ghost ops = ids.map_values(|id: Seq<char>| op_block(*p, id));
    let mut i: usize = 0;
    while i < order.len()
        invariant
            i <= order@.len(),
            p == view.plan,
            order == &p.step_order,
            ids == texts(p.step_order@),
            names.keys() == python_keys(*p),
            names.names() == python_names(*p),
            ops == ids.map_values(|id: Seq<char>| op_block(*p, id)),
            body@ == head + concat(ops.take(i as int)),
        decreases order.len() - i,
    {
        proof {
            lemma_with_extras_keeps(ids, seq![p.contract_id@], i as int);
            assert(ids[i as int] == order@[i as int]@);
        }
        let block = op_block_exec(view, &names, order[i].as_str());
        push_str(&mut body, block.as_str());
        proof {
            assert(ops.take(i + 1).drop_last() =~= ops.take(i as int));
        }
        i += 1;
    }
    assert(ops.take(ops.len() as int) =~= ops);
    let ghost mid = body@;
    push_str(&mut body, "@graph(name=\"");
    push_str(&mut body, PlanView::py_string(job.as_str()).as_str());
    push_str(&mut body, "_graph\")\ndef ");
    push_str(&mut body, job.as_str());
    push_str(&mut body, "_graph():\n");
    let ghost gstart = body@;
    if order.len() == 0 {
        push_str(&mut body, "    pass\n");
    } else {
        let wired = view.dependency_edges().len() > 0;
        let ghost calls = if wired {
            ids.map_values(|id: Seq<char>| wired_call(*p, id))
        } else {
            ids.map_values(|id: Seq<char>| entry_call(*p, id))
        };
        let mut k: usize = 0;
        while k < order.len()
            invariant
                k <= order@.len(),
                p == view.plan,
                order == &p.step_order,
                ids == texts(p.step_order@),
                sources_named(*p),
                wired == (p.dependency_edges@.len() > 0),
                names.keys() == python_keys(*p),
                names.names() == python_names(*p),
                calls == if wired {
                    ids.map_values(|id: Seq<char>| wired_call(*p, id))
                } else {
                    ids.map_values(|id: Seq<char>| entry_call(*p, id))
                },
                body@ == gstart + concat(calls.take(k as int)),
            decreases order.len() - k,
        {
            let id = order[k].as_str();
            proof {
                lemma_with_extras_keeps(ids, seq![p.contract_id@], k as int);
                assert(ids[k as int] == id@);
                assert(ids.contains(id@));
            }
            let n = name_of(&names, id);
            let ghost before = body@;
            push_str(&mut body, "    ");
            push_str(&mut body, n.as_str());
            push_str(&mut body, "_result = ");
            push_str(&mut body, n.as_str());
            if wired {
                push_str(&mut body, "_op(");
                push_str(&mut body, call_args_exec(view, &names, id).as_str());
            } else {
                push_str(&mut body, "_op()");
            }
            push_str(&mut body, "\n");
            proof {
                assert(calls[k as int] == if wired { wired_call(*p, id@) } else { entry_call(*p, id@) });
                assert(body@ =~= before + calls[k as int]);
                assert(calls.take(k + 1).drop_last() =~= calls.take(k as int));
            }
            k += 1;
        }
        assert(calls.take(calls.len() as int) =~= calls);
    }
    assert(body@ =~= gstart + graph_body(*p));
    push_str(&mut body, "\n");
    push_str(&mut body, job.as_str());
    push_str(&mut body, "_job = ");
    push_str(&mut body, job.as_str());
    push_str(&mut body, "_graph.to_job(name=\"");
    push_str(&mut body, PlanView::py_string(job.as_str()).as_str());
    push_str(&mut body, "\")\n\ndefs = Definitions(jobs=[");
    push_str(&mut body, job.as_str());
    push_str(&mut body, "_job])\n");
    assert(body@ =~= definitions_source(*p, view.ctx.profile_identity@));
    python_file("definitions.py", body)
}


/// The Dagster module holds the graph line calling the op of step `k` of the
/// plan order.
pub open spec fn call_line_in_module(p: PipelinePlan, profile: Seq<char>, k: int) -> bool {
    exists|a: Seq<char>, b: Seq<char>| #[trigger] encloses(definitions_source(p, profile), a, entry_call(p, texts(p.step_order@)[k]), b)
}

proof fn lemma_graph_in_module(p: PipelinePlan, profile: Seq<char>) -> (r: (Seq<char>, Seq<char>))
    ensures
        encloses(definitions_source(p, profile), r.0, graph_body(p), r.1),
{
    let job = py_name(p, p.contract_id@);
    let pre = join(header_lines(p, profile, "Dagster"@), "\n"@) + "\n"@
        + "from dagster import Definitions, OpExecutionContext, graph, op\n\n"@
        + concat(texts(p.step_order@).map_values(|id: Seq<char>| op_block(p, id)))
        + "@graph(name=\""@ + pq(job) + "_graph\")\ndef "@ + job + "_graph():\n"@;
    let post = "\n"@ + job + "_job = "@ + job + "_graph.to_job(name=\""@ + pq(job) + "\")\n\ndefs = Definitions(jobs=["@ + job
        + "_job])\n"@;
    assert(definitions_source(p, profile) =~= pre + graph_body(p) + post);
    assert(encloses(definitions_source(p, profile), pre, graph_body(p), post));
    (pre, post)
}

proof fn lemma_call_line(p: PipelinePlan, profile: Seq<char>, pre: Seq<char>, post: Seq<char>, k: int)
    requires
        p.dependency_edges@.len() == 0,
        0 <= k < p.step_order@.len(),
        encloses(definitions_source(p, profile), pre, graph_body(p), post),
    ensures
        call_line_in_module(p, profile, k),
{
    let order = texts(p.step_order@);
    let calls = order.map_values(|id: Seq<char>| entry_call(p, id));
    assert(graph_body(p) == concat(calls));
    lemma_concat_holds(calls, k);
    assert(calls[k] == entry_call(p, order[k]));
    assert(encloses(concat(calls), concat(calls.take(k)), entry_call(p, order[k]), concat(calls.skip(k + 1))));
    lemma_encloses_wrap(concat(calls), concat(calls.take(k)), entry_call(p, order[k]), concat(calls.skip(k + 1)), pre, post);
    assert(encloses(definitions_source(p, profile), pre + concat(calls.take(k)), entry_call(p, order[k]), concat(calls.skip(k + 1)) + post));
}

/// With no dependency edges, the Dagster module invents none: no step has a
/// predecessor, so every op takes only its context, and the graph of the
/// module calls each op in plan order with no argument, one
/// `    <name>_result = <name>_op()` line per step.
pub proof fn law_dagster_without_edges(p: PipelinePlan, profile: Seq<char>)
    requires
        p.dependency_edges@.len() == 0,
        p.step_order@.len() > 0,
    ensures
        forall|id: Seq<char>| #[trigger] pred_list(p, id) == Seq::<Seq<char>>::empty(),
        forall|id: Seq<char>| #[trigger] call_args(p, id) == ")"@,
        graph_body(p) == concat(texts(p.step_order@).map_values(|id: Seq<char>| entry_call(p, id))),
        forall|id: Seq<char>| #[trigger] op_block(p, id) == op_head(p, id) + "_op(context: OpExecutionContext):\n"@ + op_tail(id),
        exists|pre: Seq<char>, post: Seq<char>| #[trigger] encloses(definitions_source(p, profile), pre, graph_body(p), post),
        forall|k: int| 0 <= k < p.step_order@.len() ==> #[trigger] call_line_in_module(p, profile, k),
{
    assert forall|id: Seq<char>| #[trigger] pred_list(p, id) == Seq::<Seq<char>>::empty() by {
        let none = Set::new(|x: Seq<char>| is_predecessor(p.dependency_edges@, id, x));
        let e = Seq::<Seq<char>>::empty();
        assert(none =~= Set::empty());
        assert(e.to_set() =~= none);
        assert(strictly_sorted(e) && e.to_set() == none);
        let c = pred_list(p, id);
        if c.len() > 0 {
            assert(c.to_set().contains(c[0]));
        }
    }
    let (pre, post) = lemma_graph_in_module(p, profile);
    assert forall|k: int| 0 <= k < p.step_order@.len() implies #[trigger] call_line_in_module(p, profile, k) by {
        lemma_call_line(p, profile, pre, post, k);
    }
}

} // verus!
