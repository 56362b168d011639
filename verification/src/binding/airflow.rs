//! Apache Airflow scaffold: one DAG module per plan.
//!
//! Each step becomes an `EmptyOperator` task named by a unique Python
//! identifier; only the plan's dependency edges are wired (`a >> b`), never
//! edges invented from the step order.
use vstd::prelude::*;

use super::artifact::BindingFile;
use super::common::{first_cron, first_timezone, header_lines, python_file, with_extras, PlanView};
use super::names::{assign_names, escape, python_ident_spec, NameMap};
use super::scaffold::{lemma_with_extras_contains, lemma_with_extras_keeps, name_for, name_of, step_facts, step_ref_of, step_type_of};
use crate::diagnostics::texts;
use crate::plan::{PipelinePlan, PlanDependencyEdge};
use crate::report::markdown::concat;
use crate::text::{concat3, join, push_str};

verus! {

/// Identifiers named in an Airflow DAG: the step order, then the contract id.
pub open spec fn python_keys(p: PipelinePlan) -> Seq<Seq<char>> {
    with_extras(texts(p.step_order@), seq![p.contract_id@])
}

/// Unique Python identifiers of [`python_keys`].
pub open spec fn python_names(p: PipelinePlan) -> Seq<Seq<char>> {
    assign_names(python_keys(p).map_values(|s: Seq<char>| python_ident_spec(s)))
}

/// Python name of an identifier of the DAG.
pub open spec fn py_name(p: PipelinePlan, id: Seq<char>) -> Seq<char> {
    name_for(python_keys(p), python_names(p), id)
}

/// The DAG's `schedule=` value: the first cron expression, or `None`.
pub open spec fn airflow_schedule(p: PipelinePlan) -> Seq<char> {
    match first_cron(p.scheduling@) {
        Some(c) => "\""@ + escape(c) + "\""@,
        None => "None"@,
    }
}

/// The DAG declaration.
pub open spec fn dag_declaration(p: PipelinePlan, profile: Seq<char>) -> Seq<char> {
    dag_head(p, profile) + timezone_comment(p)
}

/// The DAG constructor call.
pub open spec fn dag_head(p: PipelinePlan, profile: Seq<char>) -> Seq<char> {
    "from datetime import datetime\n\nfrom airflow import DAG\nfrom airflow.operators.empty import EmptyOperator\n\nwith DAG(\n    dag_id=\""@
        + escape(py_name(p, p.contract_id@))
        + "\",\n    description=\"DPCS scaffold for "@ + escape(p.contract_id@)
        + "\",\n    schedule="@ + airflow_schedule(p)
        + ",\n    start_date=datetime(2026, 1, 1),\n    catchup=False,\n    tags=[\"dpcs\", \""@ + escape(profile)
        + "\"],\n    default_args={\n        \"owner\": \"dpcs\",\n        \"depends_on_past\": False,\n    },\n) as dag:\n"@
}

/// A comment naming the schedule's time zone, when one is declared.
pub open spec fn timezone_comment(p: PipelinePlan) -> Seq<char> {
    match first_timezone(p.scheduling@) {
            Some(tz) => "    # scheduleTimezone: "@ + escape(tz)
                + " (configure via Airflow timetable / timezone-aware start_date)\n"@,
            None => Seq::empty(),
    }
}

/// One task of the DAG.
pub open spec fn task_block(p: PipelinePlan, id: Seq<char>) -> Seq<char> {
    "    "@ + py_name(p, id) + " = EmptyOperator(\n"@ + "        task_id=\""@ + escape(id) + "\",\n"@
        + "        doc_md=\"type="@ + escape(step_type_of(p, id)) + " contractRef="@
        + escape(step_ref_of(p, id)) + "\",\n"@ + "    )\n"@
}

/// One dependency of the DAG.
pub open spec fn dependency_line(p: PipelinePlan, e: PlanDependencyEdge) -> Seq<char> {
    "    "@ + py_name(p, e.from@) + " >> "@ + py_name(p, e.to@) + "\n"@
}

/// The DAG module: the header comment, the DAG declaration, one task per step
/// in plan order, and one `>>` per dependency edge.
pub open spec fn dag_source(p: PipelinePlan, profile: Seq<char>) -> Seq<char> {
    join(header_lines(p, profile, "Airflow"@), "\n"@) + "\n"@ + dag_declaration(p, profile)
        + concat(texts(p.step_order@).map_values(|id: Seq<char>| task_block(p, id)))
        + concat(p.dependency_edges@.map_values(|e: PlanDependencyEdge| dependency_line(p, e)))
}

/// Whether every dependency edge joins identifiers the DAG names.
pub open spec fn edges_named(p: PipelinePlan) -> bool {
    forall|i: int| 0 <= i < p.dependency_edges@.len() ==> {
        &&& python_keys(p).contains(#[trigger] p.dependency_edges@[i].from@)
        &&& python_keys(p).contains(p.dependency_edges@[i].to@)
    }
}

fn push_declaration(out: &mut String, view: &PlanView, names: &NameMap)
    requires
        names.keys() == python_keys(*view.plan),
        names.names() == python_names(*view.plan),
    ensures
        final(out)@ == old(out)@ + dag_declaration(*view.plan, view.ctx.profile_identity@),
{
    let p = view.plan;
    proof { lemma_contract_named(*p); }
    let dag_id = name_of(names, view.contract_id());
    let schedule = match view.primary_cron() {
        Some(c) => concat3("\"", PlanView::py_string(c).as_str(), "\""),
        None => String::from_str("None"),
    };
    let ghost start = out@;
    push_str(out, "from datetime import datetime\n\nfrom airflow import DAG\nfrom airflow.operators.empty import EmptyOperator\n\nwith DAG(\n    dag_id=\"");
    push_str(out, PlanView::py_string(dag_id.as_str()).as_str());
    push_str(out, "\",\n    description=\"DPCS scaffold for ");
    push_str(out, PlanView::py_string(view.contract_id()).as_str());
    push_str(out, "\",\n    schedule=");
    push_str(out, schedule.as_str());
    push_str(out, ",\n    start_date=datetime(2026, 1, 1),\n    catchup=False,\n    tags=[\"dpcs\", \"");
    push_str(out, PlanView::py_string(view.profile_identity()).as_str());
    push_str(out, "\"],\n    default_args={\n        \"owner\": \"dpcs\",\n        \"depends_on_past\": False,\n    },\n) as dag:\n");
    let ghost mid = out@;
    proof {
        reveal_strlit("None");
        assert(schedule@ == airflow_schedule(*p));
    }
    assert(mid =~= start + dag_head(*p, view.ctx.profile_identity@));
    match view.primary_timezone() {
        Some(tz) => {
            push_str(out, "    # scheduleTimezone: ");
            push_str(out, PlanView::py_string(tz).as_str());
            push_str(out, " (configure via Airflow timetable / timezone-aware start_date)\n");
        },
        None => {},
    }
    assert(out@ =~= start + dag_declaration(*p, view.ctx.profile_identity@));
}

pub proof fn lemma_contract_named(p: PipelinePlan)
    ensures
        python_keys(p).contains(p.contract_id@),
{
    lemma_with_extras_contains(texts(p.step_order@), seq![p.contract_id@], 0);
}

fn task_block_exec(view: &PlanView, names: &NameMap, id: &str) -> (r: String)
    requires
        names.keys() == python_keys(*view.plan),
        names.names() == python_names(*view.plan),
        names.keys().contains(id@),
    ensures
        r@ == task_block(*view.plan, id@),
{
    let var = name_of(names, id);
    let (step_type, contract) = step_facts(view, id);
    let mut out = concat3("    ", var.as_str(), " = EmptyOperator(\n");
    let ghost a = out@;
    push_str(&mut out, "        task_id=\"");
    push_str(&mut out, PlanView::py_string(id).as_str());
    push_str(&mut out, "\",\n");
    let ghost b = out@;
    push_str(&mut out, "        doc_md=\"type=");
    push_str(&mut out, PlanView::py_string(step_type.as_str()).as_str());
    push_str(&mut out, " contractRef=");
    push_str(&mut out, PlanView::py_string(contract.as_str()).as_str());
    push_str(&mut out, "\",\n");
    push_str(&mut out, "    )\n");
    assert(b =~= a + "        task_id=\""@ + escape(id@) + "\",\n"@);
    assert(out@ =~= task_block(*view.plan, id@));
    out
}

/// The Airflow DAG module of a plan, at `dags/<dag id>.py`.
pub fn dag_file(view: &PlanView) -> (r: BindingFile)
    requires
        edges_named(*view.plan),
    ensures
        r.relative_path@ == "dags/"@ + py_name(*view.plan, view.plan.contract_id@) + ".py"@,
        r.media_type@ == "text/x-python"@,
        r.content@ == dag_source(*view.plan, view.ctx.profile_identity@),
{
    let p = view.plan;
    let extras: Vec<&str> = vec![view.contract_id()];
    assert(extras@.map_values(|e: &str| e@) =~= seq![p.contract_id@]);
    let names = view.unique_python_idents(extras.as_slice());
    let mut body = view.header_comment("Airflow");
    push_str(&mut body, "\n");
    push_declaration(&mut body, view, &names);
    let ghost head = body@;
    let order = view.step_order();
    let ghost blocks = texts(p.step_order@).map_values(|id: Seq<char>| task_block(*p, id));
    let mut i: usize = 0;
    while i < order.len()
        invariant
            i <= order@.len(),
            p == view.plan,
            order == &p.step_order,
            names.keys() == python_keys(*p),
            names.names() == python_names(*p),
            blocks == texts(p.step_order@).map_values(|id: Seq<char>| task_block(*p, id)),
            body@ == head + concat(blocks.take(i as int)),
        decreases order.len() - i,
    {
        let id = order[i].as_str();
        proof {
            lemma_with_extras_keeps(texts(p.step_order@), seq![p.contract_id@], i as int);
            assert(texts(p.step_order@)[i as int] == id@);
        }
        let block = task_block_exec(view, &names, id);
        let ghost before = body@;
        push_str(&mut body, block.as_str());
        proof {
            assert(blocks[i as int] == task_block(*p, id@));
            assert(blocks.take(i + 1).drop_last() =~= blocks.take(i as int));
            assert(blocks.take(i + 1).last() == blocks[i as int]);
        }
        i += 1;
    }
    assert(blocks.take(blocks.len() as int) =~= blocks);
    let ghost mid = body@;
    let edges = view.dependency_edges();
    let ghost lines = p.dependency_edges@.map_values(|e: PlanDependencyEdge| dependency_line(*p, e));
    let mut j: usize = 0;
    while j < edges.len()
        invariant
            j <= edges@.len(),
            p == view.plan,
            edges == &p.dependency_edges,
            edges_named(*p),
            names.keys() == python_keys(*p),
            names.names() == python_names(*p),
            lines == p.dependency_edges@.map_values(|e: PlanDependencyEdge| dependency_line(*p, e)),
            body@ == mid + concat(lines.take(j as int)),
        decreases edges.len() - j,
    {
        let e = &edges[j];
        assert(python_keys(*p).contains(p.dependency_edges@[j as int].from@));
        let from = name_of(&names, e.from.as_str());
        let to = name_of(&names, e.to.as_str());
        let ghost before = body@;
        push_str(&mut body, "    ");
        push_str(&mut body, from.as_str());
        push_str(&mut body, " >> ");
        push_str(&mut body, to.as_str());
        push_str(&mut body, "\n");
        proof {
            assert(body@ =~= before + dependency_line(*p, *e));
            assert(lines.take(j + 1).drop_last() =~= lines.take(j as int));
        }
        j += 1;
    }
    assert(lines.take(lines.len() as int) =~= lines);
    proof { lemma_contract_named(*p); }
    let stem = name_of(&names, view.contract_id());
    let path = concat3("dags/", stem.as_str(), ".py");
    assert(body@ =~= dag_source(*p, view.ctx.profile_identity@));
    python_file(path.as_str(), body)
}

} // verus!
