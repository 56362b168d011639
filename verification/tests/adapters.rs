use dpcs::binding::airflow::dag_file;
use dpcs::binding::common::PlanView;
use dpcs::binding::dagster::definitions_file;
use dpcs::binding::framework::BindContext;
use dpcs::binding::kubernetes::{configmap_file, workload_file};
use dpcs::binding::temporal::workflow_file;
use dpcs::capabilities::evaluate::CapabilityReport;
use dpcs::model::extension::ExtensionMap;
use dpcs::model::graph::PipelineGraph;
use dpcs::model::step::PipelineStep;
use dpcs::plan::{PipelinePlan, PlanDependencyEdge};

fn no_ext() -> ExtensionMap {
    ExtensionMap { entries: vec![] }
}

fn step(id: &str, contract_ref: Option<&str>) -> PipelineStep {
    PipelineStep {
        id: id.to_owned(),
        step_type: "transform".to_owned(),
        name: None,
        contract_ref: contract_ref.map(str::to_owned),
        transform_ref: None,
        inputs: vec![],
        outputs: vec![],
        extensions: no_ext(),
    }
}

fn plan(step_order: &[&str], edges: &[(&str, &str)]) -> PipelinePlan {
    PipelinePlan {
        contract_id: "sales.daily".to_owned(),
        contract_version: "1.0.0".to_owned(),
        dpcs_version: "1.0.0".to_owned(),
        version: None,
        steps: vec![step("extract", Some("odcs:raw")), step("load", None)],
        graph: PipelineGraph { entry_points: vec![], exit_points: vec![], metadata: None, edges: vec![], extensions: no_ext() },
        contract_references: vec![],
        dependency_edges: edges
            .iter()
            .map(|(f, t)| PlanDependencyEdge { from: (*f).to_owned(), to: (*t).to_owned() })
            .collect(),
        step_order: step_order.iter().map(|s| (*s).to_owned()).collect(),
        execution: None,
        scheduling: vec![],
        quality_gates: vec![],
        failure_semantics: vec![],
        lineage: None,
        nested: vec![],
    }
}

fn capability() -> CapabilityReport {
    CapabilityReport {
        profile_identity: "airflow-2".to_owned(),
        plan_contract_id: None,
        satisfied: vec![],
        missing_mandatory: vec![],
        unsupported_optional: vec![],
        diagnostics: vec![],
    }
}

fn body_after_header(view: &PlanView, platform: &str, content: &str) -> String {
    let header = view.header_comment(platform);
    assert!(content.starts_with(&header));
    content[header.len()..].to_owned()
}

/// Lines joined with line breaks, each followed by one.
fn text(lines: &[&str]) -> String {
    lines.iter().map(|l| format!("{l}\n")).collect()
}

#[test]
fn airflow_dag_wires_declared_edges_only() {
    let p = plan(&["extract", "load", "extra"], &[("extract", "load")]);
    let cap = capability();
    let ctx = BindContext { profile_identity: "airflow-2", capability: &cap };
    let view = PlanView::new(&p, &ctx);
    let f = dag_file(&view);
    assert_eq!(f.relative_path, "dags/sales_daily.py");
    assert_eq!(f.media_type, "text/x-python");
    let rest = body_after_header(&view, "Airflow", &f.content);
    let expected = text(&[
        "",
        "from datetime import datetime",
        "",
        "from airflow import DAG",
        "from airflow.operators.empty import EmptyOperator",
        "",
        "with DAG(",
        "    dag_id=\"sales_daily\",",
        "    description=\"DPCS scaffold for sales.daily\",",
        "    schedule=None,",
        "    start_date=datetime(2026, 1, 1),",
        "    catchup=False,",
        "    tags=[\"dpcs\", \"airflow-2\"],",
        "    default_args={",
        "        \"owner\": \"dpcs\",",
        "        \"depends_on_past\": False,",
        "    },",
        ") as dag:",
        "    extract = EmptyOperator(",
        "        task_id=\"extract\",",
        "        doc_md=\"type=transform contractRef=odcs:raw\",",
        "    )",
        "    load = EmptyOperator(",
        "        task_id=\"load\",",
        "        doc_md=\"type=transform contractRef=-\",",
        "    )",
        "    extra = EmptyOperator(",
        "        task_id=\"extra\",",
        "        doc_md=\"type=unknown contractRef=-\",",
        "    )",
        "    extract >> load",
    ]);
    assert_eq!(rest, expected);
}

#[test]
fn kubernetes_runs_steps_sequentially() {
    let p = plan(&["extract", "load"], &[("extract", "load")]);
    let cap = capability();
    let ctx = BindContext { profile_identity: "k8s", capability: &cap };
    let view = PlanView::new(&p, &ctx);
    let job = workload_file(&view);
    assert_eq!(job.relative_path, "job.yaml");
    let expected = text(&[
        "# DPCS Kubernetes Job scaffold (experimental)",
        "# Steps run sequentially via initContainers + main container (topology linearized by step_order).",
        "apiVersion: batch/v1",
        "kind: Job",
        "metadata:",
        "  name: sales-daily",
        "  labels:",
        "    app.kubernetes.io/managed-by: dpcs",
        "    dpcs.io/contract-id: \"sales-daily\"",
        "spec:",
        "  template:",
        "    metadata:",
        "      labels:",
        "        dpcs.io/contract-id: \"sales-daily\"",
        "    spec:",
        "restartPolicy: Never",
        "      initContainers:",
        "- name: extract",
        "          image: example.com/dpcs-step:scaffold",
        "          command: [\"/bin/true\"]",
        "          env:",
        "            - name: DPCS_STEP_ID",
        "              value: \"extract\"",
        "            - name: DPCS_CONTRACT_ID",
        "              value: \"sales.daily\"",
        "      containers:",
        "- name: load",
        "          image: example.com/dpcs-step:scaffold",
        "          command: [\"/bin/true\"]",
        "          env:",
        "            - name: DPCS_STEP_ID",
        "              value: \"load\"",
        "            - name: DPCS_CONTRACT_ID",
        "              value: \"sales.daily\"",
        "",
    ]);
    assert_eq!(job.content, expected);
    let cm = configmap_file(&view);
    assert_eq!(cm.relative_path, "pipeline-configmap.yaml");
    assert!(cm.content.contains("  name: sales-daily-plan\n"));
    assert!(cm.content.contains("  stepOrder: \"extract,load\"\n  dependencyEdges: \"extract->load\"\n"));
    let summary = text(&[
        "  planSummary: |",
        "    contractId: \"sales.daily\"",
        "    steps:",
        "      - id: \"extract\"",
        "        type: \"transform\"",
        "        contractRef: \"odcs:raw\"",
        "      - id: \"load\"",
        "        type: \"transform\"",
        "        contractRef: \"-\"",
    ]);
    assert!(cm.content.ends_with(&summary));
}

#[test]
fn kubernetes_without_steps_runs_a_noop() {
    let p = plan(&[], &[]);
    let cap = capability();
    let ctx = BindContext { profile_identity: "k8s", capability: &cap };
    let view = PlanView::new(&p, &ctx);
    let job = workload_file(&view);
    assert!(job.content.contains("restartPolicy: Never\n      containers:\n- name: sales-daily-noop\n"));
    assert!(job.content.contains("value: \"noop\""));
}

#[test]
fn dagster_graph_passes_upstream_results() {
    let p = plan(&["extract", "load"], &[("extract", "load")]);
    let cap = capability();
    let ctx = BindContext { profile_identity: "dagster", capability: &cap };
    let view = PlanView::new(&p, &ctx);
    let f = definitions_file(&view);
    assert_eq!(f.relative_path, "definitions.py");
    let rest = body_after_header(&view, "Dagster", &f.content);
    let expected = text(&[
        "",
        "from dagster import Definitions, OpExecutionContext, graph, op",
        "",
        "@op(name=\"extract\", tags={\"dpcs.contractRef\": \"odcs:raw\", \"dpcs.stepType\": \"transform\"})",
        "def extract_op(context: OpExecutionContext):",
        "    context.log.info(\"DPCS step extract\")",
        "    return True",
        "",
        "@op(name=\"load\", tags={\"dpcs.contractRef\": \"-\", \"dpcs.stepType\": \"transform\"})",
        "def load_op(context: OpExecutionContext, upstream):",
        "    context.log.info(\"DPCS step load\")",
        "    return True",
        "",
        "@graph(name=\"sales_daily_graph\")",
        "def sales_daily_graph():",
        "    extract_result = extract_op()",
        "    load_result = load_op(extract_result)",
        "",
        "sales_daily_job = sales_daily_graph.to_job(name=\"sales_daily\")",
        "",
        "defs = Definitions(jobs=[sales_daily_job])",
    ]);
    assert_eq!(rest, expected);
}

#[test]
fn temporal_workflow_awaits_in_order() {
    let p = plan(&["extract", "load"], &[("extract", "load")]);
    let cap = capability();
    let ctx = BindContext { profile_identity: "temporal", capability: &cap };
    let view = PlanView::new(&p, &ctx);
    let f = workflow_file(&view);
    assert_eq!(f.relative_path, "workflow.py");
    let rest = body_after_header(&view, "Temporal (experimental)", &f.content);
    assert!(rest.starts_with("\nfrom datetime import timedelta\n\nfrom temporalio import activity, workflow\n\n"));
    assert!(rest.contains("@workflow.defn(name=\"sales.daily\")\nclass SalesDailyWorkflow:\n"));
    let tail = text(&[
        "        # Await activities in topologic step_order; edges are enforced by sequencing.",
        "        await workflow.execute_activity(",
        "            extract_activity,",
        "            start_to_close_timeout=timedelta(minutes=30),",
        "        )",
        "        # waits for: extract",
        "        await workflow.execute_activity(",
        "            load_activity,",
        "            start_to_close_timeout=timedelta(minutes=30),",
        "        )",
    ]);
    assert!(rest.ends_with(&tail));
}

#[test]
fn dagster_without_edges_invents_no_dependency() {
    let p = plan(&["extract", "load"], &[]);
    let cap = capability();
    let ctx = BindContext { profile_identity: "dagster", capability: &cap };
    let view = PlanView::new(&p, &ctx);
    let f = definitions_file(&view);
    assert!(f.content.contains("\n    extract_result = extract_op()\n    load_result = load_op()\n"));
    assert!(!f.content.contains("upstream"));
}
