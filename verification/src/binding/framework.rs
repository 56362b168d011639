//! Binding framework: results, context, and target parsing.
use vstd::prelude::*;

use super::artifact::{BindingBundle, BindingFile, BindingTarget};
use super::airflow::{dag_file, dag_source, edges_named, py_name};
use super::common::{first_cron, relative_path_error, validate_relative_path, PlanView};
use super::dagster::{definitions_file, definitions_source, sources_named};
use super::kubernetes::{configmap_file, configmap_text, cronjob_text, job_text, pipeline_name, workload_file};
use super::temporal::{workflow_file, workflow_source};
use super::diagnostics::{binding_error_view, report_capability_gate, report_error, translation_incomplete, unknown_target};
use crate::capabilities::evaluate::{
    demand, evaluate, evaluated, law_evaluation_is_determined, same_outcome, same_report, supply, CapabilityReport, CapabilityResult,
};
use crate::capabilities::CapabilityProfile;
use crate::diagnostics::report::{no_errors, sort_diagnostics};
use crate::diagnostics::{DiagnosticView, ValidationReport};
use crate::text::push_str;
use crate::plan::PipelinePlan;

verus! {

/// Context passed to orchestrator adapters during translation.
#[derive(Debug)]
pub struct BindContext<'a> {
    /// Capability profile identity.
    pub profile_identity: &'a str,
    /// Successful capability evaluation report.
    pub capability: &'a CapabilityReport,
}

/// Result of attempting to bind a Pipeline Plan to an orchestrator target.
#[derive(Debug)]
pub enum BindingResult {
    /// Binding succeeded and produced a platform artifact bundle.
    Success(Box<BindingBundle>),
    /// Binding refused (capability gate, planning, or translation failure).
    Failure {
        /// Binding-stage (and related) diagnostics.
        diagnostics: ValidationReport,
        /// Structured capability report when refusal is due to capability matching.
        capability: Option<Box<CapabilityReport>>,
    },
}

impl BindingResult {
    /// Returns the bundle when binding succeeded.
    pub fn bundle(self) -> (r: Option<BindingBundle>)
        ensures
            match self {
                BindingResult::Success(b) => r == Some(*b),
                BindingResult::Failure { .. } => r is None,
            },
    {
        match self {
            BindingResult::Success(bundle) => Some(*bundle),
            BindingResult::Failure { .. } => None,
        }
    }

    /// Returns a reference to the bundle when binding succeeded.
    pub fn as_bundle(&self) -> (r: Option<&BindingBundle>)
        ensures
            match self {
                BindingResult::Success(b) => r == Some(&**b),
                BindingResult::Failure { .. } => r is None,
            },
    {
        match self {
            BindingResult::Success(bundle) => Some(&**bundle),
            BindingResult::Failure { .. } => None,
        }
    }

    /// Returns whether binding succeeded.
    pub fn is_ok(&self) -> (r: bool)
        ensures
            r == (self is Success),
    {
        match self {
            BindingResult::Success(_) => true,
            BindingResult::Failure { .. } => false,
        }
    }

    /// Returns diagnostics when binding failed.
    pub fn report(&self) -> (r: Option<&ValidationReport>)
        ensures
            match self {
                BindingResult::Success(_) => r is None,
                BindingResult::Failure { diagnostics, .. } => r == Some(diagnostics),
            },
    {
        match self {
            BindingResult::Success(_) => None,
            BindingResult::Failure { diagnostics, .. } => Some(diagnostics),
        }
    }

    /// Returns the capability report retained on capability-gate refusal.
    pub fn capability_report(&self) -> (r: Option<&CapabilityReport>)
        ensures
            match self {
                BindingResult::Success(_) => r is None,
                BindingResult::Failure { capability, .. } => match capability {
                    Some(c) => r == Some(&**c),
                    None => r is None,
                },
            },
    {
        match self {
            BindingResult::Success(_) => None,
            BindingResult::Failure { capability, .. } => match capability {
                Some(c) => Some(&**c),
                None => None,
            },
        }
    }
}

/// Parse a binding target name into [`BindingTarget`].
///
/// On failure returns a binding-stage diagnostic report with `DPCS-BIND-002`.
pub fn parse_target(name: &str) -> (r: Result<BindingTarget, ValidationReport>)
    ensures
        match BindingTarget::named(name@) {
            Some(t) => r == Ok::<BindingTarget, ValidationReport>(t),
            None => r matches Err(report) && report@ == seq![binding_error_view(
                "DPCS-BIND-002"@,
                "unknown binding target `"@ + name@ + "`"@,
                "Use one of: airflow, dagster, prefect, temporal, kubernetes"@,
            )],
        },
{
    match BindingTarget::from_name(name) {
        Ok(t) => Ok(t),
        Err(_) => Err(report_error(unknown_target(name))),
    }
}

/// Entry point describing binding availability for this release.
#[derive(Debug, Clone, Copy, PartialEq, Eq, Structural)]
pub struct BindingFramework;

impl BindingFramework {
    /// Binding is implemented in this release.
    pub fn is_available() -> (r: bool)
        ensures
            r,
    {
        true
    }

    /// Supported binding targets in stable order.
    pub fn supported_targets() -> (r: Vec<BindingTarget>)
        ensures
            r@ == seq![BindingTarget::Airflow, BindingTarget::Dagster, BindingTarget::Prefect, BindingTarget::Temporal, BindingTarget::Kubernetes],
    {
        BindingTarget::all()
    }
}

/// Index of the first file whose relative path is unsafe.
pub open spec fn first_unsafe(files: Seq<BindingFile>) -> Option<int>
    decreases files.len(),
{
    if files.len() == 0 {
        None
    } else {
        match first_unsafe(files.drop_last()) {
            Some(i) => Some(i),
            None => if relative_path_error(files.last().relative_path@) is Some { Some(files.len() - 1) } else { None },
        }
    }
}

/// How a binding outcome `r` follows the capability evaluation `c`: a failed
/// evaluation refuses binding with `DPCS-BIND-001` beside the evaluation's
/// findings (sorted) and keeps the evaluation's report; after a successful
/// one, a bundle carries the evaluation's report.
pub open spec fn gated(c: CapabilityResult, r: BindingResult) -> bool {
    match c {
        CapabilityResult::Failure { report, diagnostics } => r matches BindingResult::Failure {
            diagnostics: d, capability: Some(cr) } && *cr == *report
            && d@ == gate_findings(diagnostics@),
        CapabilityResult::Success(report) => r matches BindingResult::Success(b) ==> b.capability == *report,
    }
}

/// What binding gives, once the capability match succeeded with report
/// `capability`, for the adapter output `translation`: the adapter's error as
/// is; no files at all is `DPCS-BIND-003`; the first unsafe relative path is
/// `DPCS-BIND-004`; else the bundle of the files.
pub open spec fn bundled(
    plan: PipelinePlan,
    profile: CapabilityProfile,
    target: BindingTarget,
    capability: CapabilityReport,
    translation: Result<Vec<BindingFile>, ValidationReport>,
    r: BindingResult,
) -> bool {
    match translation {
        Err(report) => r == BindingResult::Failure { diagnostics: report, capability: None },
        Ok(files) => if files@.len() == 0 {
            r matches BindingResult::Failure { diagnostics, capability: None } && diagnostics@ == seq![binding_error_view(
                "DPCS-BIND-003"@, "binding adapter produced no artifacts"@,
                "Simplify the plan semantic or choose a different binding target"@)]
        } else {
            match first_unsafe(files@) {
                Some(i) => r matches BindingResult::Failure { diagnostics, capability: None } && diagnostics@ == seq![binding_error_view(
                    "DPCS-BIND-004"@, relative_path_error(files@[i].relative_path@).unwrap(),
                    "Check output path permissions and disk space"@)],
                None => r matches BindingResult::Success(b) && b.target == target && b.contract_id@ == plan.contract_id@
                    && b.contract_version@ == plan.contract_version@ && b.profile_identity@ == profile.identity@
                    && b.files == files && b.capability == capability,
            }
        },
    }
}

fn assemble_bundle(
    plan: &PipelinePlan,
    profile: &CapabilityProfile,
    target: BindingTarget,
    capability: Box<CapabilityReport>,
    translation: Result<Vec<BindingFile>, ValidationReport>,
) -> (r: BindingResult)
    ensures
        bundled(*plan, *profile, target, *capability, translation, r),
{
    match translation {
        Err(report) => BindingResult::Failure { diagnostics: report, capability: None },
        Ok(files) => {
            if files.len() == 0 {
                return BindingResult::Failure {
                    diagnostics: report_error(translation_incomplete(String::from_str("binding adapter produced no artifacts"))),
                    capability: None,
                };
            }
            let mut i: usize = 0;
            while i < files.len()
                invariant
                    i <= files@.len(),
                    first_unsafe(files@.take(i as int)) is None,
                    translation == Ok::<Vec<BindingFile>, ValidationReport>(files),
                decreases files.len() - i,
            {
                assert(files@.take(i + 1).drop_last() =~= files@.take(i as int));
                match validate_relative_path(files[i].relative_path.as_str()) {
                    Err(report) => {
                        proof { lemma_first_unsafe_prefix(files@, i as int + 1); }
                        return BindingResult::Failure { diagnostics: report, capability: None };
                    },
                    Ok(()) => {},
                }
                i += 1;
            }
            assert(files@.take(files@.len() as int) =~= files@);
            BindingResult::Success(Box::new(BindingBundle {
                target,
                contract_id: plan.contract_id.clone(),
                contract_version: plan.contract_version.clone(),
                profile_identity: profile.identity.clone(),
                files,
                capability: *capability,
            }))
        },
    }
}

/// `r` is what binding gives: a failed capability match (findings in
/// `findings`) refuses it with `DPCS-BIND-001` and keeps the capability
/// report; otherwise `translation`, the adapter's output for `target`, decides.
pub open spec fn bind_outcome(plan: PipelinePlan, profile: CapabilityProfile, findings: Seq<DiagnosticView>, target: BindingTarget,
    translation: Result<Vec<BindingFile>, ValidationReport>, r: BindingResult) -> bool {
    &&& !(no_errors(findings) && demand(plan.execution).subset_of(supply(profile))) ==>
        (r matches BindingResult::Failure { capability: Some(c), .. })
    &&& exists|c: CapabilityResult| #[trigger] evaluated(plan, profile, findings, c) && gated(c, r)
    &&& no_errors(findings) && demand(plan.execution).subset_of(supply(profile)) ==> match translation {
        Err(report) => r == BindingResult::Failure { diagnostics: report, capability: None },
        Ok(files) => if files@.len() == 0 {
            r matches BindingResult::Failure { diagnostics, capability: None } && diagnostics@ == seq![binding_error_view(
                "DPCS-BIND-003"@, "binding adapter produced no artifacts"@,
                "Simplify the plan semantic or choose a different binding target"@)]
        } else {
            match first_unsafe(files@) {
                Some(i) => r matches BindingResult::Failure { diagnostics, capability: None } && diagnostics@ == seq![binding_error_view(
                    "DPCS-BIND-004"@, relative_path_error(files@[i].relative_path@).unwrap(),
                    "Check output path permissions and disk space"@)],
                None => r matches BindingResult::Success(b) && b.target == target && b.contract_id@ == plan.contract_id@
                    && b.contract_version@ == plan.contract_version@ && b.profile_identity@ == profile.identity@
                    && b.files == files && b.capability.profile_identity@ == profile.identity@
                    && b.capability.missing_mandatory@.len() == 0,
            }
        },
    }
}

/// Bind a Pipeline Plan to a target orchestrator.
///
/// The plan is first matched against `profile` (whose validation report is
/// `profile_findings`); a failed match refuses binding with `DPCS-BIND-001`
/// and keeps the capability report. Otherwise `translation` is the adapter's
/// output for `target`: its error is returned as is; no files at all is
/// `DPCS-BIND-003`; an unsafe relative path is `DPCS-BIND-004`; else the
/// files form the bundle. [`bind_plan`] makes `translation` with the adapter
/// for `target`.
pub fn bind(
    plan: &PipelinePlan,
    profile: &CapabilityProfile,
    profile_findings: ValidationReport,
    target: BindingTarget,
    translation: Result<Vec<BindingFile>, ValidationReport>,
) -> (r: BindingResult)
    ensures
        bind_outcome(*plan, *profile, profile_findings@, target, translation, r),
{
    let evaluation = evaluate(plan, profile, profile_findings);
    let ghost ev = evaluation;
    let capability = match evaluation {
        CapabilityResult::Success(report) => report,
        CapabilityResult::Failure { report, diagnostics } => {
            return BindingResult::Failure { diagnostics: report_capability_gate(diagnostics), capability: Some(report) };
        },
    };
    assemble_bundle(plan, profile, target, capability, translation)
}

proof fn lemma_first_unsafe_prefix(files: Seq<BindingFile>, n: int)
    requires
        0 < n <= files.len(),
        first_unsafe(files.take(n)) is Some,
    ensures
        first_unsafe(files) == first_unsafe(files.take(n)),
    decreases files.len() - n,
{
    if n < files.len() {
        assert(files.take(n + 1).drop_last() =~= files.take(n));
        lemma_first_unsafe_prefix(files, n + 1);
    } else {
        assert(files.take(n) =~= files);
    }
}

/// `f` is the file at `path` of media type `media` holding `content`.
pub open spec fn file_is(f: BindingFile, path: Seq<char>, media: Seq<char>, content: Seq<char>) -> bool {
    f.relative_path@ == path && f.media_type@ == media && f.content@ == content
}

/// The Kubernetes workload file of a plan: a CronJob when it is scheduled by
/// cron, otherwise a Job.
pub open spec fn workload_is(f: BindingFile, p: PipelinePlan) -> bool {
    match first_cron(p.scheduling@) {
        Some(cron) => file_is(f, "cronjob.yaml"@, "application/yaml"@, cronjob_text(p, pipeline_name(p), cron)),
        None => file_is(f, "job.yaml"@, "application/yaml"@, job_text(p, pipeline_name(p))),
    }
}

/// The finding for a target whose adapter this library does not hold.
pub open spec fn no_adapter_view(target: BindingTarget) -> DiagnosticView {
    binding_error_view(
        "DPCS-BIND-003"@,
        "no binding adapter is available for target `"@ + target.label() + "`"@,
        "Simplify the plan semantic or choose a different binding target"@,
    )
}

/// The platform files of `target` for a plan and a profile identity, or the
/// refusal of a target without an adapter.
pub open spec fn translated(plan: PipelinePlan, profile_identity: Seq<char>, target: BindingTarget,
    r: Result<Vec<BindingFile>, ValidationReport>) -> bool {
    match target {
        BindingTarget::Airflow => r matches Ok(files) && files@.len() == 1 && file_is(files@[0],
            "dags/"@ + py_name(plan, plan.contract_id@) + ".py"@, "text/x-python"@, dag_source(plan, profile_identity)),
        BindingTarget::Dagster => r matches Ok(files) && files@.len() == 1 && file_is(files@[0],
            "definitions.py"@, "text/x-python"@, definitions_source(plan, profile_identity)),
        BindingTarget::Temporal => r matches Ok(files) && files@.len() == 1 && file_is(files@[0],
            "workflow.py"@, "text/x-python"@, workflow_source(plan, profile_identity)),
        BindingTarget::Kubernetes => r matches Ok(files) && files@.len() == 2 && file_is(files@[0],
            "pipeline-configmap.yaml"@, "application/yaml"@, configmap_text(plan, profile_identity, pipeline_name(plan)))
            && workload_is(files@[1], plan),
        BindingTarget::Prefect => r matches Err(rep) && rep@ == seq![no_adapter_view(target)],
    }
}

/// Translate a plan into the platform files of `target`, for a profile with
/// identity `profile_identity` whose capability match gave `capability`:
/// Airflow a DAG module, Dagster a definitions module, Temporal a workflow
/// module, Kubernetes a ConfigMap and a workload. Prefect has no adapter
/// here, and is refused with `DPCS-BIND-003`.
pub fn translate(plan: &PipelinePlan, profile_identity: &str, capability: &CapabilityReport, target: BindingTarget)
    -> (r: Result<Vec<BindingFile>, ValidationReport>)
    requires
        target == BindingTarget::Airflow ==> edges_named(*plan),
        target == BindingTarget::Dagster ==> sources_named(*plan),
    ensures
        translated(*plan, profile_identity@, target, r),
{
    let ctx = BindContext { profile_identity, capability };
    let view = PlanView::new(plan, &ctx);
    let mut files: Vec<BindingFile> = Vec::new();
    match target {
        BindingTarget::Airflow => files.push(dag_file(&view)),
        BindingTarget::Dagster => files.push(definitions_file(&view)),
        BindingTarget::Temporal => files.push(workflow_file(&view)),
        BindingTarget::Kubernetes => {
            files.push(configmap_file(&view));
            files.push(workload_file(&view));
        },
        BindingTarget::Prefect => {
            let mut m = String::from_str("no binding adapter is available for target `");
            push_str(&mut m, target.as_str());
            push_str(&mut m, "`");
            return Err(report_error(translation_incomplete(m)));
        },
    }
    Ok(files)
}

/// Outcome of [`bind_plan`]: the capability gate, and after a successful
/// match the files of the adapter for `target`, checked as [`bind`] checks
/// them.
pub open spec fn bind_plan_outcome(plan: PipelinePlan, profile: CapabilityProfile, findings: Seq<DiagnosticView>,
    target: BindingTarget, r: BindingResult) -> bool {
    exists|c: CapabilityResult| #[trigger] evaluated(plan, profile, findings, c) && gated(c, r)
        && (c matches CapabilityResult::Success(report) ==> exists|t: Result<Vec<BindingFile>, ValidationReport>|
            #[trigger] translated(plan, profile.identity@, target, t) && bundled(plan, profile, target, *report, t, r))
}

/// Bind a Pipeline Plan to a target orchestrator with the adapter for that
/// target: the plan is matched against `profile` (whose validation report is
/// `profile_findings`); a failed match refuses binding with `DPCS-BIND-001`
/// and keeps the capability report; otherwise the plan is translated for
/// `target` and the files are checked as [`bind`] checks them.
pub fn bind_plan(plan: &PipelinePlan, profile: &CapabilityProfile, profile_findings: ValidationReport, target: BindingTarget)
    -> (r: BindingResult)
    requires
        target == BindingTarget::Airflow ==> edges_named(*plan),
        target == BindingTarget::Dagster ==> sources_named(*plan),
    ensures
        bind_plan_outcome(*plan, *profile, profile_findings@, target, r),
{
    let evaluation = evaluate(plan, profile, profile_findings);
    let ghost ev = evaluation;
    let capability = match evaluation {
        CapabilityResult::Success(report) => report,
        CapabilityResult::Failure { report, diagnostics } => {
            return BindingResult::Failure { diagnostics: report_capability_gate(diagnostics), capability: Some(report) };
        },
    };
    let translation = translate(plan, profile.identity.as_str(), &capability, target);
    let ghost t = translation;
    let r = assemble_bundle(plan, profile, target, capability, translation);
    assert(translated(*plan, profile.identity@, target, t) && bundled(*plan, *profile, target, *capability, t, r));
    assert(evaluated(*plan, *profile, profile_findings@, ev) && gated(ev, r));
    r
}


/// The refusal that a failed capability match with findings `d` gives:
/// `DPCS-BIND-001` with those findings, in deterministic order.
pub open spec fn gate_findings(d: Seq<DiagnosticView>) -> Seq<DiagnosticView> {
    sort_diagnostics(seq![binding_error_view(
        "DPCS-BIND-001"@,
        "orchestrator binding requires a successful capability match"@,
        "Resolve missing mandatory capabilities in the profile, or adjust pipeline execution requirements"@,
    )] + d)
}

/// Binding follows the capability match. When matching the plan against the
/// profile fails, binding is refused with the match's report and with its
/// findings plus `DPCS-BIND-001`, sorted. When it succeeds, a bundle carries
/// the match's report, and a refusal carries no capability report.
pub proof fn law_bind_follows_evaluation(plan: PipelinePlan, profile: CapabilityProfile, findings: Seq<DiagnosticView>,
    target: BindingTarget, translation: Result<Vec<BindingFile>, ValidationReport>, c: CapabilityResult, r: BindingResult)
    requires
        evaluated(plan, profile, findings, c),
        bind_outcome(plan, profile, findings, target, translation, r),
    ensures
        c matches CapabilityResult::Failure { report, diagnostics } ==> (r matches BindingResult::Failure {
            diagnostics: d, capability: Some(cr) } && same_report(*cr, *report) && d@ == gate_findings(diagnostics@)),
        c matches CapabilityResult::Success(report) ==> match r {
            BindingResult::Success(b) => same_report(b.capability, *report),
            BindingResult::Failure { capability, .. } => capability is None,
        },
{
    let c2 = choose|c2: CapabilityResult| #[trigger] evaluated(plan, profile, findings, c2) && gated(c2, r);
    law_evaluation_is_determined(plan, profile, findings, c, c2);
}

/// Binding a plan with its target's adapter follows the capability match in
/// the same way, and on a match binds exactly the adapter's files for the
/// plan.
pub proof fn law_bind_plan_follows_evaluation(plan: PipelinePlan, profile: CapabilityProfile, findings: Seq<DiagnosticView>,
    target: BindingTarget, c: CapabilityResult, r: BindingResult)
    requires
        evaluated(plan, profile, findings, c),
        bind_plan_outcome(plan, profile, findings, target, r),
    ensures
        c matches CapabilityResult::Failure { report, diagnostics } ==> (r matches BindingResult::Failure {
            diagnostics: d, capability: Some(cr) } && same_report(*cr, *report) && d@ == gate_findings(diagnostics@)),
        c matches CapabilityResult::Success(report) ==> exists|t: Result<Vec<BindingFile>, ValidationReport>|
            #[trigger] translated(plan, profile.identity@, target, t) && match r {
                BindingResult::Success(b) => same_report(b.capability, *report) && t == Ok::<Vec<BindingFile>, ValidationReport>(b.files),
                BindingResult::Failure { capability, .. } => capability is None,
            },
{
    let c2 = choose|c2: CapabilityResult| #[trigger] evaluated(plan, profile, findings, c2) && gated(c2, r)
        && (c2 matches CapabilityResult::Success(report) ==> exists|t: Result<Vec<BindingFile>, ValidationReport>|
            #[trigger] translated(plan, profile.identity@, target, t) && bundled(plan, profile, target, *report, t, r));
    law_evaluation_is_determined(plan, profile, findings, c, c2);
    if let CapabilityResult::Success(report2) = c2 {
        let t = choose|t: Result<Vec<BindingFile>, ValidationReport>|
            #[trigger] translated(plan, profile.identity@, target, t) && bundled(plan, profile, target, *report2, t, r);
        assert(translated(plan, profile.identity@, target, t));
    }
}

} // verus!
