//! Shared plan views used by orchestrator adapters.
use vstd::prelude::*;

use super::artifact::BindingFile;
use super::diagnostics::{binding_error_view, report_error, write_failed};
use super::framework::BindContext;
use super::names::{
    assign_names, base_of, escape, k8s_name, k8s_name_spec, law_unique_name_suffix_form, law_unique_names, py_string, python_class_name,
    python_class_name_spec, python_ident, python_ident_spec, sanitized_bases, suffixed, unique_sanitized, yaml_string, NameMap,
};
use crate::diagnostics::{opt_text, texts, ValidationReport};
use crate::model::execution::{ExecutionRequirements, SchedulingIntent, SchedulingMode};
use crate::model::failure::FailureSemantics;
use crate::model::quality_gate::QualityGate;
use crate::model::lineage::PipelineLineage;
use crate::model::step::{ContractReference, PipelineStep};
use crate::paths::{has_char, has_parent_segment, no_parent_segment, safe_relative};
use crate::plan::{PipelinePlan, PlanDependencyEdge};
use crate::text::{chars_of, contains_char, insert_sorted_unique, join, join_strings, push_char, push_str, str_eq, strictly_sorted};

verus! {

/// Error message for a relative path that could escape the output root.
pub open spec fn relative_path_error(p: Seq<char>) -> Option<Seq<char>> {
    if p.len() == 0 {
        Some("binding file relative_path must not be empty"@)
    } else if contains_char(p, '\0') {
        Some("binding file relative_path must not contain NUL"@)
    } else if p[0] == '/' {
        Some("binding file relative_path must be relative, got `"@ + p + "`"@)
    } else if !no_parent_segment(p) {
        Some("binding file relative_path must not contain `..`: `"@ + p + "`"@)
    } else {
        None
    }
}

/// A binding file path is refused exactly when it is not a safe relative
/// path (the check [`crate::paths::is_safe_relative`] makes).
pub proof fn law_relative_path_check_is_safety(p: Seq<char>)
    ensures
        (relative_path_error(p) is None) == safe_relative(p),
{
}

/// Reject relative paths that can escape the output directory: empty paths,
/// paths with NUL, absolute paths, and paths with a `..` segment.
pub fn validate_relative_path(relative_path: &str) -> (r: Result<(), ValidationReport>)
    ensures
        match relative_path_error(relative_path@) {
            None => r is Ok,
            Some(m) => r matches Err(report) && report@ == seq![binding_error_view(
                "DPCS-BIND-004"@, m, "Check output path permissions and disk space"@)],
        },
{
    let v = chars_of(relative_path);
    if v.len() == 0 {
        return Err(report_error(write_failed(String::from_str("binding file relative_path must not be empty"))));
    }
    if has_char(&v, '\0') {
        return Err(report_error(write_failed(String::from_str("binding file relative_path must not contain NUL"))));
    }
    if v[0] == '/' {
        let mut m = String::from_str("binding file relative_path must be relative, got `");
        push_str(&mut m, relative_path);
        push_str(&mut m, "`");
        return Err(report_error(write_failed(m)));
    }
    if has_parent_segment(&v) {
        let mut m = String::from_str("binding file relative_path must not contain `..`: `");
        push_str(&mut m, relative_path);
        push_str(&mut m, "`");
        return Err(report_error(write_failed(m)));
    }
    Ok(())
}

/// Helper to build a Python source file artifact.
pub fn python_file(relative_path: &str, content: String) -> (r: BindingFile)
    ensures
        r.relative_path@ == relative_path@,
        r.media_type@ == "text/x-python"@,
        r.content == content,
{
    BindingFile::new(relative_path, "text/x-python", content)
}

/// Helper to build a YAML artifact.
pub fn yaml_file(relative_path: &str, content: String) -> (r: BindingFile)
    ensures
        r.relative_path@ == relative_path@,
        r.media_type@ == "application/yaml"@,
        r.content == content,
{
    BindingFile::new(relative_path, "application/yaml", content)
}

/// Stable, adapter-facing projection of a Pipeline Plan.
#[derive(Debug)]
pub struct PlanView<'a> {
    /// Source plan.
    pub plan: &'a PipelinePlan,
    /// Binding context (profile + capability report).
    pub ctx: &'a BindContext<'a>,
}

/// Cron expression of the first scheduled intent that declares one.
pub open spec fn first_cron(s: Seq<SchedulingIntent>) -> Option<Seq<char>>
    decreases s.len(),
{
    if s.len() == 0 {
        None
    } else if s[0].mode is Scheduled && s[0].cron is Some {
        opt_text(s[0].cron)
    } else {
        first_cron(s.drop_first())
    }
}

/// Timezone of the first intent that declares one.
pub open spec fn first_timezone(s: Seq<SchedulingIntent>) -> Option<Seq<char>>
    decreases s.len(),
{
    if s.len() == 0 {
        None
    } else if s[0].timezone is Some {
        opt_text(s[0].timezone)
    } else {
        first_timezone(s.drop_first())
    }
}

/// `x` is the source of some dependency edge into `step_id`.
pub open spec fn is_predecessor(edges: Seq<PlanDependencyEdge>, step_id: Seq<char>, x: Seq<char>) -> bool {
    exists|i: int| 0 <= i < edges.len() && #[trigger] edges[i].to@ == step_id && edges[i].from@ == x
}

/// Identifiers to name: the step order, then each extra not yet listed.
pub open spec fn with_extras(ids: Seq<Seq<char>>, extras: Seq<Seq<char>>) -> Seq<Seq<char>>
    decreases extras.len(),
{
    if extras.len() == 0 {
        ids
    } else {
        let prev = with_extras(ids, extras.drop_last());
        if prev.contains(extras.last()) { prev } else { prev.push(extras.last()) }
    }
}

impl<'a> PlanView<'a> {
    /// Create a plan view.
    pub fn new(plan: &'a PipelinePlan, ctx: &'a BindContext<'a>) -> (r: Self)
        ensures
            r.plan == plan,
            r.ctx == ctx,
    {
        PlanView { plan, ctx }
    }

    /// Contract identifier.
    pub fn contract_id(&self) -> (r: &str)
        ensures
            r@ == self.plan.contract_id@,
    {
        self.plan.contract_id.as_str()
    }

    /// Contract version.
    pub fn contract_version(&self) -> (r: &str)
        ensures
            r@ == self.plan.contract_version@,
    {
        self.plan.contract_version.as_str()
    }

    /// Profile identity used for binding.
    pub fn profile_identity(&self) -> (r: &str)
        ensures
            r@ == self.ctx.profile_identity@,
    {
        self.ctx.profile_identity
    }

    /// Ordered step identifiers (plan order).
    pub fn step_order(&self) -> (r: &Vec<String>)
        ensures
            r == &self.plan.step_order,
    {
        &self.plan.step_order
    }

    /// Steps in declaration order.
    pub fn steps(&self) -> (r: &Vec<PipelineStep>)
        ensures
            r == &self.plan.steps,
    {
        &self.plan.steps
    }

    /// The first step with identifier `id`.
    pub fn step(&self, id: &str) -> (r: Option<&PipelineStep>)
        ensures
            match r {
                Some(s) => exists|i: int| 0 <= i < self.plan.steps@.len() && self.plan.steps@[i] == *s
                    && s.id@ == id@ && forall|k: int| 0 <= k < i ==> (#[trigger] self.plan.steps@[k]).id@ != id@,
                None => forall|k: int| 0 <= k < self.plan.steps@.len() ==> (#[trigger] self.plan.steps@[k]).id@ != id@,
            },
    {
        let steps = &self.plan.steps;
        let mut i: usize = 0;
        while i < steps.len()
            invariant
                i <= steps@.len(),
                steps == &self.plan.steps,
                forall|k: int| 0 <= k < i ==> (#[trigger] steps@[k]).id@ != id@,
            decreases steps.len() - i,
        {
            if str_eq(steps[i].id.as_str(), id) {
                return Some(&steps[i]);
            }
            i += 1;
        }
        None
    }

    /// Dependency edges.
    pub fn dependency_edges(&self) -> (r: &Vec<PlanDependencyEdge>)
        ensures
            r == &self.plan.dependency_edges,
    {
        &self.plan.dependency_edges
    }

    /// Contract references.
    pub fn contract_references(&self) -> (r: &Vec<ContractReference>)
        ensures
            r == &self.plan.contract_references,
    {
        &self.plan.contract_references
    }

    /// Scheduling intents.
    pub fn scheduling(&self) -> (r: &Vec<SchedulingIntent>)
        ensures
            r == &self.plan.scheduling,
    {
        &self.plan.scheduling
    }

    /// Quality gates.
    pub fn quality_gates(&self) -> (r: &Vec<QualityGate>)
        ensures
            r == &self.plan.quality_gates,
    {
        &self.plan.quality_gates
    }

    /// Failure semantics.
    pub fn failure_semantics(&self) -> (r: &Vec<FailureSemantics>)
        ensures
            r == &self.plan.failure_semantics,
    {
        &self.plan.failure_semantics
    }

    /// Execution requirements.
    pub fn execution(&self) -> (r: Option<&ExecutionRequirements>)
        ensures
            match self.plan.execution {
                Some(e) => r == Some(&e),
                None => r is None,
            },
    {
        match &self.plan.execution {
            Some(e) => Some(e),
            None => None,
        }
    }

    /// First cron expression from scheduled intents, if any.
    pub fn primary_cron(&self) -> (r: Option<&str>)
        ensures
            match r {
                Some(c) => first_cron(self.plan.scheduling@) == Some(c@),
                None => first_cron(self.plan.scheduling@) is None,
            },
    {
        let s = &self.plan.scheduling;
        let mut i: usize = 0;
        assert(s@.skip(0) =~= s@);
        while i < s.len()
            invariant
                i <= s@.len(),
                s == &self.plan.scheduling,
                first_cron(s@) == first_cron(s@.skip(i as int)),
            decreases s.len() - i,
        {
            assert(s@.skip(i as int).drop_first() =~= s@.skip(i + 1));
            match (&s[i].mode, &s[i].cron) {
                (SchedulingMode::Scheduled, Some(c)) => {
                    return Some(c.as_str());
                },
                _ => {},
            }
            i += 1;
        }
        None
    }

    /// First timezone from scheduling intents, if any.
    pub fn primary_timezone(&self) -> (r: Option<&str>)
        ensures
            match r {
                Some(c) => first_timezone(self.plan.scheduling@) == Some(c@),
                None => first_timezone(self.plan.scheduling@) is None,
            },
    {
        let s = &self.plan.scheduling;
        let mut i: usize = 0;
        assert(s@.skip(0) =~= s@);
        while i < s.len()
            invariant
                i <= s@.len(),
                s == &self.plan.scheduling,
                first_timezone(s@) == first_timezone(s@.skip(i as int)),
            decreases s.len() - i,
        {
            assert(s@.skip(i as int).drop_first() =~= s@.skip(i + 1));
            match &s[i].timezone {
                Some(t) => {
                    return Some(t.as_str());
                },
                None => {},
            }
            i += 1;
        }
        None
    }

    /// Predecessor step ids for `step_id` derived from dependency edges, in
    /// ascending order without repeats.
    pub fn predecessors(&self, step_id: &str) -> (r: Vec<String>)
        ensures
            strictly_sorted(texts(r@)),
            texts(r@).to_set() == Set::new(|x: Seq<char>| is_predecessor(self.plan.dependency_edges@, step_id@, x)),
    {
        let edges = &self.plan.dependency_edges;
        let mut out: Vec<String> = Vec::new();
        assert(texts(out@).to_set() =~= Set::<Seq<char>>::empty());
        let mut i: usize = 0;
        while i < edges.len()
            invariant
                i <= edges@.len(),
                edges == &self.plan.dependency_edges,
                strictly_sorted(texts(out@)),
                texts(out@).to_set() == Set::new(|x: Seq<char>| is_predecessor(edges@.take(i as int), step_id@, x)),
            decreases edges.len() - i,
        {
            let ghost before = texts(out@).to_set();
            let hit = str_eq(edges[i].to.as_str(), step_id);
            if hit {
                assert(texts(out@) =~= out@.map_values(|s: String| s@));
                insert_sorted_unique(&mut out, edges[i].from.clone());
                assert(texts(out@) =~= out@.map_values(|s: String| s@));
            }
            proof {
                let t = edges@.take(i + 1);
                let p = edges@.take(i as int);
                let e = edges@[i as int];
                assert forall|x: Seq<char>| is_predecessor(t, step_id@, x) <==> (is_predecessor(p, step_id@, x) || (e.to@ == step_id@ && e.from@ == x)) by {
                    if is_predecessor(t, step_id@, x) {
                        let k = choose|k: int| 0 <= k < t.len() && #[trigger] t[k].to@ == step_id@ && t[k].from@ == x;
                        if k < i {
                            assert(p[k] == t[k]);
                        }
                    }
                    if is_predecessor(p, step_id@, x) {
                        let k = choose|k: int| 0 <= k < p.len() && #[trigger] p[k].to@ == step_id@ && p[k].from@ == x;
                        assert(t[k] == p[k]);
                    }
                    if e.to@ == step_id@ && e.from@ == x {
                        assert(t[i as int] == e);
                    }
                }
                if hit {
                    assert(texts(out@).to_set() =~= before.insert(e.from@));
                } else {
                    assert(texts(out@).to_set() =~= before);
                }
                assert(texts(out@).to_set() =~= Set::new(|x: Seq<char>| is_predecessor(t, step_id@, x)));
            }
            i += 1;
        }
        assert(edges@.take(edges@.len() as int) =~= edges@);
        out
    }

    /// Sanitize an identifier for use as a Python name.
    pub fn python_ident(raw: &str) -> (r: String)
        ensures
            r@ == python_ident_spec(raw@),
    {
        python_ident(raw)
    }

    /// Build a PascalCase Python class name (Temporal workflow class).
    pub fn python_class_name(raw: &str) -> (r: String)
        ensures
            r@ == python_class_name_spec(raw@),
    {
        python_class_name(raw)
    }

    /// Sanitize an identifier for use as a Kubernetes label / resource name fragment.
    pub fn k8s_name(raw: &str) -> (r: String)
        ensures
            r@ == k8s_name_spec(raw@),
    {
        k8s_name(raw)
    }

    /// Escape a string for embedding in a Python double-quoted literal.
    pub fn py_string(raw: &str) -> (r: String)
        ensures
            r@ == escape(raw@),
    {
        py_string(raw)
    }

    /// Escape a string for a YAML double-quoted scalar.
    pub fn yaml_string(raw: &str) -> (r: String)
        ensures
            r@ == escape(raw@),
    {
        yaml_string(raw)
    }
}

/// Contract shown for a step: its contract reference, else its transform
/// reference, else `-`.
pub open spec fn step_contract_text(s: PipelineStep) -> Seq<char> {
    match s.contract_ref {
        Some(c) => c@,
        None => match s.transform_ref {
            Some(t) => t@,
            None => "-"@,
        },
    }
}

/// Originating pipeline recorded in lineage provenance, if any.
pub open spec fn lineage_origin(l: Option<PipelineLineage>) -> Option<Seq<char>> {
    match l {
        Some(x) => match x.provenance {
            Some(p) => opt_text(p.originating),
            None => None,
        },
        None => None,
    }
}

/// One character kept on its line: a line feed or carriage return becomes
/// the two characters `\n` or `\r`.
pub open spec fn one_line_char(c: char) -> Seq<char> {
    if c == '\n' {
        seq!['\\', 'n']
    } else if c == '\r' {
        seq!['\\', 'r']
    } else {
        seq![c]
    }
}

/// `s` with every line feed and carriage return escaped, so that it stays on
/// one line.
pub open spec fn one_line(s: Seq<char>) -> Seq<char>
    decreases s.len(),
{
    if s.len() == 0 {
        Seq::empty()
    } else {
        one_line(s.drop_last()) + one_line_char(s.last())
    }
}

/// Lines of the header comment documenting the preserved plan semantics:
/// each value the plan embeds is kept on its line.
pub open spec fn header_lines(p: PipelinePlan, profile: Seq<char>, platform: Seq<char>) -> Seq<Seq<char>> {
    header_text_lines(p, profile, platform).map_values(|l: Seq<char>| one_line(l))
}

/// The header's lines before line breaks in embedded values are escaped.
pub open spec fn header_text_lines(p: PipelinePlan, profile: Seq<char>, platform: Seq<char>) -> Seq<Seq<char>> {
    identity_lines(p, profile, platform) + intent_lines(p) + step_lines(p) + dependency_lines(p) + reference_lines(p)
    + seq![
        "# Scaffold encodes identity/topology where the target allows; QG/FS/execution intents are documented here."@,
        "# Generated by dpcs; do not invent runtime behavior beyond the Pipeline Plan."@,
    ]
}

/// Header lines on identity, versions, and step order.
pub open spec fn identity_lines(p: PipelinePlan, profile: Seq<char>, platform: Seq<char>) -> Seq<Seq<char>> {
    seq![
        "# DPCS orchestrator binding scaffold ("@ + platform + ")"@,
        "# contractId: "@ + p.contract_id@,
        "# contractVersion: "@ + p.contract_version@,
        "# profileIdentity: "@ + profile,
        "# dpcsVersion: "@ + p.dpcs_version@,
        "# stepOrder: "@ + join(texts(p.step_order@), ", "@),
    ]
}

/// Header lines on declared intents: scheduling, gates, failure semantics,
/// required capabilities, and lineage origin.
pub open spec fn intent_lines(p: PipelinePlan) -> Seq<Seq<char>> {
    (if p.scheduling@.len() > 0 {
        seq!["# schedulingModes: "@ + join(p.scheduling@.map_values(|i: SchedulingIntent| i.mode.label()), ", "@)]
    } else {
        Seq::empty()
    })
    + (match first_cron(p.scheduling@) {
        Some(c) => seq!["# scheduleCron: "@ + c],
        None => Seq::empty(),
    })
    + (match first_timezone(p.scheduling@) {
        Some(t) => seq!["# scheduleTimezone: "@ + t],
        None => Seq::empty(),
    })
    + (if p.quality_gates@.len() > 0 {
        seq!["# qualityGates: "@ + join(p.quality_gates@.map_values(|g: QualityGate| g.id@), ", "@)]
    } else {
        Seq::empty()
    })
    + (if p.failure_semantics@.len() > 0 {
        seq!["# failureSemantics: "@ + join(p.failure_semantics@.map_values(|f: FailureSemantics| f.id@), ", "@)]
    } else {
        Seq::empty()
    })
    + (match p.execution {
        Some(e) => if e.required_capabilities@.len() > 0 {
            seq!["# requiredCapabilities: "@ + join(texts(e.required_capabilities@), ", "@)]
        } else {
            Seq::empty()
        },
        None => Seq::empty(),
    })
    + (match lineage_origin(p.lineage) {
        Some(o) => seq!["# lineageOriginating: "@ + o],
        None => Seq::empty(),
    })
}

/// One header line per step.
pub open spec fn step_lines(p: PipelinePlan) -> Seq<Seq<char>> {
    p.steps@.map_values(|s: PipelineStep| "# step "@ + s.id@ + " type="@ + s.step_type@ + " contractRef="@ + step_contract_text(s))
}

/// One header line per dependency edge.
pub open spec fn dependency_lines(p: PipelinePlan) -> Seq<Seq<char>> {
    p.dependency_edges@.map_values(|e: PlanDependencyEdge| "# dependency "@ + e.from@ + " -> "@ + e.to@)
}

/// One header line per contract reference.
pub open spec fn reference_lines(p: PipelinePlan) -> Seq<Seq<char>> {
    p.contract_references@.map_values(|r: ContractReference| "# contractReference "@ + r.id@ + " type="@ + r.reference_type@
        + " location="@ + r.location@)
}

fn mode_labels(s: &Vec<SchedulingIntent>) -> (r: Vec<String>)
    ensures
        texts(r@) == s@.map_values(|i: SchedulingIntent| i.mode.label()),
{
    let mut out: Vec<String> = Vec::new();
    let mut i: usize = 0;
    while i < s.len()
        invariant
            i <= s@.len(),
            out@.len() == i,
            forall|k: int| 0 <= k < i ==> (#[trigger] out@[k])@ == s@[k].mode.label(),
        decreases s.len() - i,
    {
        out.push(String::from_str(s[i].mode.as_str()));
        i += 1;
    }
    assert(texts(out@) =~= s@.map_values(|i: SchedulingIntent| i.mode.label()));
    out
}

fn gate_ids(s: &Vec<QualityGate>) -> (r: Vec<String>)
    ensures
        texts(r@) == s@.map_values(|g: QualityGate| g.id@),
{
    let mut out: Vec<String> = Vec::new();
    let mut i: usize = 0;
    while i < s.len()
        invariant
            i <= s@.len(),
            out@.len() == i,
            forall|k: int| 0 <= k < i ==> (#[trigger] out@[k])@ == s@[k].id@,
        decreases s.len() - i,
    {
        out.push(s[i].id.clone());
        i += 1;
    }
    assert(texts(out@) =~= s@.map_values(|g: QualityGate| g.id@));
    out
}

fn failure_ids(s: &Vec<FailureSemantics>) -> (r: Vec<String>)
    ensures
        texts(r@) == s@.map_values(|f: FailureSemantics| f.id@),
{
    let mut out: Vec<String> = Vec::new();
    let mut i: usize = 0;
    while i < s.len()
        invariant
            i <= s@.len(),
            out@.len() == i,
            forall|k: int| 0 <= k < i ==> (#[trigger] out@[k])@ == s@[k].id@,
        decreases s.len() - i,
    {
        out.push(s[i].id.clone());
        i += 1;
    }
    assert(texts(out@) =~= s@.map_values(|f: FailureSemantics| f.id@));
    out
}

fn line2(a: &str, b: &str) -> (r: String)
    ensures
        r@ == a@ + b@,
{
    let mut out = String::from_str(a);
    push_str(&mut out, b);
    out
}

fn push_line(lines: &mut Vec<String>, line: String)
    ensures
        texts(final(lines)@) == texts(old(lines)@).push(line@),
{
    lines.push(line);
    assert(texts(lines@) =~= texts(old(lines)@).push(line@));
}

fn identity_part(p: &PipelinePlan, profile: &str, platform: &str) -> (r: Vec<String>)
    ensures
        texts(r@) == identity_lines(*p, profile@, platform@),
{
    let mut lines: Vec<String> = Vec::new();
    let mut first = String::from_str("# DPCS orchestrator binding scaffold (");
    push_str(&mut first, platform);
    push_str(&mut first, ")");
    push_line(&mut lines, first);
    push_line(&mut lines, line2("# contractId: ", p.contract_id.as_str()));
    push_line(&mut lines, line2("# contractVersion: ", p.contract_version.as_str()));
    push_line(&mut lines, line2("# profileIdentity: ", profile));
    push_line(&mut lines, line2("# dpcsVersion: ", p.dpcs_version.as_str()));
    let order = join_strings(&p.step_order, ", ");
    assert(texts(p.step_order@) =~= p.step_order@.map_values(|s: String| s@));
    push_line(&mut lines, line2("# stepOrder: ", order.as_str()));
    assert(texts(lines@) =~= identity_lines(*p, profile@, platform@));
    lines
}

fn intent_part(view: &PlanView) -> (r: Vec<String>)
    ensures
        texts(r@) == intent_lines(*view.plan),
{
    let p = view.plan;
    let mut lines: Vec<String> = Vec::new();
    if p.scheduling.len() > 0 {
        let modes = mode_labels(&p.scheduling);
        let joined = join_strings(&modes, ", ");
        assert(texts(modes@) =~= modes@.map_values(|s: String| s@));
        push_line(&mut lines, line2("# schedulingModes: ", joined.as_str()));
    }
    let ghost l1 = texts(lines@);
    match view.primary_cron() {
        Some(c) => push_line(&mut lines, line2("# scheduleCron: ", c)),
        None => {},
    }
    let ghost l2 = texts(lines@);
    match view.primary_timezone() {
        Some(t) => push_line(&mut lines, line2("# scheduleTimezone: ", t)),
        None => {},
    }
    let ghost l3 = texts(lines@);
    if p.quality_gates.len() > 0 {
        let ids = gate_ids(&p.quality_gates);
        assert(texts(ids@) =~= ids@.map_values(|s: String| s@));
        push_line(&mut lines, line2("# qualityGates: ", join_strings(&ids, ", ").as_str()));
    }
    let ghost l4 = texts(lines@);
    if p.failure_semantics.len() > 0 {
        let ids = failure_ids(&p.failure_semantics);
        assert(texts(ids@) =~= ids@.map_values(|s: String| s@));
        push_line(&mut lines, line2("# failureSemantics: ", join_strings(&ids, ", ").as_str()));
    }
    let ghost l5 = texts(lines@);
    match &p.execution {
        Some(e) => {
            if e.required_capabilities.len() > 0 {
                assert(texts(e.required_capabilities@) =~= e.required_capabilities@.map_values(|s: String| s@));
                push_line(&mut lines, line2("# requiredCapabilities: ", join_strings(&e.required_capabilities, ", ").as_str()));
            }
        },
        None => {},
    }
    let ghost l6 = texts(lines@);
    match &p.lineage {
        Some(l) => match &l.provenance {
            Some(pr) => match &pr.originating {
                Some(o) => push_line(&mut lines, line2("# lineageOriginating: ", o.as_str())),
                None => {},
            },
            None => {},
        },
        None => {},
    }
    assert(texts(lines@) =~= intent_lines(*view.plan));
    lines
}

fn step_part(p: &PipelinePlan) -> (r: Vec<String>)
    ensures
        texts(r@) == step_lines(*p),
{
    let mut lines: Vec<String> = Vec::new();
    let mut i: usize = 0;
    while i < p.steps.len()
        invariant
            i <= p.steps@.len(),
            texts(lines@) == step_lines(*p).take(i as int),
        decreases p.steps.len() - i,
    {
        let st = &p.steps[i];
        let contract: &str = match &st.contract_ref {
            Some(c) => c.as_str(),
            None => match &st.transform_ref {
                Some(t) => t.as_str(),
                None => {
                    proof { reveal_strlit("-"); }
                    "-"
                },
            },
        };
        let mut line = line2("# step ", st.id.as_str());
        push_str(&mut line, " type=");
        push_str(&mut line, st.step_type.as_str());
        push_str(&mut line, " contractRef=");
        push_str(&mut line, contract);
        push_line(&mut lines, line);
        assert(texts(lines@) =~= step_lines(*p).take(i + 1));
        i += 1;
    }
    assert(step_lines(*p).take(p.steps@.len() as int) =~= step_lines(*p));
    lines
}

fn dependency_part(p: &PipelinePlan) -> (r: Vec<String>)
    ensures
        texts(r@) == dependency_lines(*p),
{
    let mut lines: Vec<String> = Vec::new();
    let mut j: usize = 0;
    while j < p.dependency_edges.len()
        invariant
            j <= p.dependency_edges@.len(),
            texts(lines@) == dependency_lines(*p).take(j as int),
        decreases p.dependency_edges.len() - j,
    {
        let e = &p.dependency_edges[j];
        let mut line = line2("# dependency ", e.from.as_str());
        push_str(&mut line, " -> ");
        push_str(&mut line, e.to.as_str());
        push_line(&mut lines, line);
        assert(texts(lines@) =~= dependency_lines(*p).take(j + 1));
        j += 1;
    }
    assert(dependency_lines(*p).take(p.dependency_edges@.len() as int) =~= dependency_lines(*p));
    lines
}

fn reference_part(p: &PipelinePlan) -> (r: Vec<String>)
    ensures
        texts(r@) == reference_lines(*p),
{
    let mut lines: Vec<String> = Vec::new();
    let mut k: usize = 0;
    while k < p.contract_references.len()
        invariant
            k <= p.contract_references@.len(),
            texts(lines@) == reference_lines(*p).take(k as int),
        decreases p.contract_references.len() - k,
    {
        let c = &p.contract_references[k];
        let mut line = line2("# contractReference ", c.id.as_str());
        push_str(&mut line, " type=");
        push_str(&mut line, c.reference_type.as_str());
        push_str(&mut line, " location=");
        push_str(&mut line, c.location.as_str());
        push_line(&mut lines, line);
        assert(texts(lines@) =~= reference_lines(*p).take(k + 1));
        k += 1;
    }
    assert(reference_lines(*p).take(p.contract_references@.len() as int) =~= reference_lines(*p));
    lines
}

fn append_lines(lines: &mut Vec<String>, more: Vec<String>)
    ensures
        texts(final(lines)@) == texts(old(lines)@) + texts(more@),
{
    let mut more = more;
    let ghost m = texts(more@);
    lines.append(&mut more);
    assert(texts(lines@) =~= texts(old(lines)@) + m);
}

fn one_line_exec(s: &str) -> (r: String)
    ensures
        r@ == one_line(s@),
{
    let v = chars_of(s);
    let mut out = String::new();
    let mut i: usize = 0;
    while i < v.len()
        invariant
            i <= v@.len(),
            v@ == s@,
            out@ == one_line(v@.take(i as int)),
        decreases v.len() - i,
    {
        let c = v[i];
        if c == '\n' {
            push_char(&mut out, '\\');
            push_char(&mut out, 'n');
        } else if c == '\r' {
            push_char(&mut out, '\\');
            push_char(&mut out, 'r');
        } else {
            push_char(&mut out, c);
        }
        proof {
            assert(v@.take(i + 1).drop_last() =~= v@.take(i as int));
        }
        assert(out@ =~= one_line(v@.take(i + 1)));
        i += 1;
    }
    assert(v@.take(v@.len() as int) =~= v@);
    out
}

fn one_line_all(lines: &Vec<String>) -> (r: Vec<String>)
    ensures
        texts(r@) == texts(lines@).map_values(|l: Seq<char>| one_line(l)),
{
    let mut out: Vec<String> = Vec::new();
    let mut i: usize = 0;
    while i < lines.len()
        invariant
            i <= lines@.len(),
            texts(out@) == texts(lines@).take(i as int).map_values(|l: Seq<char>| one_line(l)),
        decreases lines.len() - i,
    {
        let l = one_line_exec(lines[i].as_str());
        let ghost prev = texts(out@);
        out.push(l);
        proof {
            let t = texts(lines@);
            assert(texts(out@) =~= prev.push(l@));
            assert(t.take(i + 1).drop_last() =~= t.take(i as int));
            assert(t[i as int] == lines@[i as int]@);
            assert(texts(out@) =~= t.take(i + 1).map_values(|l: Seq<char>| one_line(l)));
        }
        i += 1;
    }
    assert(texts(lines@).take(lines@.len() as int) =~= texts(lines@));
    out
}

impl<'a> PlanView<'a> {
    /// Build the shared header comment block documenting preserved semantics.
    pub fn header_comment(&self, platform: &str) -> (r: String)
        ensures
            r@ == join(header_lines(*self.plan, self.ctx.profile_identity@, platform@), "\n"@),
    {
        let p = self.plan;
        let mut lines = identity_part(p, self.ctx.profile_identity, platform);
        append_lines(&mut lines, intent_part(self));
        append_lines(&mut lines, step_part(p));
        append_lines(&mut lines, dependency_part(p));
        append_lines(&mut lines, reference_part(p));
        push_line(&mut lines, String::from_str(
            "# Scaffold encodes identity/topology where the target allows; QG/FS/execution intents are documented here."));
        push_line(&mut lines, String::from_str("# Generated by dpcs; do not invent runtime behavior beyond the Pipeline Plan."));
        proof {
            assert(texts(lines@) =~= header_text_lines(*self.plan, self.ctx.profile_identity@, platform@));
        }
        let kept = one_line_all(&lines);
        proof {
            assert(texts(kept@) =~= header_lines(*self.plan, self.ctx.profile_identity@, platform@));
            assert(texts(kept@) =~= kept@.map_values(|s: String| s@));
        }
        join_strings(&kept, "\n")
    }
}

/// The step order followed by each extra not yet listed.
fn ids_with_extras(order: &Vec<String>, extras: &[&str]) -> (r: Vec<String>)
    ensures
        texts(r@) == with_extras(texts(order@), extras@.map_values(|e: &str| e@)),
        r@.len() <= order@.len() + extras@.len(),
{
    let mut ids: Vec<String> = Vec::new();
    let mut i: usize = 0;
    while i < order.len()
        invariant
            i <= order@.len(),
            ids@.len() == i,
            forall|k: int| 0 <= k < i ==> (#[trigger] ids@[k])@ == order@[k]@,
        decreases order.len() - i,
    {
        ids.push(order[i].clone());
        i += 1;
    }
    assert(texts(ids@) =~= texts(order@));
    let ghost ev = extras@.map_values(|e: &str| e@);
    let mut j: usize = 0;
    assert(ev.take(0) =~= Seq::<Seq<char>>::empty());
    while j < extras.len()
        invariant
            j <= extras@.len(),
            ev == extras@.map_values(|e: &str| e@),
            texts(ids@) == with_extras(texts(order@), ev.take(j as int)),
            ids@.len() <= order@.len() + j,
        decreases extras.len() - j,
    {
        let extra = extras[j];
        let mut found = false;
        let mut k: usize = 0;
        while k < ids.len()
            invariant
                k <= ids@.len(),
                found == (exists|m: int| 0 <= m < k && (#[trigger] ids@[m])@ == extra@),
            decreases ids.len() - k,
        {
            if str_eq(ids[k].as_str(), extra) {
                found = true;
            }
            k += 1;
        }
        proof {
            assert(ev.take(j + 1).drop_last() =~= ev.take(j as int));
            assert(ev.take(j + 1).last() == extra@);
            if found {
                let m = choose|m: int| 0 <= m < ids@.len() && (#[trigger] ids@[m])@ == extra@;
                assert(texts(ids@)[m] == extra@);
            } else {
                assert forall|m: int| 0 <= m < texts(ids@).len() implies texts(ids@)[m] != extra@ by {
                    assert(texts(ids@)[m] == ids@[m]@);
                }
            }
        }
        if !found {
            ids.push(String::from_str(extra));
            assert(texts(ids@) =~= with_extras(texts(order@), ev.take(j + 1)));
        }
        j += 1;
    }
    assert(ev.take(extras@.len() as int) =~= ev);
    ids
}

proof fn lemma_bases_python(ids: Seq<String>, bases: Seq<Seq<char>>)
    requires
        sanitized_bases(ids, python_ident, bases),
    ensures
        bases == texts(ids).map_values(|s: Seq<char>| python_ident_spec(s)),
{
    assert forall|k: int| 0 <= k < bases.len() implies bases[k] == python_ident_spec(ids[k]@) by {
        assert(base_of(python_ident, ids[k]@, bases[k]));
    }
    assert(bases =~= texts(ids).map_values(|s: Seq<char>| python_ident_spec(s)));
}

proof fn lemma_bases_k8s(ids: Seq<String>, bases: Seq<Seq<char>>)
    requires
        sanitized_bases(ids, k8s_name, bases),
    ensures
        bases == texts(ids).map_values(|s: Seq<char>| k8s_name_spec(s)),
{
    assert forall|k: int| 0 <= k < bases.len() implies bases[k] == k8s_name_spec(ids[k]@) by {
        assert(base_of(k8s_name, ids[k]@, bases[k]));
    }
    assert(bases =~= texts(ids).map_values(|s: Seq<char>| k8s_name_spec(s)));
}

impl<'a> PlanView<'a> {
    /// Unique Python identifiers for every plan step id and each extra.
    pub fn unique_python_idents(&self, extras: &[&str]) -> (r: NameMap)
        ensures
            r.keys() == with_extras(texts(self.plan.step_order@), extras@.map_values(|e: &str| e@)),
            r.names() == assign_names(r.keys().map_values(|s: Seq<char>| python_ident_spec(s))),
            forall|x: Seq<char>| #[trigger] r.keys().contains(x) <==> (texts(self.plan.step_order@).contains(x)
                || extras@.map_values(|e: &str| e@).contains(x)),
            r.names().len() == r.keys().len(),
            forall|i: int, j: int| 0 <= i < j < r.keys().len() ==> r.names()[i] != r.names()[j],
            forall|i: int| 0 <= i < r.keys().len() ==> {
                let n = #[trigger] r.names()[i];
                n == python_ident_spec(r.keys()[i]) || exists|k: nat| k >= 2 && n == suffixed(python_ident_spec(r.keys()[i]), k)
            },
    {
        let ids = ids_with_extras(&self.plan.step_order, extras);
        let r = unique_sanitized(ids.as_slice(), python_ident);
        proof {
            let bases = choose|bases: Seq<Seq<char>>| #[trigger] sanitized_bases(ids@, python_ident, bases) && r.names() == assign_names(bases);
            lemma_bases_python(ids@, bases);
            assert(texts(ids@) =~= ids@.map_values(|s: String| s@));
            law_plan_python_idents(texts(self.plan.step_order@), extras@.map_values(|e: &str| e@));
        }
        r
    }

    /// Unique Kubernetes name fragments for every plan step id and each extra.
    pub fn unique_k8s_names(&self, extras: &[&str]) -> (r: NameMap)
        ensures
            r.keys() == with_extras(texts(self.plan.step_order@), extras@.map_values(|e: &str| e@)),
            r.names() == assign_names(r.keys().map_values(|s: Seq<char>| k8s_name_spec(s))),
            r.names().len() == r.keys().len(),
            forall|i: int, j: int| 0 <= i < j < r.keys().len() ==> r.names()[i] != r.names()[j],
            forall|i: int| 0 <= i < r.keys().len() ==> {
                let n = #[trigger] r.names()[i];
                n == k8s_name_spec(r.keys()[i]) || exists|k: nat| k >= 2 && n == suffixed(k8s_name_spec(r.keys()[i]), k)
            },
    {
        let ids = ids_with_extras(&self.plan.step_order, extras);
        let r = unique_sanitized(ids.as_slice(), k8s_name);
        proof {
            let bases = choose|bases: Seq<Seq<char>>| #[trigger] sanitized_bases(ids@, k8s_name, bases) && r.names() == assign_names(bases);
            lemma_bases_k8s(ids@, bases);
            assert(texts(ids@) =~= ids@.map_values(|s: String| s@));
            law_plan_k8s_names(texts(self.plan.step_order@), extras@.map_values(|e: &str| e@));
        }
        r
    }
}


/// A line that a `#` comment fills: it starts with `#` and a space.
pub open spec fn is_comment_line(l: Seq<char>) -> bool {
    l.len() >= 2 && l[0] == '#' && l[1] == ' '
}

/// Every line of `ls` is a comment line.
pub open spec fn all_comment_lines(ls: Seq<Seq<char>>) -> bool {
    forall|i: int| 0 <= i < ls.len() ==> is_comment_line(#[trigger] ls[i])
}

proof fn lemma_comment_prefix(head: Seq<char>, rest: Seq<char>)
    requires
        is_comment_line(head),
    ensures
        is_comment_line(head + rest),
{
    assert((head + rest)[0] == head[0] && (head + rest)[1] == head[1]);
}

proof fn lemma_comment_concat(a: Seq<Seq<char>>, b: Seq<Seq<char>>)
    requires
        all_comment_lines(a),
        all_comment_lines(b),
    ensures
        all_comment_lines(a + b),
{
    assert forall|i: int| 0 <= i < (a + b).len() implies is_comment_line(#[trigger] (a + b)[i]) by {
        if i < a.len() {
            assert((a + b)[i] == a[i]);
        } else {
            assert((a + b)[i] == b[i - a.len()]);
        }
    }
}

proof fn lemma_comment_single(head: Seq<char>, rest: Seq<char>)
    requires
        is_comment_line(head),
    ensures
        all_comment_lines(seq![head + rest]),
{
    lemma_comment_prefix(head, rest);
}

proof fn lemma_intent_lines_are_comments(p: PipelinePlan)
    ensures
        all_comment_lines(intent_lines(p)),
{
    reveal_strlit("# schedulingModes: ");
    reveal_strlit("# scheduleCron: ");
    reveal_strlit("# scheduleTimezone: ");
    reveal_strlit("# qualityGates: ");
    reveal_strlit("# failureSemantics: ");
    reveal_strlit("# requiredCapabilities: ");
    reveal_strlit("# lineageOriginating: ");
    let e: Seq<Seq<char>> = Seq::empty();
    let a = if p.scheduling@.len() > 0 {
        seq!["# schedulingModes: "@ + join(p.scheduling@.map_values(|i: SchedulingIntent| i.mode.label()), ", "@)]
    } else {
        e
    };
    let b = match first_cron(p.scheduling@) {
        Some(c) => seq!["# scheduleCron: "@ + c],
        None => e,
    };
    let c = match first_timezone(p.scheduling@) {
        Some(t) => seq!["# scheduleTimezone: "@ + t],
        None => e,
    };
    let d = if p.quality_gates@.len() > 0 {
        seq!["# qualityGates: "@ + join(p.quality_gates@.map_values(|g: QualityGate| g.id@), ", "@)]
    } else {
        e
    };
    let f = if p.failure_semantics@.len() > 0 {
        seq!["# failureSemantics: "@ + join(p.failure_semantics@.map_values(|f: FailureSemantics| f.id@), ", "@)]
    } else {
        e
    };
    let g = match p.execution {
        Some(x) => if x.required_capabilities@.len() > 0 {
            seq!["# requiredCapabilities: "@ + join(texts(x.required_capabilities@), ", "@)]
        } else {
            e
        },
        None => e,
    };
    let h = match lineage_origin(p.lineage) {
        Some(o) => seq!["# lineageOriginating: "@ + o],
        None => e,
    };
    assert(all_comment_lines(a)) by {
        if p.scheduling@.len() > 0 {
            lemma_comment_single("# schedulingModes: "@, join(p.scheduling@.map_values(|i: SchedulingIntent| i.mode.label()), ", "@));
        }
    }
    assert(all_comment_lines(b)) by {
        if let Some(x) = first_cron(p.scheduling@) {
            lemma_comment_single("# scheduleCron: "@, x);
        }
    }
    assert(all_comment_lines(c)) by {
        if let Some(x) = first_timezone(p.scheduling@) {
            lemma_comment_single("# scheduleTimezone: "@, x);
        }
    }
    assert(all_comment_lines(d)) by {
        if p.quality_gates@.len() > 0 {
            lemma_comment_single("# qualityGates: "@, join(p.quality_gates@.map_values(|g: QualityGate| g.id@), ", "@));
        }
    }
    assert(all_comment_lines(f)) by {
        if p.failure_semantics@.len() > 0 {
            lemma_comment_single("# failureSemantics: "@, join(p.failure_semantics@.map_values(|f: FailureSemantics| f.id@), ", "@));
        }
    }
    assert(all_comment_lines(g)) by {
        if let Some(x) = p.execution {
            if x.required_capabilities@.len() > 0 {
                lemma_comment_single("# requiredCapabilities: "@, join(texts(x.required_capabilities@), ", "@));
            }
        }
    }
    assert(all_comment_lines(h)) by {
        if let Some(x) = lineage_origin(p.lineage) {
            lemma_comment_single("# lineageOriginating: "@, x);
        }
    }
    lemma_comment_concat(a, b);
    lemma_comment_concat(a + b, c);
    lemma_comment_concat(a + b + c, d);
    lemma_comment_concat(a + b + c + d, f);
    lemma_comment_concat(a + b + c + d + f, g);
    lemma_comment_concat(a + b + c + d + f + g, h);
    assert(intent_lines(p) == a + b + c + d + f + g + h);
}

proof fn lemma_text_lines_are_comments(p: PipelinePlan, profile: Seq<char>, platform: Seq<char>)
    ensures
        all_comment_lines(header_text_lines(p, profile, platform)),
{
    reveal_strlit("# DPCS orchestrator binding scaffold (");
    reveal_strlit("# contractId: ");
    reveal_strlit("# contractVersion: ");
    reveal_strlit("# profileIdentity: ");
    reveal_strlit("# dpcsVersion: ");
    reveal_strlit("# stepOrder: ");
    reveal_strlit("# step ");
    reveal_strlit("# dependency ");
    reveal_strlit("# contractReference ");
    reveal_strlit("# Scaffold encodes identity/topology where the target allows; QG/FS/execution intents are documented here.");
    reveal_strlit("# Generated by dpcs; do not invent runtime behavior beyond the Pipeline Plan.");
    let id = identity_lines(p, profile, platform);
    assert(all_comment_lines(id)) by {
        lemma_comment_prefix("# DPCS orchestrator binding scaffold ("@, platform);
        lemma_comment_prefix("# DPCS orchestrator binding scaffold ("@ + platform, ")"@);
        lemma_comment_prefix("# contractId: "@, p.contract_id@);
        lemma_comment_prefix("# contractVersion: "@, p.contract_version@);
        lemma_comment_prefix("# profileIdentity: "@, profile);
        lemma_comment_prefix("# dpcsVersion: "@, p.dpcs_version@);
        lemma_comment_prefix("# stepOrder: "@, join(texts(p.step_order@), ", "@));
    }
    lemma_intent_lines_are_comments(p);
    let st = step_lines(p);
    assert(all_comment_lines(st)) by {
        assert forall|i: int| 0 <= i < st.len() implies is_comment_line(#[trigger] st[i]) by {
            let x = p.steps@[i];
            lemma_comment_prefix("# step "@, x.id@);
            lemma_comment_prefix("# step "@ + x.id@, " type="@);
            lemma_comment_prefix("# step "@ + x.id@ + " type="@, x.step_type@);
            lemma_comment_prefix("# step "@ + x.id@ + " type="@ + x.step_type@, " contractRef="@);
            lemma_comment_prefix("# step "@ + x.id@ + " type="@ + x.step_type@ + " contractRef="@, step_contract_text(x));
        }
    }
    let dl = dependency_lines(p);
    assert(all_comment_lines(dl)) by {
        assert forall|i: int| 0 <= i < dl.len() implies is_comment_line(#[trigger] dl[i]) by {
            let x = p.dependency_edges@[i];
            lemma_comment_prefix("# dependency "@, x.from@);
            lemma_comment_prefix("# dependency "@ + x.from@, " -> "@);
            lemma_comment_prefix("# dependency "@ + x.from@ + " -> "@, x.to@);
        }
    }
    let rl = reference_lines(p);
    assert(all_comment_lines(rl)) by {
        assert forall|i: int| 0 <= i < rl.len() implies is_comment_line(#[trigger] rl[i]) by {
            let x = p.contract_references@[i];
            lemma_comment_prefix("# contractReference "@, x.id@);
            lemma_comment_prefix("# contractReference "@ + x.id@, " type="@);
            lemma_comment_prefix("# contractReference "@ + x.id@ + " type="@, x.reference_type@);
            lemma_comment_prefix("# contractReference "@ + x.id@ + " type="@ + x.reference_type@, " location="@);
            lemma_comment_prefix("# contractReference "@ + x.id@ + " type="@ + x.reference_type@ + " location="@, x.location@);
        }
    }
    let tail = seq![
        "# Scaffold encodes identity/topology where the target allows; QG/FS/execution intents are documented here."@,
        "# Generated by dpcs; do not invent runtime behavior beyond the Pipeline Plan."@,
    ];
    assert(all_comment_lines(tail));
    let il = intent_lines(p);
    lemma_comment_concat(id, il);
    lemma_comment_concat(id + il, st);
    lemma_comment_concat(id + il + st, dl);
    lemma_comment_concat(id + il + st + dl, rl);
    lemma_comment_concat(id + il + st + dl + rl, tail);
}


proof fn lemma_one_line_split(s: Seq<char>, k: int)
    requires
        0 <= k <= s.len(),
    ensures
        one_line(s) == one_line(s.take(k)) + one_line(s.skip(k)),
    decreases s.len(),
{
    if k == s.len() {
        assert(s.take(k) =~= s);
        assert(s.skip(k).len() == 0);
        assert(one_line(s.skip(k)) =~= Seq::<char>::empty());
        assert(one_line(s) + Seq::<char>::empty() =~= one_line(s));
    } else {
        let d = s.drop_last();
        lemma_one_line_split(d, k);
        assert(d.take(k) =~= s.take(k));
        assert(s.skip(k).drop_last() =~= d.skip(k));
        assert(s.skip(k).last() == s.last());
        assert(one_line(s.skip(k)) == one_line(d.skip(k)) + one_line_char(s.last()));
        assert(one_line(s) == one_line(d) + one_line_char(s.last()));
        assert(one_line(s) =~= one_line(s.take(k)) + one_line(s.skip(k)));
    }
}

proof fn lemma_one_line_shape(s: Seq<char>)
    ensures
        forall|i: int| 0 <= i < one_line(s).len() ==> #[trigger] one_line(s)[i] != '\n' && one_line(s)[i] != '\r',
        is_comment_line(s) ==> is_comment_line(one_line(s)),
    decreases s.len(),
{
    if s.len() > 0 {
        let d = s.drop_last();
        lemma_one_line_shape(d);
        let a = one_line(d);
        let b = one_line_char(s.last());
        assert(one_line(s) == a + b);
        assert forall|i: int| 0 <= i < one_line(s).len() implies #[trigger] one_line(s)[i] != '\n' && one_line(s)[i] != '\r' by {
            if i < a.len() {
                assert(one_line(s)[i] == a[i]);
            } else {
                assert(one_line(s)[i] == b[i - a.len()]);
            }
        }
        if is_comment_line(s) {
            lemma_one_line_split(s, 2);
            let t = s.take(2);
            assert(t.drop_last() =~= seq![s[0]]);
            assert(seq![s[0]].drop_last() =~= Seq::<char>::empty());
            assert(one_line(seq![s[0]]) == one_line(Seq::<char>::empty()) + one_line_char(s[0]));
            assert(one_line(t) == one_line(seq![s[0]]) + one_line_char(s[1]));
            assert(one_line(t) =~= seq!['#', ' ']);
            assert(one_line(s)[0] == one_line(t)[0] && one_line(s)[1] == one_line(t)[1]);
        }
    }
}

/// Lines joined by line feeds, each a comment line without a line break.
proof fn lemma_join_comment_lines(ls: Seq<Seq<char>>)
    requires
        ls.len() > 0,
        forall|k: int| 0 <= k < ls.len() ==> is_comment_line(#[trigger] ls[k]),
        forall|k: int, i: int| 0 <= k < ls.len() && 0 <= i < ls[k].len() ==> #[trigger] ls[k][i] != '\n',
    ensures
        join(ls, "\n"@).len() > 0,
        join(ls, "\n"@)[0] == '#',
        join(ls, "\n"@).last() != '\n',
        forall|i: int| 0 <= i < join(ls, "\n"@).len() - 1 && #[trigger] join(ls, "\n"@)[i] == '\n'
            ==> join(ls, "\n"@)[i + 1] == '#',
    decreases ls.len(),
{
    reveal_strlit("\n");
    let r = join(ls, "\n"@);
    if ls.len() == 1 {
        assert(r == ls[0]);
        assert(r.last() == ls[0][ls[0].len() - 1]);
        assert forall|i: int| 0 <= i < r.len() - 1 && #[trigger] r[i] == '\n' implies r[i + 1] == '#' by {
            assert(ls[0][i] != '\n');
        }
    } else {
        let d = ls.drop_last();
        let l = ls.last();
        assert forall|k: int| 0 <= k < d.len() implies is_comment_line(#[trigger] d[k]) by {
            assert(d[k] == ls[k]);
        }
        assert forall|k: int, i: int| 0 <= k < d.len() && 0 <= i < d[k].len() implies #[trigger] d[k][i] != '\n' by {
            assert(d[k] == ls[k]);
        }
        lemma_join_comment_lines(d);
        let a = join(d, "\n"@);
        assert(is_comment_line(ls[ls.len() - 1]));
        assert(r == a + "\n"@ + l);
        let m = a + "\n"@;
        assert(r[0] == a[0]);
        assert(r.last() == l[l.len() - 1]);
        assert(l[l.len() - 1] != '\n');
        assert forall|i: int| 0 <= i < r.len() - 1 && #[trigger] r[i] == '\n' implies r[i + 1] == '#' by {
            if i < a.len() - 1 {
                assert(r[i] == a[i] && r[i + 1] == a[i + 1]);
            } else if i == a.len() - 1 {
                assert(r[i] == a.last());
            } else if i == a.len() {
                assert(r[i + 1] == l[0]);
            } else {
                assert(r[i] == l[i - m.len()]);
                assert(l[i - m.len()] != '\n');
            }
        }
    }
}

/// The header that a binding file opens with is a comment block: it starts
/// with `#` and every line break in it is followed by `#`, whatever the plan
/// holds, since line breaks inside embedded values are escaped; it has one
/// line per header line, each a `#` comment line.
pub proof fn law_header_lines_are_comments(p: PipelinePlan, profile: Seq<char>, platform: Seq<char>)
    ensures
        all_comment_lines(header_lines(p, profile, platform)),
        header_lines(p, profile, platform).len() == header_text_lines(p, profile, platform).len(),
        join(header_lines(p, profile, platform), "\n"@).len() > 0,
        join(header_lines(p, profile, platform), "\n"@)[0] == '#',
        forall|i: int| 0 <= i < join(header_lines(p, profile, platform), "\n"@).len() - 1
            && #[trigger] join(header_lines(p, profile, platform), "\n"@)[i] == '\n'
            ==> join(header_lines(p, profile, platform), "\n"@)[i + 1] == '#',
{
    lemma_text_lines_are_comments(p, profile, platform);
    let raw = header_text_lines(p, profile, platform);
    let ls = header_lines(p, profile, platform);
    assert forall|k: int| 0 <= k < ls.len() implies is_comment_line(#[trigger] ls[k]) by {
        lemma_one_line_shape(raw[k]);
    }
    assert forall|k: int, i: int| 0 <= k < ls.len() && 0 <= i < ls[k].len() implies #[trigger] ls[k][i] != '\n' by {
        lemma_one_line_shape(raw[k]);
        assert(ls[k] == one_line(raw[k]));
    }
    assert(raw.len() > 0) by {
        assert(raw == identity_lines(p, profile, platform) + intent_lines(p) + step_lines(p) + dependency_lines(p)
            + reference_lines(p) + seq![
            "# Scaffold encodes identity/topology where the target allows; QG/FS/execution intents are documented here."@,
            "# Generated by dpcs; do not invent runtime behavior beyond the Pipeline Plan."@,
        ]);
    }
    lemma_join_comment_lines(ls);
}

/// Text without line feeds or carriage returns is kept as it is.
pub proof fn law_one_line_keeps_plain_text(s: Seq<char>)
    requires
        forall|i: int| 0 <= i < s.len() ==> #[trigger] s[i] != '\n' && s[i] != '\r',
    ensures
        one_line(s) == s,
    decreases s.len(),
{
    if s.len() > 0 {
        let d = s.drop_last();
        assert forall|i: int| 0 <= i < d.len() implies #[trigger] d[i] != '\n' && d[i] != '\r' by {
            assert(d[i] == s[i]);
        }
        law_one_line_keeps_plain_text(d);
        assert(s[s.len() - 1] != '\n' && s[s.len() - 1] != '\r');
        assert(one_line(s) =~= s);
    }
}

proof fn lemma_with_extras_from(ids: Seq<Seq<char>>, extras: Seq<Seq<char>>, x: Seq<char>)
    requires
        with_extras(ids, extras).contains(x),
    ensures
        ids.contains(x) || extras.contains(x),
    decreases extras.len(),
{
    if extras.len() > 0 {
        let prev = with_extras(ids, extras.drop_last());
        if prev.contains(x) {
            lemma_with_extras_from(ids, extras.drop_last(), x);
            if extras.drop_last().contains(x) {
                let k = choose|k: int| 0 <= k < extras.drop_last().len() && extras.drop_last()[k] == x;
                assert(extras[k] == x);
            }
        } else {
            assert(x == extras.last());
            assert(extras[extras.len() - 1] == x);
        }
    }
}

/// The Python identifiers of a plan view name exactly the plan's steps and
/// the extras, each once; the identifiers are pairwise distinct; and each is
/// the key's sanitized Python identifier, or that identifier followed by `__`
/// and a number of at least 2.
pub proof fn law_plan_python_idents(order: Seq<Seq<char>>, extras: Seq<Seq<char>>)
    ensures
        forall|x: Seq<char>| #[trigger] with_extras(order, extras).contains(x) <==> (order.contains(x) || extras.contains(x)),
        ({
            let keys = with_extras(order, extras);
            let names = assign_names(keys.map_values(|s: Seq<char>| python_ident_spec(s)));
            &&& names.len() == keys.len()
            &&& forall|i: int, j: int| 0 <= i < j < keys.len() ==> names[i] != names[j]
            &&& forall|i: int| 0 <= i < keys.len() ==> {
                let n = #[trigger] names[i];
                n == python_ident_spec(keys[i]) || exists|k: nat| k >= 2 && n == suffixed(python_ident_spec(keys[i]), k)
            }
        }),
{
    let keys = with_extras(order, extras);
    assert forall|x: Seq<char>| #[trigger] keys.contains(x) <==> (order.contains(x) || extras.contains(x)) by {
        if keys.contains(x) {
            lemma_with_extras_from(order, extras, x);
        }
        if order.contains(x) {
            let k = choose|k: int| 0 <= k < order.len() && order[k] == x;
            super::scaffold::lemma_with_extras_keeps(order, extras, k);
        }
        if extras.contains(x) {
            let k = choose|k: int| 0 <= k < extras.len() && extras[k] == x;
            super::scaffold::lemma_with_extras_contains(order, extras, k);
        }
    }
    let bases = keys.map_values(|s: Seq<char>| python_ident_spec(s));
    law_unique_names(bases);
    law_unique_name_suffix_form(bases);
}

/// The Kubernetes names of a plan view name exactly the plan's steps and the
/// extras, each once; the names are pairwise distinct; and each is the key's
/// sanitized Kubernetes name, or that name followed by `__` and a number of at
/// least 2.
pub proof fn law_plan_k8s_names(order: Seq<Seq<char>>, extras: Seq<Seq<char>>)
    ensures
        ({
            let keys = with_extras(order, extras);
            let names = assign_names(keys.map_values(|s: Seq<char>| k8s_name_spec(s)));
            &&& names.len() == keys.len()
            &&& forall|i: int, j: int| 0 <= i < j < keys.len() ==> names[i] != names[j]
            &&& forall|i: int| 0 <= i < keys.len() ==> {
                let n = #[trigger] names[i];
                n == k8s_name_spec(keys[i]) || exists|k: nat| k >= 2 && n == suffixed(k8s_name_spec(keys[i]), k)
            }
        }),
{
    let keys = with_extras(order, extras);
    let bases = keys.map_values(|s: Seq<char>| k8s_name_spec(s));
    law_unique_names(bases);
    law_unique_name_suffix_form(bases);
}

} // verus!
