//! Markdown report renderers.
use vstd::prelude::*;

use super::graph_export::{graph_nodes, graph_to_mermaid, mermaid_lines};
use super::views::{GraphView, InspectView};
use crate::capabilities::evaluate::CapabilityReport;
use crate::compatibility::compare::CompatibilityReport;
use crate::diagnostics::report::{diag_views, with_severity, DiagnosticReport};
use crate::diagnostics::{texts, Diagnostic, DiagnosticView, Severity, ValidationReport};
use crate::text::{chars_of, decimal, join, join_strings, push_char, push_str, strictly_sorted, usize_string};

verus! {

/// Table cell text: `|` escaped, and line breaks turned into spaces when
/// `flatten` holds.
pub open spec fn cell(s: Seq<char>, flatten: bool) -> Seq<char>
    decreases s.len(),
{
    if s.len() == 0 {
        Seq::empty()
    } else {
        let c = s.last();
        cell(s.drop_last(), flatten) + if c == '|' { "\\|"@ } else if flatten && c == '\n' { " "@ } else { seq![c] }
    }
}

/// Optional text, empty when absent.
pub open spec fn text_or_empty(o: Option<Seq<char>>) -> Seq<char> {
    match o {
        Some(s) => s,
        None => Seq::empty(),
    }
}

/// One table row for a diagnostic.
pub open spec fn diagnostic_row(d: DiagnosticView) -> Seq<char> {
    "| "@ + d.severity.label() + " | `"@ + cell(d.id, false) + "` | "@ + cell(d.stage.label(), false) + " | "@
        + cell(text_or_empty(d.object_ref), true) + " | "@ + cell(d.message, true) + " |\n"@
}

/// Texts concatenated.
pub open spec fn concat(s: Seq<Seq<char>>) -> Seq<char>
    decreases s.len(),
{
    if s.len() == 0 { Seq::empty() } else { concat(s.drop_last()) + s.last() }
}

/// The concatenation of a list of texts holds each of them in place.
pub proof fn lemma_concat_holds(s: Seq<Seq<char>>, k: int)
    requires
        0 <= k < s.len(),
    ensures
        concat(s) == concat(s.take(k)) + s[k] + concat(s.skip(k + 1)),
    decreases s.len(),
{
    if k == s.len() - 1 {
        assert(s.take(k) =~= s.drop_last());
        assert(s.skip(k + 1).len() == 0);
        assert(concat(s.skip(k + 1)) =~= Seq::<char>::empty());
        assert(concat(s) =~= concat(s.take(k)) + s[k] + concat(s.skip(k + 1)));
    } else {
        let d = s.drop_last();
        lemma_concat_holds(d, k);
        assert(d.take(k) =~= s.take(k));
        assert(s.skip(k + 1).drop_last() =~= d.skip(k + 1));
        assert(s.skip(k + 1).last() == s.last());
        assert(concat(s) =~= concat(s.take(k)) + s[k] + concat(s.skip(k + 1)));
    }
}

/// A diagnostics table, or a note that there are none.
pub open spec fn diagnostic_list(ds: Seq<DiagnosticView>) -> Seq<char> {
    if ds.len() == 0 {
        "_No diagnostics._\n"@
    } else {
        "| Severity | Id | Stage | Object | Message |\n"@ + "| --- | --- | --- | --- | --- |\n"@
            + concat(ds.map_values(|d: DiagnosticView| diagnostic_row(d)))
    }
}

fn cell_exec(s: &str, flatten: bool) -> (r: String)
    ensures
        r@ == cell(s@, flatten),
{
    let v = chars_of(s);
    let mut out = String::new();
    let mut i: usize = 0;
    while i < v.len()
        invariant
            i <= v@.len(),
            v@ == s@,
            out@ == cell(v@.take(i as int), flatten),
        decreases v.len() - i,
    {
        let c = v[i];
        if c == '|' {
            push_str(&mut out, "\\|");
        } else if flatten && c == '\n' {
            push_str(&mut out, " ");
        } else {
            push_char(&mut out, c);
        }
        proof {
            reveal_strlit("\\|");
            reveal_strlit(" ");
            assert(v@.take(i + 1).drop_last() =~= v@.take(i as int));
        }
        assert(out@ =~= cell(v@.take(i + 1), flatten));
        i += 1;
    }
    assert(v@.take(v@.len() as int) =~= v@);
    out
}

fn push_diagnostic_list(out: &mut String, ds: &Vec<Diagnostic>)
    ensures
        final(out)@ == old(out)@ + diagnostic_list(diag_views(ds@)),
{
    if ds.len() == 0 {
        push_str(out, "_No diagnostics._\n");
        return;
    }
    let ghost start = out@;
    push_str(out, "| Severity | Id | Stage | Object | Message |\n");
    push_str(out, "| --- | --- | --- | --- | --- |\n");
    let ghost head = out@;
    let ghost views = diag_views(ds@);
    let mut i: usize = 0;
    while i < ds.len()
        invariant
            i <= ds@.len(),
            views == diag_views(ds@),
            out@ == head + concat(views.take(i as int).map_values(|d: DiagnosticView| diagnostic_row(d))),
        decreases ds.len() - i,
    {
        let d = &ds[i];
        push_str(out, "| ");
        push_str(out, d.severity.as_str());
        push_str(out, " | `");
        push_str(out, cell_exec(d.id.as_str(), false).as_str());
        push_str(out, "` | ");
        push_str(out, cell_exec(d.stage.as_str(), false).as_str());
        push_str(out, " | ");
        let object: &str = match &d.object_ref {
            Some(o) => o.as_str(),
            None => {
                proof { reveal_strlit(""); }
                ""
            },
        };
        push_str(out, cell_exec(object, true).as_str());
        push_str(out, " | ");
        push_str(out, cell_exec(d.message.as_str(), true).as_str());
        push_str(out, " |\n");
        proof {
            let t = views.take(i + 1).map_values(|d: DiagnosticView| diagnostic_row(d));
            assert(views.take(i as int).map_values(|d: DiagnosticView| diagnostic_row(d)) =~= t.drop_last());
            assert(t.last() == diagnostic_row(views[i as int]));
        }
        assert(out@ =~= head + concat(views.take(i + 1).map_values(|d: DiagnosticView| diagnostic_row(d))));
        i += 1;
    }
    assert(views.take(views.len() as int) =~= views);
    assert(out@ =~= start + diagnostic_list(diag_views(ds@)));
}

/// Markdown for a validation report.
pub open spec fn validation_markdown(ds: Seq<DiagnosticView>) -> Seq<char> {
    "# Validation Report\n\n"@ + "**Summary:** "@ + decimal(with_severity(ds, Severity::Error).len()) + " error(s), "@
        + decimal(with_severity(ds, Severity::Warning).len()) + " warning(s), "@
        + decimal(with_severity(ds, Severity::Information).len()) + " information(s)\n\n"@
        + "## Diagnostics\n\n"@ + diagnostic_list(ds)
}

/// Render a validation report as Markdown.
pub fn validation_to_markdown(report: &ValidationReport) -> (r: String)
    ensures
        r@ == validation_markdown(report@),
{
    let mut out = String::from_str("# Validation Report\n\n");
    push_str(&mut out, "**Summary:** ");
    push_str(&mut out, usize_string(report.error_count()).as_str());
    push_str(&mut out, " error(s), ");
    push_str(&mut out, usize_string(report.warning_count()).as_str());
    push_str(&mut out, " warning(s), ");
    push_str(&mut out, usize_string(report.information_count()).as_str());
    push_str(&mut out, " information(s)\n\n");
    push_str(&mut out, "## Diagnostics\n\n");
    push_diagnostic_list(&mut out, &report.diagnostics);
    assert(out@ =~= validation_markdown(report@));
    out
}

/// Markdown for a diagnostic report wrapper.
pub open spec fn diagnostic_report_markdown(r: DiagnosticReport) -> Seq<char> {
    "# Diagnostic Report\n\n"@
        + "- **Processing result:** "@ + (if r.processing_result == crate::diagnostics::report::ProcessingResult::Valid {
            "valid"@
        } else {
            "invalid"@
        }) + "\n"@
        + (match r.artifact_id {
            Some(id) => "- **Artifact:** `"@ + id@ + "`\n"@,
            None => Seq::empty(),
        })
        + "- **Implementation:** "@ + r.implementation.name@ + " "@ + r.implementation.version@ + "\n\n"@
        + "## Diagnostics\n\n"@ + diagnostic_list(diag_views(r.diagnostics@))
}

/// Render a diagnostic report wrapper as Markdown.
pub fn diagnostic_to_markdown(report: &DiagnosticReport) -> (r: String)
    ensures
        r@ == diagnostic_report_markdown(*report),
{
    let mut out = String::from_str("# Diagnostic Report\n\n");
    push_str(&mut out, "- **Processing result:** ");
    push_str(&mut out, report.processing_result.as_str());
    push_str(&mut out, "\n");
    let ghost a = out@;
    match &report.artifact_id {
        Some(id) => {
            push_str(&mut out, "- **Artifact:** `");
            push_str(&mut out, id.as_str());
            push_str(&mut out, "`\n");
        },
        None => {},
    }
    let ghost b = out@;
    push_str(&mut out, "- **Implementation:** ");
    push_str(&mut out, report.implementation.name.as_str());
    push_str(&mut out, " ");
    push_str(&mut out, report.implementation.version.as_str());
    push_str(&mut out, "\n\n");
    push_str(&mut out, "## Diagnostics\n\n");
    push_diagnostic_list(&mut out, &report.diagnostics);
    assert(out@ =~= diagnostic_report_markdown(*report));
    out
}

/// `true` or `false`.
pub open spec fn bool_text(b: bool) -> Seq<char> {
    if b { "true"@ } else { "false"@ }
}

fn bool_str(b: bool) -> (r: &'static str)
    ensures
        r@ == bool_text(b),
{
    if b {
        proof { reveal_strlit("true"); }
        "true"
    } else {
        proof { reveal_strlit("false"); }
        "false"
    }
}

/// Markdown summary lines of an inspect view (counts and flags).
pub open spec fn inspect_counts(v: InspectView) -> Seq<char> {
    inspect_counts_a(v) + inspect_counts_b(v) + inspect_counts_c(v) + inspect_counts_d(v)
}

pub open spec fn inspect_counts_a(v: InspectView) -> Seq<char> {
    "- **Version:** "@ + v.version@ + "\n"@
        + "- **DPCS version:** "@ + v.dpcs_version@ + "\n"@
        + "- **Valid:** "@ + bool_text(v.valid) + "\n"@
        + "- **Steps:** "@ + decimal(v.step_count as nat) + "\n"@
}

pub open spec fn inspect_counts_b(v: InspectView) -> Seq<char> {
    "- **Edges:** "@ + decimal(v.edge_count as nat) + "\n"@
        + "- **Inputs:** "@ + decimal(v.input_count as nat) + "\n"@
        + "- **Outputs:** "@ + decimal(v.output_count as nat) + "\n"@
        + "- **Contract references:** "@ + decimal(v.contract_reference_count as nat) + "\n"@
}

pub open spec fn inspect_counts_c(v: InspectView) -> Seq<char> {
    "- **Data flow:** "@ + decimal(v.data_flow_count as nat) + "\n"@
        + "- **Control flow:** "@ + decimal(v.control_flow_count as nat) + "\n"@
        + "- **Scheduling:** "@ + decimal(v.scheduling_count as nat) + "\n"@
        + "- **Quality gates:** "@ + decimal(v.quality_gate_count as nat) + "\n"@
}

pub open spec fn inspect_counts_d(v: InspectView) -> Seq<char> {
    "- **Failure semantics:** "@ + decimal(v.failure_semantics_count as nat) + "\n"@
        + "- **Execution:** "@ + bool_text(v.has_execution) + "\n"@
        + "- **Lineage:** "@ + bool_text(v.has_lineage) + "\n"@
}

/// Markdown for an inspect view.
pub open spec fn inspect_markdown(v: InspectView) -> Seq<char> {
    "# Pipeline Inspect\n\n"@ + "- **Id:** `"@ + v.id@ + "`\n"@
        + (match v.name {
            Some(n) => "- **Name:** "@ + n@ + "\n"@,
            None => Seq::empty(),
        })
        + inspect_counts(v)
        + (match v.step_order {
            Some(o) => "- **Step order:** "@ + join(texts(o@), ", "@) + "\n"@,
            None => "- **Planning:** refused\n"@,
        })
        + (if v.step_ids@.len() > 0 {
            "\n## Steps\n\n"@ + concat(texts(v.step_ids@).map_values(|id: Seq<char>| "- `"@ + id + "`\n"@))
        } else {
            Seq::empty()
        })
}

fn push_count(out: &mut String, label: &str, n: usize)
    ensures
        final(out)@ == old(out)@ + label@ + decimal(n as nat) + "\n"@,
{
    push_str(out, label);
    push_str(out, usize_string(n).as_str());
    push_str(out, "\n");
    assert(out@ =~= old(out)@ + label@ + decimal(n as nat) + "\n"@);
}

fn push_flag(out: &mut String, label: &str, b: bool)
    ensures
        final(out)@ == old(out)@ + label@ + bool_text(b) + "\n"@,
{
    push_str(out, label);
    push_str(out, bool_str(b));
    push_str(out, "\n");
    assert(out@ =~= old(out)@ + label@ + bool_text(b) + "\n"@);
}

fn push_counts_a(out: &mut String, view: &InspectView)
    ensures
        final(out)@ == old(out)@ + inspect_counts_a(*view),
{
    let ghost start = out@;
    push_str(out, "- **Version:** ");
    push_str(out, view.version.as_str());
    push_str(out, "\n");
    push_str(out, "- **DPCS version:** ");
    push_str(out, view.dpcs_version.as_str());
    push_str(out, "\n");
    push_flag(out, "- **Valid:** ", view.valid);
    push_count(out, "- **Steps:** ", view.step_count);
    assert(out@ =~= start + inspect_counts_a(*view));
}

fn push_counts_b(out: &mut String, view: &InspectView)
    ensures
        final(out)@ == old(out)@ + inspect_counts_b(*view),
{
    let ghost start = out@;
    push_count(out, "- **Edges:** ", view.edge_count);
    push_count(out, "- **Inputs:** ", view.input_count);
    push_count(out, "- **Outputs:** ", view.output_count);
    push_count(out, "- **Contract references:** ", view.contract_reference_count);
    assert(out@ =~= start + inspect_counts_b(*view));
}

fn push_counts_c(out: &mut String, view: &InspectView)
    ensures
        final(out)@ == old(out)@ + inspect_counts_c(*view),
{
    let ghost start = out@;
    push_count(out, "- **Data flow:** ", view.data_flow_count);
    push_count(out, "- **Control flow:** ", view.control_flow_count);
    push_count(out, "- **Scheduling:** ", view.scheduling_count);
    push_count(out, "- **Quality gates:** ", view.quality_gate_count);
    assert(out@ =~= start + inspect_counts_c(*view));
}

fn push_counts_d(out: &mut String, view: &InspectView)
    ensures
        final(out)@ == old(out)@ + inspect_counts_d(*view),
{
    let ghost start = out@;
    push_count(out, "- **Failure semantics:** ", view.failure_semantics_count);
    push_flag(out, "- **Execution:** ", view.has_execution);
    push_flag(out, "- **Lineage:** ", view.has_lineage);
    assert(out@ =~= start + inspect_counts_d(*view));
}

fn push_inspect_counts(out: &mut String, view: &InspectView)
    ensures
        final(out)@ == old(out)@ + inspect_counts(*view),
{
    let ghost start = out@;
    push_counts_a(out, view);
    push_counts_b(out, view);
    push_counts_c(out, view);
    push_counts_d(out, view);
    assert(out@ =~= start + inspect_counts(*view));
}

/// Render an inspect view as Markdown.
#[verifier::rlimit(60)]
pub fn inspect_to_markdown(view: &InspectView) -> (r: String)
    ensures
        r@ == inspect_markdown(*view),
{
    let mut out = String::from_str("# Pipeline Inspect\n\n");
    push_str(&mut out, "- **Id:** `");
    push_str(&mut out, view.id.as_str());
    push_str(&mut out, "`\n");
    match &view.name {
        Some(n) => {
            push_str(&mut out, "- **Name:** ");
            push_str(&mut out, n.as_str());
            push_str(&mut out, "\n");
        },
        None => {},
    }
    let ghost a = out@;
    push_inspect_counts(&mut out, view);
    let ghost b = out@;
    match &view.step_order {
        Some(o) => {
            push_str(&mut out, "- **Step order:** ");
            assert(texts(o@) =~= o@.map_values(|s: String| s@));
            push_str(&mut out, join_strings(o, ", ").as_str());
            push_str(&mut out, "\n");
        },
        None => push_str(&mut out, "- **Planning:** refused\n"),
    }
    let ghost c = out@;
    if view.step_ids.len() > 0 {
        push_str(&mut out, "\n## Steps\n\n");
        let ghost head = out@;
        let ghost ids = texts(view.step_ids@);
        let mut i: usize = 0;
        while i < view.step_ids.len()
            invariant
                i <= view.step_ids@.len(),
                ids == texts(view.step_ids@),
                out@ == head + concat(ids.take(i as int).map_values(|id: Seq<char>| "- `"@ + id + "`\n"@)),
            decreases view.step_ids.len() - i,
        {
            push_str(&mut out, "- `");
            push_str(&mut out, view.step_ids[i].as_str());
            push_str(&mut out, "`\n");
            proof {
                let t = ids.take(i + 1).map_values(|id: Seq<char>| "- `"@ + id + "`\n"@);
                assert(ids.take(i as int).map_values(|id: Seq<char>| "- `"@ + id + "`\n"@) =~= t.drop_last());
            }
            assert(out@ =~= head + concat(ids.take(i + 1).map_values(|id: Seq<char>| "- `"@ + id + "`\n"@)));
            i += 1;
        }
        assert(ids.take(ids.len() as int) =~= ids);
    }
    assert(out@ =~= inspect_markdown(*view));
    out
}

/// A list joined with `, `, or `_(none)_` when empty.
pub open spec fn listing(v: Seq<Seq<char>>) -> Seq<char> {
    if v.len() == 0 { "_(none)_"@ } else { join(v, ", "@) }
}

fn listing_exec(v: &Vec<String>) -> (r: String)
    ensures
        r@ == listing(texts(v@)),
{
    if v.len() == 0 {
        proof { reveal_strlit("_(none)_"); }
        String::from_str("_(none)_")
    } else {
        assert(texts(v@) =~= v@.map_values(|s: String| s@));
        join_strings(v, ", ")
    }
}

/// Markdown for a capability report.
pub open spec fn capability_markdown(r: CapabilityReport) -> Seq<char> {
    "# Capability Report\n\n"@ + "- **Profile:** `"@ + r.profile_identity@ + "`\n"@
        + (match r.plan_contract_id {
            Some(id) => "- **Contract:** `"@ + id@ + "`\n"@,
            None => Seq::empty(),
        })
        + "- **Satisfied:** "@ + listing(texts(r.satisfied@)) + "\n"@
        + "- **Missing mandatory:** "@ + listing(texts(r.missing_mandatory@)) + "\n"@
        + "- **Unsupported optional:** "@ + listing(texts(r.unsupported_optional@)) + "\n\n"@
        + (if r.diagnostics@.len() > 0 {
            "## Diagnostics\n\n"@ + diagnostic_list(diag_views(r.diagnostics@))
        } else {
            Seq::empty()
        })
}

/// Render a capability report as Markdown.
pub fn capability_to_markdown(report: &CapabilityReport) -> (r: String)
    ensures
        r@ == capability_markdown(*report),
{
    let mut out = String::from_str("# Capability Report\n\n");
    push_str(&mut out, "- **Profile:** `");
    push_str(&mut out, report.profile_identity.as_str());
    push_str(&mut out, "`\n");
    match &report.plan_contract_id {
        Some(id) => {
            push_str(&mut out, "- **Contract:** `");
            push_str(&mut out, id.as_str());
            push_str(&mut out, "`\n");
        },
        None => {},
    }
    let ghost a = out@;
    push_str(&mut out, "- **Satisfied:** ");
    push_str(&mut out, listing_exec(&report.satisfied).as_str());
    push_str(&mut out, "\n");
    push_str(&mut out, "- **Missing mandatory:** ");
    push_str(&mut out, listing_exec(&report.missing_mandatory).as_str());
    push_str(&mut out, "\n");
    push_str(&mut out, "- **Unsupported optional:** ");
    push_str(&mut out, listing_exec(&report.unsupported_optional).as_str());
    push_str(&mut out, "\n\n");
    let ghost b = out@;
    if report.diagnostics.len() > 0 {
        push_str(&mut out, "## Diagnostics\n\n");
        push_diagnostic_list(&mut out, &report.diagnostics);
    }
    assert(out@ =~= capability_markdown(*report));
    out
}

/// Markdown for a compatibility report.
pub open spec fn compatibility_markdown(r: CompatibilityReport) -> Seq<char> {
    "# Compatibility Report\n\n"@ + "- **Baseline:** `"@ + r.baseline_id@ + "@"@ + r.baseline_version@ + "`\n"@
        + "- **Candidate:** `"@ + r.candidate_id@ + "@"@ + r.candidate_version@ + "`\n"@
        + "- **Category:** "@ + r.category.label() + "\n\n"@
        + "## Diagnostics\n\n"@ + diagnostic_list(diag_views(r.diagnostics@))
}

/// Render a compatibility report as Markdown.
pub fn compatibility_to_markdown(report: &CompatibilityReport) -> (r: String)
    ensures
        r@ == compatibility_markdown(*report),
{
    let mut out = String::from_str("# Compatibility Report\n\n");
    push_str(&mut out, "- **Baseline:** `");
    push_str(&mut out, report.baseline_id.as_str());
    push_str(&mut out, "@");
    push_str(&mut out, report.baseline_version.as_str());
    push_str(&mut out, "`\n");
    push_str(&mut out, "- **Candidate:** `");
    push_str(&mut out, report.candidate_id.as_str());
    push_str(&mut out, "@");
    push_str(&mut out, report.candidate_version.as_str());
    push_str(&mut out, "`\n");
    push_str(&mut out, "- **Category:** ");
    push_str(&mut out, report.category.as_str());
    push_str(&mut out, "\n\n");
    push_str(&mut out, "## Diagnostics\n\n");
    push_diagnostic_list(&mut out, &report.diagnostics);
    assert(out@ =~= compatibility_markdown(*report));
    out
}

/// Markdown for a graph view, with the Mermaid rendering `mermaid`.
pub open spec fn graph_markdown(v: GraphView, mermaid: Seq<char>) -> Seq<char> {
    graph_markdown_head(v) + "```mermaid\n"@ + mermaid + "\n```\n"@ + graph_markdown_tail(v)
}

/// Title, contract, and entry/exit point lines of a graph page.
pub open spec fn graph_markdown_head(v: GraphView) -> Seq<char> {
    "# Pipeline Graph\n\n"@
        + (match v.contract_id {
            Some(id) => "Contract: `"@ + id@ + "`\n\n"@,
            None => Seq::empty(),
        })
        + (if v.entry_points@.len() > 0 { "**Entry points:** "@ + join(texts(v.entry_points@), ", "@) + "\n\n"@ } else { Seq::empty() })
        + (if v.exit_points@.len() > 0 { "**Exit points:** "@ + join(texts(v.exit_points@), ", "@) + "\n\n"@ } else { Seq::empty() })
}

/// Step order (or planning refusal) line of a graph page.
pub open spec fn graph_markdown_tail(v: GraphView) -> Seq<char> {
    (match v.step_order {
            Some(o) => "\n**Step order:** "@ + join(texts(o@), ", "@) + "\n"@,
            None => if v.planning_refused { "\n**Planning:** refused\n"@ } else { Seq::empty() },
        })
}

/// Render a graph view as Markdown (with fenced Mermaid).
#[verifier::rlimit(60)]
pub fn graph_to_markdown(view: &GraphView) -> (r: String)
    ensures
        exists|labels: Seq<Seq<char>>| strictly_sorted(labels) && labels.to_set() == graph_nodes(*view).to_set()
            && r@ == graph_markdown(*view, join(mermaid_lines(*view, labels), "\n"@)),
{
    let mut out = String::from_str("# Pipeline Graph\n\n");
    match &view.contract_id {
        Some(id) => {
            push_str(&mut out, "Contract: `");
            push_str(&mut out, id.as_str());
            push_str(&mut out, "`\n\n");
        },
        None => {},
    }
    let ghost a = out@;
    if view.entry_points.len() > 0 {
        push_str(&mut out, "**Entry points:** ");
        assert(texts(view.entry_points@) =~= view.entry_points@.map_values(|s: String| s@));
        push_str(&mut out, join_strings(&view.entry_points, ", ").as_str());
        push_str(&mut out, "\n\n");
    }
    let ghost b = out@;
    if view.exit_points.len() > 0 {
        push_str(&mut out, "**Exit points:** ");
        assert(texts(view.exit_points@) =~= view.exit_points@.map_values(|s: String| s@));
        push_str(&mut out, join_strings(&view.exit_points, ", ").as_str());
        push_str(&mut out, "\n\n");
    }
    let ghost c = out@;
    assert(c =~= graph_markdown_head(*view));
    let mermaid = graph_to_mermaid(view);
    push_str(&mut out, "```mermaid\n");
    push_str(&mut out, mermaid.as_str());
    push_str(&mut out, "\n```\n");
    let ghost d = out@;
    assert(d =~= graph_markdown_head(*view) + "```mermaid\n"@ + mermaid@ + "\n```\n"@);
    match &view.step_order {
        Some(o) => {
            push_str(&mut out, "\n**Step order:** ");
            assert(texts(o@) =~= o@.map_values(|s: String| s@));
            push_str(&mut out, join_strings(o, ", ").as_str());
            push_str(&mut out, "\n");
        },
        None => {
            if view.planning_refused {
                push_str(&mut out, "\n**Planning:** refused\n");
            }
        },
    }
    assert(out@ =~= d + graph_markdown_tail(*view));
    proof {
        let labels = choose|labels: Seq<Seq<char>>| strictly_sorted(labels) && labels.to_set() == graph_nodes(*view).to_set()
            && mermaid@ == join(mermaid_lines(*view, labels), "\n"@);
        assert(out@ =~= graph_markdown(*view, mermaid@));
    }
    out
}

} // verus!
