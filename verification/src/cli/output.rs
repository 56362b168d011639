//! CLI output: `--format` / `--out` options and the plain-text renderings.
//!
//! Writing to a file or to standard output, and deciding whether standard
//! output is a color terminal, belong to the caller; what is written is
//! decided here.
use vstd::prelude::*;

use crate::capabilities::evaluate::CapabilityReport;
use crate::compatibility::compare::CompatibilityReport;
use crate::diagnostics::report::{diag_views, with_severity};
use crate::diagnostics::{texts, Diagnostic, DiagnosticView, Severity, ValidationReport};
use crate::error::Error;
use crate::report::format::{format_named, normalized, ReportFormat};
use crate::report::markdown::concat;
use crate::report::views::{GraphEdgeView, GraphView, InspectView};
use crate::text::{concat3, decimal, join, join_strings, push_str, usize_string};

verus! {

/// Emission options derived from `--json` / `--format` / `--out`.
#[derive(Debug)]
pub struct EmitOpts {
    /// Selected output format.
    pub format: ReportFormat,
    /// Destination path (standard output when `None`).
    pub out: Option<String>,
}

/// Names of formats joined with `|`.
pub open spec fn format_list(allowed: Seq<ReportFormat>) -> Seq<char> {
    join(allowed.map_values(|f: ReportFormat| f.label()), "|"@)
}

impl EmitOpts {
    /// Options from CLI flags: `--format` when given, else `json` under
    /// `--json`, else `text`.
    pub fn from_flags(json: bool, format: Option<&str>, out: Option<String>) -> (r: Result<EmitOpts, Error>)
        ensures
            match format {
                Some(raw) => match format_named(normalized(raw@)) {
                    Some(f) => r matches Ok(o) && o.format == f && o.out == out,
                    None => r matches Err(Error::Serialization(m)) && m@ == "unknown report format `"@
                        + normalized(raw@) + "` (expected text|json|markdown|html|mermaid|dot)"@,
                },
                None => r matches Ok(o) && o.out == out
                    && o.format == (if json { ReportFormat::Json } else { ReportFormat::Text }),
            },
    {
        let format = match format {
            Some(raw) => match ReportFormat::parse(raw) {
                Ok(f) => f,
                Err(e) => return Err(e),
            },
            None => if json { ReportFormat::Json } else { ReportFormat::Text },
        };
        Ok(EmitOpts { format, out })
    }

    /// Accept the selected format only when it is one of `allowed`.
    pub fn require_formats(&self, allowed: &[ReportFormat]) -> (r: Result<(), Error>)
        ensures
            allowed@.contains(self.format) ==> r is Ok,
            !allowed@.contains(self.format) ==> (r matches Err(Error::Serialization(m)) && m@ == "format `"@
                + self.format.label() + "` is not supported here (allowed: "@ + format_list(allowed@) + ")"@),
    {
        let mut i: usize = 0;
        while i < allowed.len()
            invariant
                i <= allowed@.len(),
                forall|k: int| 0 <= k < i ==> allowed@[k] != self.format,
            decreases allowed.len() - i,
        {
            if allowed[i] == self.format {
                return Ok(());
            }
            i += 1;
        }
        let ghost names = allowed@.map_values(|f: ReportFormat| f.label());
        let mut list = String::new();
        let mut j: usize = 0;
        while j < allowed.len()
            invariant
                j <= allowed@.len(),
                names == allowed@.map_values(|f: ReportFormat| f.label()),
                list@ == join(names.take(j as int), "|"@),
            decreases allowed.len() - j,
        {
            if j > 0 {
                push_str(&mut list, "|");
            }
            push_str(&mut list, allowed[j].as_str());
            proof {
                assert(names.take(j + 1).drop_last() =~= names.take(j as int));
                if j == 0 {
                    assert(names.take(1) =~= seq![names[0]]);
                }
            }
            j += 1;
        }
        assert(names.take(allowed@.len() as int) =~= names);
        let mut m = concat3("format `", self.format.as_str(), "` is not supported here (allowed: ");
        push_str(&mut m, list.as_str());
        push_str(&mut m, ")");
        Err(Error::Serialization(m))
    }

    /// The same options with graph-only formats (Mermaid, DOT) replaced by
    /// `text`, so diagnostics can always be written.
    pub fn for_diagnostics(&self) -> (r: EmitOpts)
        ensures
            r.out == self.out,
            r.format == (if self.format == ReportFormat::Mermaid || self.format == ReportFormat::Dot {
                ReportFormat::Text
            } else {
                self.format
            }),
    {
        let format = match self.format {
            ReportFormat::Mermaid | ReportFormat::Dot => ReportFormat::Text,
            other => other,
        };
        EmitOpts { format, out: crate::diagnostics::clone_opt(&self.out) }
    }
}

/// A severity label, wrapped in its ANSI color (red, yellow, blue) when
/// `color` holds.
pub open spec fn painted(severity: Severity, color: bool) -> Seq<char> {
    if !color {
        severity.label()
    } else {
        let code = match severity {
            Severity::Error => "31"@,
            Severity::Warning => "33"@,
            Severity::Information => "34"@,
        };
        seq!['\u{1b}'] + "["@ + code + "m"@ + severity.label() + seq!['\u{1b}'] + "[0m"@
    }
}

/// The severity label for text output; `color` says whether the output is a
/// color terminal.
pub fn paint_severity(color: bool, severity: Severity) -> (r: String)
    ensures
        r@ == painted(severity, color),
{
    let label = severity.as_str();
    if !color {
        return String::from_str(label);
    }
    let code = match severity {
        Severity::Error => "31",
        Severity::Warning => "33",
        Severity::Information => "34",
    };
    let mut out = String::new();
    crate::text::push_char(&mut out, '\u{1b}');
    push_str(&mut out, "[");
    push_str(&mut out, code);
    push_str(&mut out, "m");
    push_str(&mut out, label);
    crate::text::push_char(&mut out, '\u{1b}');
    push_str(&mut out, "[0m");
    proof {
        reveal_strlit("31");
        reveal_strlit("33");
        reveal_strlit("34");
    }
    assert(out@ =~= painted(severity, color));
    out
}

/// Optional text between a prefix and a suffix; empty when absent.
pub open spec fn opt_part(o: Option<Seq<char>>, pre: Seq<char>, post: Seq<char>) -> Seq<char> {
    match o {
        Some(v) => pre + v + post,
        None => Seq::empty(),
    }
}

/// The head of a diagnostic line: severity, id and stage.
pub open spec fn diagnostic_head(d: DiagnosticView, color: bool) -> Seq<char> {
    painted(d.severity, color) + " "@ + d.id + ": "@ + d.stage.label()
}

/// One validation finding: head, object, message, location, and a
/// remediation line when there is one.
pub open spec fn validation_line(d: DiagnosticView, color: bool) -> Seq<char> {
    diagnostic_head(d, color) + opt_part(d.object_ref, " @ "@, Seq::empty()) + " — "@ + d.message
        + opt_part(d.source_location, " ("@, ")"@) + "\n"@ + opt_part(d.remediation, "  remediation: "@, "\n"@)
}

/// Plain-text rendering of a validation report.
pub open spec fn validation_text(ds: Seq<DiagnosticView>, color: bool) -> Seq<char> {
    if ds.len() == 0 {
        "valid: no diagnostics"@
    } else {
        concat(ds.map_values(|d: DiagnosticView| validation_line(d, color))) + "summary: "@
            + decimal(with_severity(ds, Severity::Error).len()) + " error(s), "@
            + decimal(with_severity(ds, Severity::Warning).len()) + " warning(s), "@
            + decimal(with_severity(ds, Severity::Information).len()) + " information(s)"@
    }
}

fn push_opt(out: &mut String, o: &Option<String>, pre: &str, post: &str)
    ensures
        final(out)@ == old(out)@ + opt_part(crate::diagnostics::opt_text(*o), pre@, post@),
{
    match o {
        Some(v) => {
            push_str(out, pre);
            push_str(out, v.as_str());
            push_str(out, post);
        },
        None => {},
    }
}

fn diagnostic_head_exec(d: &Diagnostic, color: bool) -> (r: String)
    ensures
        r@ == diagnostic_head(d@, color),
{
    let mut out = paint_severity(color, d.severity);
    push_str(&mut out, " ");
    push_str(&mut out, d.id.as_str());
    push_str(&mut out, ": ");
    push_str(&mut out, d.stage.as_str());
    out
}

fn push_validation_line(out: &mut String, d: &Diagnostic, color: bool)
    ensures
        final(out)@ == old(out)@ + validation_line(d@, color),
{
    let ghost start = out@;
    push_str(out, diagnostic_head_exec(d, color).as_str());
    push_opt(out, &d.object_ref, " @ ", "");
    push_str(out, " — ");
    push_str(out, d.message.as_str());
    let ghost mid = out@;
    push_opt(out, &d.source_location, " (", ")");
    push_str(out, "\n");
    push_opt(out, &d.remediation, "  remediation: ", "\n");
    proof { reveal_strlit(""); }
    assert(mid =~= start + diagnostic_head(d@, color) + opt_part(d@.object_ref, " @ "@, Seq::empty()) + " — "@ + d@.message);
    assert(out@ =~= start + validation_line(d@, color));
}

/// Plain-text rendering of a validation report: one line per finding (and
/// one per remediation), then a summary of the counts by severity; `valid: no
/// diagnostics` when there are none.
pub fn format_validation_text(report: &ValidationReport, color: bool) -> (r: String)
    ensures
        r@ == validation_text(report@, color),
{
    let ds = &report.diagnostics;
    if ds.len() == 0 {
        return String::from_str("valid: no diagnostics");
    }
    let ghost views = diag_views(ds@);
    let mut out = String::new();
    let mut i: usize = 0;
    while i < ds.len()
        invariant
            i <= ds@.len(),
            views == diag_views(ds@),
            out@ == concat(views.take(i as int).map_values(|d: DiagnosticView| validation_line(d, color))),
        decreases ds.len() - i,
    {
        push_validation_line(&mut out, &ds[i], color);
        proof {
            let t = views.take(i + 1).map_values(|d: DiagnosticView| validation_line(d, color));
            assert(views.take(i as int).map_values(|d: DiagnosticView| validation_line(d, color)) =~= t.drop_last());
        }
        i += 1;
    }
    assert(views.take(views.len() as int) =~= views);
    let ghost body = out@;
    push_str(&mut out, "summary: ");
    push_str(&mut out, usize_string(report.error_count()).as_str());
    push_str(&mut out, " error(s), ");
    push_str(&mut out, usize_string(report.warning_count()).as_str());
    push_str(&mut out, " warning(s), ");
    push_str(&mut out, usize_string(report.information_count()).as_str());
    push_str(&mut out, " information(s)");
    assert(out@ =~= validation_text(report@, color));
    out
}

/// Text of a flag.
pub open spec fn bool_text(b: bool) -> Seq<char> {
    if b { "true"@ } else { "false"@ }
}

fn bool_string(b: bool) -> (r: String)
    ensures
        r@ == bool_text(b),
{
    if b { String::from_str("true") } else { String::from_str("false") }
}

/// Optional list of texts.
pub open spec fn opt_texts(o: Option<Vec<String>>) -> Option<Seq<Seq<char>>> {
    match o {
        Some(v) => Some(texts(v@)),
        None => None,
    }
}

/// The lines of the inspect summary.
pub open spec fn inspect_lines(v: InspectView) -> Seq<Seq<char>> {
    seq!["id: "@ + v.id@]
        + (match v.name { Some(n) => seq!["name: "@ + n@], None => Seq::empty() })
        + seq![
            "version: "@ + v.version@,
            "dpcsVersion: "@ + v.dpcs_version@,
            "steps: "@ + decimal(v.step_count as nat),
            "edges: "@ + decimal(v.edge_count as nat),
            "inputs: "@ + decimal(v.input_count as nat),
            "outputs: "@ + decimal(v.output_count as nat),
            "contractReferences: "@ + decimal(v.contract_reference_count as nat),
            "dataFlow: "@ + decimal(v.data_flow_count as nat),
            "controlFlow: "@ + decimal(v.control_flow_count as nat),
            "scheduling: "@ + decimal(v.scheduling_count as nat),
            "qualityGates: "@ + decimal(v.quality_gate_count as nat),
            "failureSemantics: "@ + decimal(v.failure_semantics_count as nat),
            "execution: "@ + bool_text(v.has_execution),
            "lineage: "@ + bool_text(v.has_lineage),
            "valid: "@ + bool_text(v.valid)
        ]
        + seq![match opt_texts(v.step_order) {
            Some(o) => "stepOrder: "@ + join(o, ", "@),
            None => "planning: refused"@,
        }]
}

fn push_line(lines: &mut Vec<String>, line: String)
    ensures
        texts(final(lines)@) == texts(old(lines)@).push(line@),
{
    lines.push(line);
    assert(texts(lines@) =~= texts(old(lines)@).push(line@));
}

fn joined_line(prefix: &str, parts: &Vec<String>) -> (r: String)
    ensures
        r@ == prefix@ + join(texts(parts@), ", "@),
{
    proof { reveal_strlit(""); }
    let j = join_strings(parts, ", ");
    assert(texts(parts@) =~= parts@.map_values(|p: String| p@));
    concat3(prefix, j.as_str(), "")
}

fn count_line(prefix: &str, n: usize) -> (r: String)
    ensures
        r@ == prefix@ + decimal(n as nat),
{
    proof { reveal_strlit(""); }
    concat3(prefix, usize_string(n).as_str(), "")
}

fn lines_text(lines: &Vec<String>) -> (r: String)
    ensures
        r@ == join(texts(lines@), "\n"@),
{
    assert(texts(lines@) =~= lines@.map_values(|p: String| p@));
    join_strings(lines, "\n")
}

/// Plain-text rendering of the inspect summary, one `key: value` per line.
#[verifier::rlimit(60)]
pub fn format_inspect_text(view: &InspectView) -> (r: String)
    ensures
        r@ == join(inspect_lines(*view), "\n"@),
{
    proof { reveal_strlit(""); }
    let mut lines: Vec<String> = Vec::new();
    push_line(&mut lines, concat3("id: ", view.id.as_str(), ""));
    match &view.name {
        Some(n) => push_line(&mut lines, concat3("name: ", n.as_str(), "")),
        None => {},
    }
    let ghost head = texts(lines@);
    assert(head =~= seq!["id: "@ + view.id@]
        + (match view.name { Some(n) => seq!["name: "@ + n@], None => Seq::<Seq<char>>::empty() }));
    push_line(&mut lines, concat3("version: ", view.version.as_str(), ""));
    push_line(&mut lines, concat3("dpcsVersion: ", view.dpcs_version.as_str(), ""));
    push_line(&mut lines, count_line("steps: ", view.step_count));
    push_line(&mut lines, count_line("edges: ", view.edge_count));
    push_line(&mut lines, count_line("inputs: ", view.input_count));
    push_line(&mut lines, count_line("outputs: ", view.output_count));
    push_line(&mut lines, count_line("contractReferences: ", view.contract_reference_count));
    push_line(&mut lines, count_line("dataFlow: ", view.data_flow_count));
    push_line(&mut lines, count_line("controlFlow: ", view.control_flow_count));
    push_line(&mut lines, count_line("scheduling: ", view.scheduling_count));
    push_line(&mut lines, count_line("qualityGates: ", view.quality_gate_count));
    push_line(&mut lines, count_line("failureSemantics: ", view.failure_semantics_count));
    push_line(&mut lines, concat3("execution: ", bool_string(view.has_execution).as_str(), ""));
    push_line(&mut lines, concat3("lineage: ", bool_string(view.has_lineage).as_str(), ""));
    push_line(&mut lines, concat3("valid: ", bool_string(view.valid).as_str(), ""));
    match &view.step_order {
        Some(o) => push_line(&mut lines, joined_line("stepOrder: ", o)),
        None => push_line(&mut lines, String::from_str("planning: refused")),
    }
    assert(texts(lines@) =~= inspect_lines(*view));
    lines_text(&lines)
}

/// One edge of the graph listing.
pub open spec fn edge_line(e: GraphEdgeView) -> Seq<char> {
    e.from@ + " -> "@ + e.to@ + opt_part(crate::diagnostics::opt_text(e.kind), " ("@, ")"@)
}

pub(crate) fn edge_line_exec(e: &GraphEdgeView) -> (r: String)
    ensures
        r@ == edge_line(*e),
{
    let mut l = concat3(e.from.as_str(), " -> ", e.to.as_str());
    push_opt(&mut l, &e.kind, " (", ")");
    l
}

/// The lines of the graph listing.
pub open spec fn graph_lines(v: GraphView) -> Seq<Seq<char>> {
    (if v.entry_points@.len() > 0 { seq!["entryPoints: "@ + join(texts(v.entry_points@), ", "@)] } else { Seq::empty() })
        + (if v.exit_points@.len() > 0 { seq!["exitPoints: "@ + join(texts(v.exit_points@), ", "@)] } else { Seq::empty() })
        + (if v.edges@.len() == 0 { seq!["(no edges)"@] } else { v.edges@.map_values(|e: GraphEdgeView| edge_line(e)) })
        + match opt_texts(v.step_order) {
            Some(o) => seq!["stepOrder: "@ + join(o, ", "@)],
            None => if v.planning_refused { seq!["planning: refused"@] } else { Seq::empty() },
        }
}

/// Plain-text rendering of the graph: entry and exit points, one line per
/// edge, and the step order (or a note that planning was refused).
pub fn format_graph_text(view: &GraphView) -> (r: String)
    ensures
        r@ == join(graph_lines(*view), "\n"@),
{
    let mut lines: Vec<String> = Vec::new();
    if view.entry_points.len() > 0 {
        push_line(&mut lines, joined_line("entryPoints: ", &view.entry_points));
    }
    if view.exit_points.len() > 0 {
        push_line(&mut lines, joined_line("exitPoints: ", &view.exit_points));
    }
    let ghost head = texts(lines@);
    if view.edges.len() == 0 {
        push_line(&mut lines, String::from_str("(no edges)"));
    } else {
        let ghost edges = view.edges@.map_values(|e: GraphEdgeView| edge_line(e));
        let mut i: usize = 0;
        while i < view.edges.len()
            invariant
                i <= view.edges@.len(),
                edges == view.edges@.map_values(|e: GraphEdgeView| edge_line(e)),
                texts(lines@) == head + edges.take(i as int),
            decreases view.edges.len() - i,
        {
            push_line(&mut lines, edge_line_exec(&view.edges[i]));
            assert(edges.take(i + 1) =~= edges.take(i as int).push(edges[i as int]));
            i += 1;
        }
        assert(edges.take(edges.len() as int) =~= edges);
    }
    match &view.step_order {
        Some(o) => push_line(&mut lines, joined_line("stepOrder: ", o)),
        None => {
            if view.planning_refused {
                push_line(&mut lines, String::from_str("planning: refused"));
            }
        },
    }
    assert(texts(lines@) =~= graph_lines(*view));
    lines_text(&lines)
}

/// A short diagnostic line: head and message.
pub open spec fn short_line(d: DiagnosticView, color: bool) -> Seq<char> {
    diagnostic_head(d, color) + " — "@ + d.message
}

pub(crate) fn short_line_exec(d: &Diagnostic, color: bool) -> (r: String)
    ensures
        r@ == short_line(d@, color),
{
    let mut out = diagnostic_head_exec(d, color);
    push_str(&mut out, " — ");
    push_str(&mut out, d.message.as_str());
    out
}

fn push_short_lines(lines: &mut Vec<String>, ds: &Vec<Diagnostic>, color: bool)
    ensures
        texts(final(lines)@) == texts(old(lines)@) + diag_views(ds@).map_values(|d: DiagnosticView| short_line(d, color)),
{
    let ghost head = texts(lines@);
    let ghost shorts = diag_views(ds@).map_values(|d: DiagnosticView| short_line(d, color));
    let mut i: usize = 0;
    while i < ds.len()
        invariant
            i <= ds@.len(),
            shorts == diag_views(ds@).map_values(|d: DiagnosticView| short_line(d, color)),
            texts(lines@) == head + shorts.take(i as int),
        decreases ds.len() - i,
    {
        push_line(lines, short_line_exec(&ds[i], color));
        assert(shorts.take(i + 1) =~= shorts.take(i as int).push(shorts[i as int]));
        i += 1;
    }
    assert(shorts.take(shorts.len() as int) =~= shorts);
}

/// The lines of a capability report.
pub open spec fn capability_lines(r: CapabilityReport, match_ok: bool, color: bool) -> Seq<Seq<char>> {
    seq!["profile: "@ + r.profile_identity@]
        + (match r.plan_contract_id { Some(c) => seq!["contractId: "@ + c@], None => Seq::empty() })
        + seq!["satisfied: "@ + join(texts(r.satisfied@), ", "@)]
        + (if r.unsupported_optional@.len() > 0 {
            seq!["unsupportedOptional: "@ + join(texts(r.unsupported_optional@), ", "@)]
        } else {
            Seq::empty()
        })
        + (if r.missing_mandatory@.len() > 0 {
            seq!["missingMandatory: "@ + join(texts(r.missing_mandatory@), ", "@)]
        } else {
            Seq::empty()
        })
        + diag_views(r.diagnostics@).map_values(|d: DiagnosticView| short_line(d, color))
        + (if match_ok { seq!["match: ok"@] } else { Seq::empty() })
}

/// Plain-text rendering of a capability report; `match_ok` adds the final
/// `match: ok` line.
pub fn format_capability_text(report: &CapabilityReport, match_ok: bool, color: bool) -> (r: String)
    ensures
        r@ == join(capability_lines(*report, match_ok, color), "\n"@),
{
    proof { reveal_strlit(""); }
    let mut lines: Vec<String> = Vec::new();
    push_line(&mut lines, concat3("profile: ", report.profile_identity.as_str(), ""));
    match &report.plan_contract_id {
        Some(c) => push_line(&mut lines, concat3("contractId: ", c.as_str(), "")),
        None => {},
    }
    push_line(&mut lines, joined_line("satisfied: ", &report.satisfied));
    if report.unsupported_optional.len() > 0 {
        push_line(&mut lines, joined_line("unsupportedOptional: ", &report.unsupported_optional));
    }
    if report.missing_mandatory.len() > 0 {
        push_line(&mut lines, joined_line("missingMandatory: ", &report.missing_mandatory));
    }
    push_short_lines(&mut lines, &report.diagnostics, color);
    if match_ok {
        push_line(&mut lines, String::from_str("match: ok"));
    }
    assert(texts(lines@) =~= capability_lines(*report, match_ok, color));
    lines_text(&lines)
}

/// The lines of a compatibility report.
pub open spec fn compatibility_lines(r: CompatibilityReport, color: bool) -> Seq<Seq<char>> {
    seq![
        "baseline: "@ + r.baseline_id@ + "@"@ + r.baseline_version@,
        "candidate: "@ + r.candidate_id@ + "@"@ + r.candidate_version@,
        "category: "@ + r.category.label()
    ]
        + diag_views(r.diagnostics@).map_values(|d: DiagnosticView| short_line(d, color))
        + seq!["compatibility: "@ + (if r.category.compatible() { "ok"@ } else { "incompatible"@ })]
}

/// Plain-text rendering of a compatibility report, ending with whether the
/// candidate is compatible.
pub fn format_compatibility_text(report: &CompatibilityReport, color: bool) -> (r: String)
    ensures
        r@ == join(compatibility_lines(*report, color), "\n"@),
{
    proof { reveal_strlit(""); }
    let mut lines: Vec<String> = Vec::new();
    let mut b = concat3("baseline: ", report.baseline_id.as_str(), "@");
    push_str(&mut b, report.baseline_version.as_str());
    push_line(&mut lines, b);
    let mut c = concat3("candidate: ", report.candidate_id.as_str(), "@");
    push_str(&mut c, report.candidate_version.as_str());
    push_line(&mut lines, c);
    push_line(&mut lines, concat3("category: ", report.category.as_str(), ""));
    push_short_lines(&mut lines, &report.diagnostics, color);
    let verdict = if report.category.is_compatible() { "ok" } else { "incompatible" };
    push_line(&mut lines, concat3("compatibility: ", verdict, ""));
    proof {
        reveal_strlit("ok");
        reveal_strlit("incompatible");
    }
    assert(texts(lines@) =~= compatibility_lines(*report, color));
    lines_text(&lines)
}

} // verus!
