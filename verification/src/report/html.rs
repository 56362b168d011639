//! Self-contained HTML report renderers (diagnostics/inspect are fully offline;
//! graph pages embed Mermaid source and optionally load a CDN renderer).
use vstd::prelude::*;

use super::graph_export::{graph_nodes, graph_to_mermaid, mermaid_lines};
use super::markdown::{bool_text, concat, lemma_concat_holds};
use super::views::{GraphView, InspectView};
use crate::capabilities::evaluate::CapabilityReport;
use crate::compatibility::compare::CompatibilityReport;
use crate::diagnostics::report::{diag_views, with_severity, DiagnosticReport, ProcessingResult};
use crate::diagnostics::{texts, Diagnostic, DiagnosticView, Severity, ValidationReport};
use crate::text::{chars_of, decimal, encloses, lemma_encloses_wrap, join, join_strings, push_char, push_str, strictly_sorted, usize_string};

verus! {

/// Document text between the title and the body.
pub const DOCUMENT_HEAD: &'static str = "</title>\n<style>\nbody { font-family: ui-sans-serif, system-ui, sans-serif; margin: 2rem; color: #1a1a1a; background: #fafafa; }\nh1 { font-size: 1.5rem; }\ntable { border-collapse: collapse; width: 100%; margin: 1rem 0; background: #fff; }\nth, td { border: 1px solid #ddd; padding: 0.4rem 0.6rem; text-align: left; vertical-align: top; }\nth { background: #f0f0f0; }\ncode { background: #eee; padding: 0.1rem 0.25rem; border-radius: 3px; }\n.error { color: #b00020; }\n.warning { color: #9a6700; }\n.info { color: #0550ae; }\n.meta { color: #555; }\npre { background: #fff; border: 1px solid #ddd; padding: 1rem; overflow: auto; }\n</style>\n</head>\n<body>\n";

/// Document text before the title.
pub const DOCUMENT_START: &'static str = "<!DOCTYPE html>\n<html lang=\"en\">\n<head>\n<meta charset=\"utf-8\"/>\n<meta name=\"viewport\" content=\"width=device-width, initial-scale=1\"/>\n<title>";

/// Document text after the body.
pub const DOCUMENT_END: &'static str = "\n</body>\n</html>\n";

/// Text with `&`, `<`, `>` and `"` written as entities.
pub open spec fn esc(s: Seq<char>) -> Seq<char>
    decreases s.len(),
{
    if s.len() == 0 {
        Seq::empty()
    } else {
        let c = s.last();
        esc(s.drop_last()) + if c == '&' {
            "&amp;"@
        } else if c == '<' {
            "&lt;"@
        } else if c == '>' {
            "&gt;"@
        } else if c == '"' {
            "&quot;"@
        } else {
            seq![c]
        }
    }
}

fn esc_exec(s: &str) -> (r: String)
    ensures
        r@ == esc(s@),
{
    let v = chars_of(s);
    let mut out = String::new();
    let mut i: usize = 0;
    while i < v.len()
        invariant
            i <= v@.len(),
            v@ == s@,
            out@ == esc(v@.take(i as int)),
        decreases v.len() - i,
    {
        let c = v[i];
        if c == '&' {
            push_str(&mut out, "&amp;");
        } else if c == '<' {
            push_str(&mut out, "&lt;");
        } else if c == '>' {
            push_str(&mut out, "&gt;");
        } else if c == '"' {
            push_str(&mut out, "&quot;");
        } else {
            push_char(&mut out, c);
        }
        proof {
            reveal_strlit("&amp;");
            reveal_strlit("&lt;");
            reveal_strlit("&gt;");
            reveal_strlit("&quot;");
            assert(v@.take(i + 1).drop_last() =~= v@.take(i as int));
        }
        assert(out@ =~= esc(v@.take(i + 1)));
        i += 1;
    }
    assert(v@.take(v@.len() as int) =~= v@);
    out
}

/// A character that `esc` writes as an entity.
pub open spec fn html_special(c: char) -> bool {
    c == '&' || c == '<' || c == '>' || c == '"'
}

/// Escaped text holds no `<`, `>` or `"`, so it can neither open a tag nor
/// close an attribute; and text with none of
/// `&`, `<`, `>`, `"` is left as it is.
pub proof fn law_escaped_text_is_inert(s: Seq<char>)
    ensures
        forall|i: int| 0 <= i < esc(s).len() ==> {
            let c = #[trigger] esc(s)[i];
            c != '<' && c != '>' && c != '"'
        },
        (forall|i: int| 0 <= i < s.len() ==> !html_special(#[trigger] s[i])) ==> esc(s) == s,
    decreases s.len(),
{
    reveal_strlit("&amp;");
    reveal_strlit("&lt;");
    reveal_strlit("&gt;");
    reveal_strlit("&quot;");
    if s.len() > 0 {
        let t = s.drop_last();
        law_escaped_text_is_inert(t);
        let c = s.last();
        let tail: Seq<char> = if c == '&' {
            "&amp;"@
        } else if c == '<' {
            "&lt;"@
        } else if c == '>' {
            "&gt;"@
        } else if c == '"' {
            "&quot;"@
        } else {
            seq![c]
        };
        let r = esc(s);
        assert(r == esc(t) + tail);
        assert forall|i: int| 0 <= i < r.len() implies {
            let d = #[trigger] r[i];
            d != '<' && d != '>' && d != '"'
        } by {
            if i < esc(t).len() {
                assert(r[i] == esc(t)[i]);
            } else {
                assert(r[i] == tail[i - esc(t).len()]);
            }
        }
        if forall|i: int| 0 <= i < s.len() ==> !html_special(#[trigger] s[i]) {
            assert forall|i: int| 0 <= i < t.len() implies !html_special(#[trigger] t[i]) by {
                assert(t[i] == s[i]);
            }
            assert(!html_special(s[s.len() - 1]));
            assert(r =~= s);
        }
    }
}

/// A complete HTML document with `title` and `body`.
pub open spec fn document(title: Seq<char>, body: Seq<char>) -> Seq<char> {
    DOCUMENT_START@ + esc(title) + DOCUMENT_HEAD@ + body + DOCUMENT_END@
}

fn wrap_document(title: &str, body: &str) -> (r: String)
    ensures
        r@ == document(title@, body@),
{
    let mut out = String::from_str(DOCUMENT_START);
    push_str(&mut out, esc_exec(title).as_str());
    push_str(&mut out, DOCUMENT_HEAD);
    push_str(&mut out, body);
    push_str(&mut out, DOCUMENT_END);
    assert(out@ =~= document(title@, body@));
    out
}

/// CSS class of a severity.
pub open spec fn severity_class(s: Severity) -> Seq<char> {
    match s {
        Severity::Error => "error"@,
        Severity::Warning => "warning"@,
        Severity::Information => "info"@,
    }
}

/// One table row for a diagnostic.
pub open spec fn html_row(d: DiagnosticView) -> Seq<char> {
    "<tr><td class=\""@ + severity_class(d.severity) + "\">"@ + esc(d.severity.label()) + "</td><td><code>"@ + esc(d.id)
        + "</code></td><td>"@ + esc(d.stage.label()) + "</td><td>"@
        + esc(match d.object_ref { Some(o) => o, None => Seq::empty() }) + "</td><td>"@ + esc(d.message) + "</td></tr>"@
}

/// The diagnostics table, or a note that there are none.
pub open spec fn html_table(ds: Seq<DiagnosticView>) -> Seq<char> {
    if ds.len() == 0 {
        "<p><em>No diagnostics.</em></p>"@
    } else {
        "<table><thead><tr><th>Severity</th><th>Id</th><th>Stage</th><th>Object</th><th>Message</th></tr></thead><tbody>"@
            + concat(ds.map_values(|d: DiagnosticView| html_row(d))) + "</tbody></table>"@
    }
}

fn severity_class_str(s: Severity) -> (r: &'static str)
    ensures
        r@ == severity_class(s),
{
    match s {
        Severity::Error => {
            proof { reveal_strlit("error"); }
            "error"
        },
        Severity::Warning => {
            proof { reveal_strlit("warning"); }
            "warning"
        },
        Severity::Information => {
            proof { reveal_strlit("info"); }
            "info"
        },
    }
}

fn push_row(out: &mut String, d: &Diagnostic)
    ensures
        final(out)@ == old(out)@ + html_row(d@),
{
    let ghost start = out@;
    push_str(out, "<tr><td class=\"");
    push_str(out, severity_class_str(d.severity));
    push_str(out, "\">");
    push_str(out, esc_exec(d.severity.as_str()).as_str());
    push_str(out, "</td><td><code>");
    push_str(out, esc_exec(d.id.as_str()).as_str());
    push_str(out, "</code></td><td>");
    push_str(out, esc_exec(d.stage.as_str()).as_str());
    push_str(out, "</td><td>");
    let object: &str = match &d.object_ref {
        Some(o) => o.as_str(),
        None => {
            proof { reveal_strlit(""); }
            ""
        },
    };
    push_str(out, esc_exec(object).as_str());
    push_str(out, "</td><td>");
    push_str(out, esc_exec(d.message.as_str()).as_str());
    push_str(out, "</td></tr>");
    assert(out@ =~= start + html_row(d@));
}

fn push_table(out: &mut String, ds: &Vec<Diagnostic>)
    ensures
        final(out)@ == old(out)@ + html_table(diag_views(ds@)),
{
    if ds.len() == 0 {
        push_str(out, "<p><em>No diagnostics.</em></p>");
        return;
    }
    let ghost start = out@;
    push_str(out, "<table><thead><tr><th>Severity</th><th>Id</th><th>Stage</th><th>Object</th><th>Message</th></tr></thead><tbody>");
    let ghost head = out@;
    let ghost views = diag_views(ds@);
    let mut i: usize = 0;
    while i < ds.len()
        invariant
            i <= ds@.len(),
            views == diag_views(ds@),
            out@ == head + concat(views.take(i as int).map_values(|d: DiagnosticView| html_row(d))),
        decreases ds.len() - i,
    {
        push_row(out, &ds[i]);
        proof {
            let t = views.take(i + 1).map_values(|d: DiagnosticView| html_row(d));
            assert(views.take(i as int).map_values(|d: DiagnosticView| html_row(d)) =~= t.drop_last());
        }
        assert(out@ =~= head + concat(views.take(i + 1).map_values(|d: DiagnosticView| html_row(d))));
        i += 1;
    }
    assert(views.take(views.len() as int) =~= views);
    push_str(out, "</tbody></table>");
    assert(out@ =~= start + html_table(diag_views(ds@)));
}

/// Body of the validation report page.
pub open spec fn validation_body(ds: Seq<DiagnosticView>) -> Seq<char> {
    "<h1>Validation Report</h1><p class=\"meta\">"@ + decimal(with_severity(ds, Severity::Error).len()) + " error(s), "@
        + decimal(with_severity(ds, Severity::Warning).len()) + " warning(s), "@
        + decimal(with_severity(ds, Severity::Information).len()) + " information(s)</p>"@ + html_table(ds)
}

proof fn lemma_row_holds(d: DiagnosticView)
    ensures
        exists|pre: Seq<char>, post: Seq<char>| #[trigger] encloses(html_row(d), pre, esc(d.message), post),
        exists|pre: Seq<char>, post: Seq<char>| #[trigger] encloses(html_row(d), pre, esc(d.id), post),
{
    let row_pre = "<tr><td class=\""@ + severity_class(d.severity) + "\">"@ + esc(d.severity.label()) + "</td><td><code>"@;
    let row_post = "</code></td><td>"@ + esc(d.stage.label()) + "</td><td>"@
        + esc(match d.object_ref { Some(o) => o, None => Seq::empty() }) + "</td><td>"@ + esc(d.message) + "</td></tr>"@;
    assert(html_row(d) =~= row_pre + esc(d.id) + row_post);
    assert(encloses(html_row(d), row_pre, esc(d.id), row_post));
    let m_pre = row_pre + esc(d.id) + "</code></td><td>"@ + esc(d.stage.label()) + "</td><td>"@
        + esc(match d.object_ref { Some(o) => o, None => Seq::empty() }) + "</td><td>"@;
    assert(html_row(d) =~= m_pre + esc(d.message) + "</td></tr>"@);
    assert(encloses(html_row(d), m_pre, esc(d.message), "</td></tr>"@));
}

proof fn lemma_table_holds(ds: Seq<DiagnosticView>, i: int)
    requires
        0 <= i < ds.len(),
    ensures
        exists|pre: Seq<char>, post: Seq<char>| #[trigger] encloses(html_table(ds), pre, html_row(ds[i]), post),
{
    let rows = ds.map_values(|d: DiagnosticView| html_row(d));
    lemma_concat_holds(rows, i);
    assert(rows[i] == html_row(ds[i]));
    assert(encloses(concat(rows), concat(rows.take(i)), html_row(ds[i]), concat(rows.skip(i + 1))));
    let head = "<table><thead><tr><th>Severity</th><th>Id</th><th>Stage</th><th>Object</th><th>Message</th></tr></thead><tbody>"@;
    lemma_encloses_wrap(concat(rows), concat(rows.take(i)), html_row(ds[i]), concat(rows.skip(i + 1)), head, "</tbody></table>"@);
    assert(html_table(ds) == head + concat(rows) + "</tbody></table>"@);
}

/// Every diagnostic of a validation report has its row in the report's page,
/// and that row holds the diagnostic's id and message only escaped (see
/// [`law_escaped_text_is_inert`]).
pub proof fn law_validation_page_rows(ds: Seq<DiagnosticView>, i: int)
    requires
        0 <= i < ds.len(),
    ensures
        exists|pre: Seq<char>, post: Seq<char>| #[trigger] encloses(document("Validation Report"@, validation_body(ds)), pre,
            html_row(ds[i]), post),
        exists|pre: Seq<char>, post: Seq<char>| #[trigger] encloses(html_row(ds[i]), pre, esc(ds[i].message), post),
        exists|pre: Seq<char>, post: Seq<char>| #[trigger] encloses(html_row(ds[i]), pre, esc(ds[i].id), post),
{
    lemma_row_holds(ds[i]);
    lemma_table_holds(ds, i);
    let (p, q) = choose|p: Seq<char>, q: Seq<char>| #[trigger] encloses(html_table(ds), p, html_row(ds[i]), q);
    let meta = "<h1>Validation Report</h1><p class=\"meta\">"@ + decimal(with_severity(ds, Severity::Error).len()) + " error(s), "@
        + decimal(with_severity(ds, Severity::Warning).len()) + " warning(s), "@
        + decimal(with_severity(ds, Severity::Information).len()) + " information(s)</p>"@;
    let a = DOCUMENT_START@ + esc("Validation Report"@) + DOCUMENT_HEAD@ + meta;
    lemma_encloses_wrap(html_table(ds), p, html_row(ds[i]), q, a, DOCUMENT_END@);
    assert(document("Validation Report"@, validation_body(ds)) =~= a + html_table(ds) + DOCUMENT_END@);
}

/// HTML for a validation report.
pub fn validation_to_html(report: &ValidationReport) -> (r: String)
    ensures
        r@ == document("Validation Report"@, validation_body(report@)),
{
    let mut body = String::from_str("<h1>Validation Report</h1><p class=\"meta\">");
    push_str(&mut body, usize_string(report.error_count()).as_str());
    push_str(&mut body, " error(s), ");
    push_str(&mut body, usize_string(report.warning_count()).as_str());
    push_str(&mut body, " warning(s), ");
    push_str(&mut body, usize_string(report.information_count()).as_str());
    push_str(&mut body, " information(s)</p>");
    push_table(&mut body, &report.diagnostics);
    assert(body@ =~= validation_body(report@));
    wrap_document("Validation Report", body.as_str())
}

/// Body of the diagnostic report page.
pub open spec fn diagnostic_body(r: DiagnosticReport) -> Seq<char> {
    "<h1>Diagnostic Report</h1><ul><li>Processing result: <code>"@
        + esc(if r.processing_result == ProcessingResult::Valid { "valid"@ } else { "invalid"@ }) + "</code></li>"@
        + (match r.artifact_id {
            Some(id) => "<li>Artifact: <code>"@ + esc(id@) + "</code></li>"@,
            None => Seq::empty(),
        })
        + "<li>Implementation: "@ + esc(r.implementation.name@) + " "@ + esc(r.implementation.version@) + "</li></ul>"@
        + html_table(diag_views(r.diagnostics@))
}

/// HTML for a diagnostic report.
pub fn diagnostic_to_html(report: &DiagnosticReport) -> (r: String)
    ensures
        r@ == document("Diagnostic Report"@, diagnostic_body(*report)),
{
    let mut body = String::from_str("<h1>Diagnostic Report</h1><ul><li>Processing result: <code>");
    push_str(&mut body, esc_exec(report.processing_result.as_str()).as_str());
    push_str(&mut body, "</code></li>");
    let ghost a = body@;
    match &report.artifact_id {
        Some(id) => {
            push_str(&mut body, "<li>Artifact: <code>");
            push_str(&mut body, esc_exec(id.as_str()).as_str());
            push_str(&mut body, "</code></li>");
        },
        None => {},
    }
    let ghost b = body@;
    push_str(&mut body, "<li>Implementation: ");
    push_str(&mut body, esc_exec(report.implementation.name.as_str()).as_str());
    push_str(&mut body, " ");
    push_str(&mut body, esc_exec(report.implementation.version.as_str()).as_str());
    push_str(&mut body, "</li></ul>");
    push_table(&mut body, &report.diagnostics);
    assert(body@ =~= diagnostic_body(*report));
    wrap_document("Diagnostic Report", body.as_str())
}

/// Body of the inspect page.
pub open spec fn inspect_body(v: InspectView) -> Seq<char> {
    inspect_body_head(v)
        + (match v.name {
            Some(n) => "<li>Name: "@ + esc(n@) + "</li>"@,
            None => Seq::empty(),
        })
        + (match v.step_order {
            Some(o) => "<li>Step order: "@ + esc(join(texts(o@), ", "@)) + "</li>"@,
            None => "<li>Planning: refused</li>"@,
        })
        + "</ul>"@
        + (if v.step_ids@.len() > 0 {
            "<h2>Steps</h2><ul>"@ + concat(texts(v.step_ids@).map_values(|id: Seq<char>| "<li><code>"@ + esc(id) + "</code></li>"@))
                + "</ul>"@
        } else {
            Seq::empty()
        })
}

/// Opening lines of the inspect page.
pub open spec fn inspect_body_head(v: InspectView) -> Seq<char> {
    "<h1>Pipeline Inspect</h1><ul><li>Id: <code>"@ + esc(v.id@) + "</code></li><li>Version: "@ + esc(v.version@)
        + "</li><li>DPCS version: "@ + esc(v.dpcs_version@) + "</li><li>Valid: "@ + bool_text(v.valid)
        + "</li><li>Steps: "@ + decimal(v.step_count as nat) + "</li><li>Edges: "@ + decimal(v.edge_count as nat)
        + "</li><li>Inputs: "@ + decimal(v.input_count as nat) + " / Outputs: "@ + decimal(v.output_count as nat) + "</li>"@
}

fn bool_str(b: bool) -> (r: &'static str)
    ensures
        r@ == bool_text(b),
{
    if b {
        proof { reveal_strlit("true"); }
        "true"
    } else {
        proof { reveal_strlit("false"); }
        "false"
    }
}

#[verifier::rlimit(60)]
fn push_inspect_head(body: &mut String, view: &InspectView)
    ensures
        final(body)@ == old(body)@ + inspect_body_head(*view),
{
    let ghost start = body@;
    push_str(body, "<h1>Pipeline Inspect</h1><ul><li>Id: <code>");
    push_str(body, esc_exec(view.id.as_str()).as_str());
    push_str(body, "</code></li><li>Version: ");
    push_str(body, esc_exec(view.version.as_str()).as_str());
    push_str(body, "</li><li>DPCS version: ");
    push_str(body, esc_exec(view.dpcs_version.as_str()).as_str());
    push_str(body, "</li><li>Valid: ");
    push_str(body, bool_str(view.valid));
    let ghost mid = body@;
    assert(mid =~= start + "<h1>Pipeline Inspect</h1><ul><li>Id: <code>"@ + esc(view.id@) + "</code></li><li>Version: "@
        + esc(view.version@) + "</li><li>DPCS version: "@ + esc(view.dpcs_version@) + "</li><li>Valid: "@ + bool_text(view.valid));
    push_str(body, "</li><li>Steps: ");
    push_str(body, usize_string(view.step_count).as_str());
    push_str(body, "</li><li>Edges: ");
    push_str(body, usize_string(view.edge_count).as_str());
    push_str(body, "</li><li>Inputs: ");
    push_str(body, usize_string(view.input_count).as_str());
    push_str(body, " / Outputs: ");
    push_str(body, usize_string(view.output_count).as_str());
    push_str(body, "</li>");
    assert(body@ =~= start + inspect_body_head(*view));
}

/// HTML for an inspect view.
#[verifier::rlimit(60)]
pub fn inspect_to_html(view: &InspectView) -> (r: String)
    ensures
        r@ == document("Pipeline Inspect"@, inspect_body(*view)),
{
    let mut body = String::new();
    push_inspect_head(&mut body, view);
    let ghost a = body@;
    match &view.name {
        Some(n) => {
            push_str(&mut body, "<li>Name: ");
            push_str(&mut body, esc_exec(n.as_str()).as_str());
            push_str(&mut body, "</li>");
        },
        None => {},
    }
    let ghost b = body@;
    match &view.step_order {
        Some(o) => {
            push_str(&mut body, "<li>Step order: ");
            assert(texts(o@) =~= o@.map_values(|s: String| s@));
            push_str(&mut body, esc_exec(join_strings(o, ", ").as_str()).as_str());
            push_str(&mut body, "</li>");
        },
        None => push_str(&mut body, "<li>Planning: refused</li>"),
    }
    push_str(&mut body, "</ul>");
    let ghost c = body@;
    if view.step_ids.len() > 0 {
        push_str(&mut body, "<h2>Steps</h2><ul>");
        let ghost head = body@;
        let ghost ids = texts(view.step_ids@);
        let mut i: usize = 0;
        while i < view.step_ids.len()
            invariant
                i <= view.step_ids@.len(),
                ids == texts(view.step_ids@),
                body@ == head + concat(ids.take(i as int).map_values(|id: Seq<char>| "<li><code>"@ + esc(id) + "</code></li>"@)),
            decreases view.step_ids.len() - i,
        {
            push_str(&mut body, "<li><code>");
            push_str(&mut body, esc_exec(view.step_ids[i].as_str()).as_str());
            push_str(&mut body, "</code></li>");
            proof {
                let t = ids.take(i + 1).map_values(|id: Seq<char>| "<li><code>"@ + esc(id) + "</code></li>"@);
                assert(ids.take(i as int).map_values(|id: Seq<char>| "<li><code>"@ + esc(id) + "</code></li>"@) =~= t.drop_last());
            }
            assert(body@ =~= head + concat(ids.take(i + 1).map_values(|id: Seq<char>| "<li><code>"@ + esc(id) + "</code></li>"@)));
            i += 1;
        }
        assert(ids.take(ids.len() as int) =~= ids);
        push_str(&mut body, "</ul>");
    }
    assert(body@ =~= inspect_body(*view));
    wrap_document("Pipeline Inspect", body.as_str())
}

/// Title of a graph page.
pub open spec fn graph_title(v: GraphView) -> Seq<char> {
    match v.contract_id {
        Some(id) => "Graph — "@ + id@,
        None => "Pipeline Graph"@,
    }
}

/// Body of a graph page around the Mermaid rendering `m`.
pub open spec fn graph_body(v: GraphView, m: Seq<char>) -> Seq<char> {
    "<h1>"@ + esc(graph_title(v)) + "</h1><p class=\"meta\">Mermaid source is embedded for offline use. Rendering below requires network access to the Mermaid CDN.</p><h2>Mermaid source</h2><pre><code>"@
        + esc(m) + "</code></pre><h2>Rendered graph</h2><div class=\"mermaid\">\n"@ + esc(m)
        + "\n</div><script type=\"module\">import mermaid from 'https://cdn.jsdelivr.net/npm/mermaid@11/dist/mermaid.esm.min.mjs';mermaid.initialize({ startOnLoad: true });</script>"@
}

/// HTML for a graph view (Mermaid source always embedded; CDN render is optional).
pub fn graph_to_html(view: &GraphView) -> (r: String)
    ensures
        exists|labels: Seq<Seq<char>>| strictly_sorted(labels) && labels.to_set() == graph_nodes(*view).to_set()
            && r@ == document(graph_title(*view), graph_body(*view, join(mermaid_lines(*view, labels), "\n"@))),
{
    let mermaid = graph_to_mermaid(view);
    let title = match &view.contract_id {
        Some(id) => {
            let mut t = String::from_str("Graph — ");
            push_str(&mut t, id.as_str());
            t
        },
        None => String::from_str("Pipeline Graph"),
    };
    let m = esc_exec(mermaid.as_str());
    let mut body = String::from_str("<h1>");
    push_str(&mut body, esc_exec(title.as_str()).as_str());
    push_str(&mut body, "</h1><p class=\"meta\">Mermaid source is embedded for offline use. Rendering below requires network access to the Mermaid CDN.</p><h2>Mermaid source</h2><pre><code>");
    push_str(&mut body, m.as_str());
    push_str(&mut body, "</code></pre><h2>Rendered graph</h2><div class=\"mermaid\">\n");
    push_str(&mut body, m.as_str());
    push_str(&mut body, "\n</div><script type=\"module\">import mermaid from 'https://cdn.jsdelivr.net/npm/mermaid@11/dist/mermaid.esm.min.mjs';mermaid.initialize({ startOnLoad: true });</script>");
    proof {
        assert(title@ == graph_title(*view));
        let labels = choose|labels: Seq<Seq<char>>| strictly_sorted(labels) && labels.to_set() == graph_nodes(*view).to_set()
            && mermaid@ == join(mermaid_lines(*view, labels), "\n"@);
        assert(body@ =~= graph_body(*view, mermaid@));
    }
    wrap_document(title.as_str(), body.as_str())
}

/// Body of the capability report page.
pub open spec fn capability_body(r: CapabilityReport) -> Seq<char> {
    "<h1>Capability Report</h1><ul><li>Profile: <code>"@ + esc(r.profile_identity@) + "</code></li>"@
        + (match r.plan_contract_id {
            Some(id) => "<li>Contract: <code>"@ + esc(id@) + "</code></li>"@,
            None => Seq::empty(),
        })
        + "<li>Satisfied: "@ + esc(join(texts(r.satisfied@), ", "@)) + "</li><li>Missing mandatory: "@
        + esc(join(texts(r.missing_mandatory@), ", "@)) + "</li><li>Unsupported optional: "@
        + esc(join(texts(r.unsupported_optional@), ", "@)) + "</li></ul>"@ + html_table(diag_views(r.diagnostics@))
}

/// HTML for a capability report.
pub fn capability_to_html(report: &CapabilityReport) -> (r: String)
    ensures
        r@ == document("Capability Report"@, capability_body(*report)),
{
    let mut body = String::from_str("<h1>Capability Report</h1><ul><li>Profile: <code>");
    push_str(&mut body, esc_exec(report.profile_identity.as_str()).as_str());
    push_str(&mut body, "</code></li>");
    let ghost a = body@;
    match &report.plan_contract_id {
        Some(id) => {
            push_str(&mut body, "<li>Contract: <code>");
            push_str(&mut body, esc_exec(id.as_str()).as_str());
            push_str(&mut body, "</code></li>");
        },
        None => {},
    }
    let ghost b = body@;
    assert(texts(report.satisfied@) =~= report.satisfied@.map_values(|s: String| s@));
    assert(texts(report.missing_mandatory@) =~= report.missing_mandatory@.map_values(|s: String| s@));
    assert(texts(report.unsupported_optional@) =~= report.unsupported_optional@.map_values(|s: String| s@));
    push_str(&mut body, "<li>Satisfied: ");
    push_str(&mut body, esc_exec(join_strings(&report.satisfied, ", ").as_str()).as_str());
    push_str(&mut body, "</li><li>Missing mandatory: ");
    push_str(&mut body, esc_exec(join_strings(&report.missing_mandatory, ", ").as_str()).as_str());
    push_str(&mut body, "</li><li>Unsupported optional: ");
    push_str(&mut body, esc_exec(join_strings(&report.unsupported_optional, ", ").as_str()).as_str());
    push_str(&mut body, "</li></ul>");
    push_table(&mut body, &report.diagnostics);
    assert(body@ =~= capability_body(*report));
    wrap_document("Capability Report", body.as_str())
}

/// Body of the compatibility report page.
pub open spec fn compatibility_body(r: CompatibilityReport) -> Seq<char> {
    "<h1>Compatibility Report</h1><ul><li>Baseline: <code>"@ + esc(r.baseline_id@) + "@"@ + esc(r.baseline_version@)
        + "</code></li><li>Candidate: <code>"@ + esc(r.candidate_id@) + "@"@ + esc(r.candidate_version@)
        + "</code></li><li>Category: <code>"@ + esc(r.category.label()) + "</code></li></ul>"@
        + html_table(diag_views(r.diagnostics@))
}

/// HTML for a compatibility report.
pub fn compatibility_to_html(report: &CompatibilityReport) -> (r: String)
    ensures
        r@ == document("Compatibility Report"@, compatibility_body(*report)),
{
    let mut body = String::from_str("<h1>Compatibility Report</h1><ul><li>Baseline: <code>");
    push_str(&mut body, esc_exec(report.baseline_id.as_str()).as_str());
    push_str(&mut body, "@");
    push_str(&mut body, esc_exec(report.baseline_version.as_str()).as_str());
    push_str(&mut body, "</code></li><li>Candidate: <code>");
    push_str(&mut body, esc_exec(report.candidate_id.as_str()).as_str());
    push_str(&mut body, "@");
    push_str(&mut body, esc_exec(report.candidate_version.as_str()).as_str());
    push_str(&mut body, "</code></li><li>Category: <code>");
    push_str(&mut body, esc_exec(report.category.as_str()).as_str());
    push_str(&mut body, "</code></li></ul>");
    push_table(&mut body, &report.diagnostics);
    assert(body@ =~= compatibility_body(*report));
    wrap_document("Compatibility Report", body.as_str())
}

} // verus!
