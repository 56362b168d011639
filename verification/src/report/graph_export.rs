//! Mermaid and Graphviz DOT exporters.
//!
//! Every node gets a unique token: its sanitized label, or the label followed
//! by `__n` for the least free `n >= 2` when that token is taken. Node lines
//! come in ascending label order; edges keep their declared order.
use vstd::prelude::*;

use super::views::{graph_view_from_contract, graph_view_of, GraphEdgeView, GraphView};
use crate::model::contract::PipelineContract;
use crate::binding::common::with_extras;
use crate::binding::names::{assign_names, base_of, sanitized_bases, unique_sanitized, NameMap};
use crate::diagnostics::texts;
use crate::text::{alnum, chars_of, digit, insert_sorted_unique, is_alnum, is_digit, join, join_strings, push_str, str_eq, string_of, strictly_sorted};

verus! {

/// One character of a node token.
pub open spec fn token_char(c: char) -> char {
    if is_alnum(c) || c == '_' { c } else { '_' }
}

/// Node token for a label (may collide).
pub open spec fn token_spec(id: Seq<char>) -> Seq<char> {
    let m = id.map_values(|c: char| token_char(c));
    if m.len() == 0 {
        "node"@
    } else if is_digit(m[0]) {
        seq!['n'] + m
    } else {
        m
    }
}

/// Escape a Mermaid/DOT node id to a safe identifier token (may collide).
pub fn sanitize_token(id: &str) -> (r: String)
    ensures
        r@ == token_spec(id@),
{
    let v = chars_of(id);
    let mut out: Vec<char> = Vec::new();
    let mut i: usize = 0;
    while i < v.len()
        invariant
            i <= v@.len(),
            out@ == v@.take(i as int).map_values(|c: char| token_char(c)),
        decreases v.len() - i,
    {
        let c = v[i];
        if alnum(c) || c == '_' {
            out.push(c);
        } else {
            out.push('_');
        }
        assert(v@.take(i + 1).map_values(|c: char| token_char(c)) =~= out@);
        i += 1;
    }
    assert(v@.take(v@.len() as int) =~= v@);
    if out.len() == 0 {
        proof { reveal_strlit("node"); }
        return String::from_str("node");
    }
    if digit(out[0]) {
        let mut s = String::from_str("n");
        proof { reveal_strlit("n"); }
        crate::text::push_chars(&mut s, &out);
        return s;
    }
    string_of(&out)
}

/// Label text with `\` and `"` escaped and line breaks turned into spaces.
pub open spec fn label_escape(c: char) -> Seq<char> {
    if c == '\\' {
        seq!['\\', '\\']
    } else if c == '"' {
        seq!['\\', '"']
    } else if c == '\n' || c == '\r' {
        seq![' ']
    } else {
        seq![c]
    }
}

/// Mermaid edge labels additionally neutralize `|`, `[` and `]`.
pub open spec fn edge_label_escape(c: char) -> Seq<char> {
    if c == '|' {
        seq!['/']
    } else if c == '[' {
        seq!['(']
    } else if c == ']' {
        seq![')']
    } else {
        label_escape(c)
    }
}

/// `s` with every character replaced by `f` of it.
pub open spec fn escaped(s: Seq<char>, edge: bool) -> Seq<char>
    decreases s.len(),
{
    if s.len() == 0 {
        Seq::empty()
    } else {
        escaped(s.drop_last(), edge) + if edge { edge_label_escape(s.last()) } else { label_escape(s.last()) }
    }
}

fn escape_text(s: &str, edge: bool) -> (r: String)
    ensures
        r@ == escaped(s@, edge),
{
    let v = chars_of(s);
    let mut out = String::new();
    let mut i: usize = 0;
    while i < v.len()
        invariant
            i <= v@.len(),
            v@ == s@,
            out@ == escaped(v@.take(i as int), edge),
        decreases v.len() - i,
    {
        let c = v[i];
        let ghost before = out@;
        if edge && c == '|' {
            crate::text::push_char(&mut out, '/');
        } else if edge && c == '[' {
            crate::text::push_char(&mut out, '(');
        } else if edge && c == ']' {
            crate::text::push_char(&mut out, ')');
        } else if c == '\\' {
            crate::text::push_char(&mut out, '\\');
            crate::text::push_char(&mut out, '\\');
        } else if c == '"' {
            crate::text::push_char(&mut out, '\\');
            crate::text::push_char(&mut out, '"');
        } else if c == '\n' || c == '\r' {
            crate::text::push_char(&mut out, ' ');
        } else {
            crate::text::push_char(&mut out, c);
        }
        assert(v@.take(i + 1).drop_last() =~= v@.take(i as int));
        assert(out@ =~= escaped(v@.take(i + 1), edge));
        i += 1;
    }
    assert(v@.take(v@.len() as int) =~= v@);
    out
}

/// Endpoints of the edges, source then target, in edge order.
pub open spec fn endpoints(edges: Seq<GraphEdgeView>) -> Seq<Seq<char>>
    decreases edges.len(),
{
    if edges.len() == 0 {
        Seq::empty()
    } else {
        endpoints(edges.drop_last()) + seq![edges.last().from@, edges.last().to@]
    }
}

/// Graph nodes: step ids, then edge endpoints, entry points and exit points
/// not already listed.
pub open spec fn graph_nodes(v: GraphView) -> Seq<Seq<char>> {
    with_extras(texts(v.step_ids@), endpoints(v.edges@) + texts(v.entry_points@) + texts(v.exit_points@))
}

/// Token of `id` after disambiguation (the last assignment of a repeated
/// label), or `node` for an unknown label.
pub open spec fn token_of(keys: Seq<Seq<char>>, names: Seq<Seq<char>>, id: Seq<char>, n: int) -> Seq<char>
    decreases n,
{
    if n <= 0 {
        "node"@
    } else if keys[n - 1] == id {
        names[n - 1]
    } else {
        token_of(keys, names, id, n - 1)
    }
}

/// Disambiguated tokens of the graph nodes.
pub open spec fn node_tokens(v: GraphView) -> Seq<Seq<char>> {
    assign_names(graph_nodes(v).map_values(|s: Seq<char>| token_spec(s)))
}

/// Token of a label in the graph.
pub open spec fn tok(v: GraphView, id: Seq<char>) -> Seq<char> {
    token_of(graph_nodes(v), node_tokens(v), id, graph_nodes(v).len() as int)
}

/// Mermaid edge line.
pub open spec fn mermaid_edge(v: GraphView, e: GraphEdgeView) -> Seq<char> {
    match e.kind {
        Some(k) => if k@.len() > 0 {
            "  "@ + tok(v, e.from@) + " -->|"@ + escaped(k@, true) + "| "@ + tok(v, e.to@)
        } else {
            "  "@ + tok(v, e.from@) + " --> "@ + tok(v, e.to@)
        },
        None => "  "@ + tok(v, e.from@) + " --> "@ + tok(v, e.to@),
    }
}

/// Lines of the Mermaid rendering, given the node labels in ascending order.
pub open spec fn mermaid_lines(v: GraphView, labels: Seq<Seq<char>>) -> Seq<Seq<char>> {
    seq!["flowchart LR"@]
    + labels.map_values(|id: Seq<char>| "  "@ + tok(v, id) + "[\""@ + escaped(id, false) + "\"]"@)
    + (if v.edges@.len() == 0 {
        seq!["  %% no edges"@]
    } else {
        v.edges@.map_values(|e: GraphEdgeView| mermaid_edge(v, e))
    })
    + (if v.planning_refused {
        seq!["  %% planning refused"@]
    } else {
        match v.step_order {
            Some(o) => seq!["  %% stepOrder: "@ + escaped(join(texts(o@), ", "@), false)],
            None => Seq::empty(),
        }
    })
}

/// DOT edge line.
pub open spec fn dot_edge(v: GraphView, e: GraphEdgeView) -> Seq<char> {
    match e.kind {
        Some(k) => if k@.len() > 0 {
            "  "@ + tok(v, e.from@) + " -> "@ + tok(v, e.to@) + " [label=\""@ + escaped(k@, false) + "\"];"@
        } else {
            "  "@ + tok(v, e.from@) + " -> "@ + tok(v, e.to@) + ";"@
        },
        None => "  "@ + tok(v, e.from@) + " -> "@ + tok(v, e.to@) + ";"@,
    }
}

/// Lines of the DOT rendering, given the node labels in ascending order.
pub open spec fn dot_lines(v: GraphView, labels: Seq<Seq<char>>) -> Seq<Seq<char>> {
    seq!["digraph dpcs {"@, "  rankdir=LR;"@, "  node [shape=box];"@]
    + labels.map_values(|id: Seq<char>| "  "@ + tok(v, id) + " [label=\""@ + escaped(id, false) + "\"];"@)
    + v.edges@.map_values(|e: GraphEdgeView| dot_edge(v, e))
    + (if v.planning_refused { seq!["  // planning refused"@] } else { Seq::empty() })
    + seq!["}"@]
}

fn graph_node_strings(v: &GraphView) -> (r: Vec<String>)
    ensures
        texts(r@) == graph_nodes(*v),
{
    let mut extras: Vec<String> = Vec::new();
    let mut i: usize = 0;
    while i < v.edges.len()
        invariant
            i <= v.edges@.len(),
            texts(extras@) == endpoints(v.edges@.take(i as int)),
        decreases v.edges.len() - i,
    {
        extras.push(v.edges[i].from.clone());
        extras.push(v.edges[i].to.clone());
        assert(v.edges@.take(i + 1).drop_last() =~= v.edges@.take(i as int));
        assert(texts(extras@) =~= endpoints(v.edges@.take(i + 1)));
        i += 1;
    }
    assert(v.edges@.take(v.edges@.len() as int) =~= v.edges@);
    append_texts(&mut extras, &v.entry_points);
    append_texts(&mut extras, &v.exit_points);
    let mut nodes: Vec<String> = Vec::new();
    append_texts(&mut nodes, &v.step_ids);
    assert(texts(nodes@) =~= texts(v.step_ids@));
    let ghost x = texts(extras@);
    let mut q: usize = 0;
    assert(x.take(0) =~= Seq::<Seq<char>>::empty());
    while q < extras.len()
        invariant
            q <= extras@.len(),
            x == texts(extras@),
            texts(nodes@) == with_extras(texts(v.step_ids@), x.take(q as int)),
        decreases extras.len() - q,
    {
        let mut found = false;
        let mut t: usize = 0;
        while t < nodes.len()
            invariant
                t <= nodes@.len(),
                q < extras@.len(),
                found == (exists|w: int| 0 <= w < t && (#[trigger] nodes@[w])@ == extras@[q as int]@),
            decreases nodes.len() - t,
        {
            if str_eq(nodes[t].as_str(), extras[q].as_str()) {
                found = true;
            }
            t += 1;
        }
        proof {
            assert(x.take(q + 1).drop_last() =~= x.take(q as int));
            assert(x.take(q + 1).last() == extras@[q as int]@);
            if found {
                let w = choose|w: int| 0 <= w < nodes@.len() && (#[trigger] nodes@[w])@ == extras@[q as int]@;
                assert(texts(nodes@)[w] == extras@[q as int]@);
            } else {
                assert forall|w: int| 0 <= w < texts(nodes@).len() implies texts(nodes@)[w] != extras@[q as int]@ by {
                    assert(texts(nodes@)[w] == nodes@[w]@);
                }
            }
        }
        if !found {
            nodes.push(extras[q].clone());
            assert(texts(nodes@) =~= with_extras(texts(v.step_ids@), x.take(q + 1)));
        }
        q += 1;
    }
    assert(x.take(x.len() as int) =~= x);
    nodes
}

proof fn lemma_token_of(keys: Seq<Seq<char>>, names: Seq<Seq<char>>, id: Seq<char>, i: int, n: int)
    requires
        0 <= i < n <= keys.len(),
        keys[i] == id,
        forall|k: int| i < k < n ==> keys[k] != id,
    ensures
        token_of(keys, names, id, n) == names[i],
    decreases n,
{
    if n - 1 > i {
        lemma_token_of(keys, names, id, i, n - 1);
    }
}

proof fn lemma_token_of_none(keys: Seq<Seq<char>>, names: Seq<Seq<char>>, id: Seq<char>, n: int)
    requires
        0 <= n <= keys.len(),
        forall|k: int| 0 <= k < n ==> keys[k] != id,
    ensures
        token_of(keys, names, id, n) == "node"@,
    decreases n,
{
    if n > 0 {
        lemma_token_of_none(keys, names, id, n - 1);
    }
}

/// Token for `id` in the name map (`node` when absent).
fn token_for(nm: &NameMap, id: &str) -> (r: String)
    ensures
        r@ == token_of(nm.keys(), nm.names(), id@, nm.entries@.len() as int),
{
    match nm.get(id) {
        Some(n) => {
            proof {
                let i = choose|i: int| 0 <= i < nm.entries@.len() && nm.keys()[i] == id@ && n@ == nm.names()[i]
                    && forall|k: int| i < k < nm.entries@.len() ==> nm.keys()[k] != id@;
                lemma_token_of(nm.keys(), nm.names(), id@, i, nm.entries@.len() as int);
            }
            n.clone()
        },
        None => {
            proof {
                lemma_token_of_none(nm.keys(), nm.names(), id@, nm.entries@.len() as int);
                reveal_strlit("node");
            }
            String::from_str("node")
        },
    }
}

proof fn lemma_bases_token(ids: Seq<String>, bases: Seq<Seq<char>>)
    requires
        sanitized_bases(ids, sanitize_token, bases),
    ensures
        bases == texts(ids).map_values(|s: Seq<char>| token_spec(s)),
{
    assert forall|k: int| 0 <= k < bases.len() implies bases[k] == token_spec(ids[k]@) by {
        assert(base_of(sanitize_token, ids[k]@, bases[k]));
    }
    assert(bases =~= texts(ids).map_values(|s: Seq<char>| token_spec(s)));
}

/// The graph's nodes with their disambiguated tokens, and its node labels in
/// ascending order without repeats.
fn node_names(v: &GraphView) -> (r: (NameMap, Vec<String>))
    ensures
        r.0.keys() == graph_nodes(*v),
        r.0.names() == node_tokens(*v),
        strictly_sorted(texts(r.1@)),
        texts(r.1@).to_set() == graph_nodes(*v).to_set(),
{
    let nodes = graph_node_strings(v);
    proof { lemma_with_extras_len(texts(v.step_ids@), endpoints(v.edges@) + texts(v.entry_points@) + texts(v.exit_points@)); lemma_endpoints_len(v.edges@); }
    let nm = unique_sanitized(nodes.as_slice(), sanitize_token);
    proof {
        let bases = choose|bases: Seq<Seq<char>>| #[trigger] sanitized_bases(nodes@, sanitize_token, bases) && nm.names() == assign_names(bases);
        lemma_bases_token(nodes@, bases);
        assert(texts(nodes@) =~= nodes@.map_values(|s: String| s@));
    }
    let mut labels: Vec<String> = Vec::new();
    assert(labels@.map_values(|s: String| s@).to_set() =~= Set::<Seq<char>>::empty());
    let mut i: usize = 0;
    while i < nodes.len()
        invariant
            i <= nodes@.len(),
            strictly_sorted(labels@.map_values(|s: String| s@)),
            labels@.map_values(|s: String| s@).to_set() == texts(nodes@).take(i as int).to_set(),
        decreases nodes.len() - i,
    {
        insert_sorted_unique(&mut labels, nodes[i].clone());
        proof {
            let a = texts(nodes@).take(i + 1);
            let b = texts(nodes@).take(i as int);
            assert(a =~= b.push(nodes@[i as int]@));
            assert forall|x: Seq<char>| a.to_set().contains(x) <==> b.to_set().insert(nodes@[i as int]@).contains(x) by {
                if a.contains(x) {
                    let k = choose|k: int| 0 <= k < a.len() && a[k] == x;
                    if k < b.len() { assert(b[k] == x); }
                }
                if b.contains(x) {
                    let k = choose|k: int| 0 <= k < b.len() && b[k] == x;
                    assert(a[k] == x);
                }
                if x == nodes@[i as int]@ { assert(a[i as int] == x); }
            }
            assert(a.to_set() =~= b.to_set().insert(nodes@[i as int]@));
        }
        i += 1;
    }
    assert(texts(nodes@).take(nodes@.len() as int) =~= texts(nodes@));
    assert(texts(labels@) =~= labels@.map_values(|s: String| s@));
    (nm, labels)
}

proof fn lemma_endpoints_len(edges: Seq<GraphEdgeView>)
    ensures
        endpoints(edges).len() == 2 * edges.len(),
    decreases edges.len(),
{
    if edges.len() > 0 {
        lemma_endpoints_len(edges.drop_last());
    }
}

proof fn lemma_with_extras_len(ids: Seq<Seq<char>>, extras: Seq<Seq<char>>)
    ensures
        with_extras(ids, extras).len() <= ids.len() + extras.len(),
    decreases extras.len(),
{
    if extras.len() > 0 {
        lemma_with_extras_len(ids, extras.drop_last());
    }
}

fn append_texts(out: &mut Vec<String>, v: &Vec<String>)
    ensures
        texts(final(out)@) == texts(old(out)@) + texts(v@),
{
    let ghost start = texts(out@);
    let mut i: usize = 0;
    while i < v.len()
        invariant
            i <= v@.len(),
            out@.len() == start.len() + i,
            forall|k: int| 0 <= k < start.len() ==> (#[trigger] out@[k])@ == start[k],
            forall|k: int| 0 <= k < i ==> (#[trigger] out@[start.len() + k])@ == v@[k]@,
        decreases v.len() - i,
    {
        out.push(v[i].clone());
        i += 1;
    }
    assert forall|k: int| 0 <= k < texts(out@).len() implies texts(out@)[k] == (start + texts(v@))[k] by {
        if k >= start.len() {
            let j = k - start.len();
            assert(out@[start.len() + j]@ == v@[j]@);
        }
    }
    assert(texts(out@) =~= start + texts(v@));
}

fn push_line(lines: &mut Vec<String>, line: String)
    ensures
        texts(final(lines)@) == texts(old(lines)@).push(line@),
{
    lines.push(line);
    assert(texts(lines@) =~= texts(old(lines)@).push(line@));
}

fn join3(a: &str, b: &str, c: &str) -> (r: String)
    ensures
        r@ == a@ + b@ + c@,
{
    let mut out = String::from_str(a);
    push_str(&mut out, b);
    push_str(&mut out, c);
    out
}

/// Render a Mermaid `flowchart LR` diagram from a [`GraphView`].
pub fn graph_to_mermaid(view: &GraphView) -> (r: String)
    ensures
        exists|labels: Seq<Seq<char>>| strictly_sorted(labels) && labels.to_set() == graph_nodes(*view).to_set()
            && r@ == join(mermaid_lines(*view, labels), "\n"@),
{
    let (nm, labels) = node_names(view);
    let ghost lv = texts(labels@);
    let mut lines: Vec<String> = Vec::new();
    push_line(&mut lines, String::from_str("flowchart LR"));
    let mut i: usize = 0;
    while i < labels.len()
        invariant
            i <= labels@.len(),
            lv == texts(labels@),
            nm.keys() == graph_nodes(*view),
            nm.names() == node_tokens(*view),
            nm.entries@.len() == graph_nodes(*view).len(),
            texts(lines@) == seq!["flowchart LR"@] + lv.take(i as int).map_values(|id: Seq<char>| "  "@ + tok(*view, id) + "[\""@
                + escaped(id, false) + "\"]"@),
        decreases labels.len() - i,
    {
        let id = labels[i].as_str();
        let t = token_for(&nm, id);
        let e = escape_text(id, false);
        let mut line = join3("  ", t.as_str(), "[\"");
        push_str(&mut line, e.as_str());
        push_str(&mut line, "\"]");
        push_line(&mut lines, line);
        assert(lv.take(i + 1).drop_last() =~= lv.take(i as int));
        assert(texts(lines@) =~= seq!["flowchart LR"@] + lv.take(i + 1).map_values(|id: Seq<char>| "  "@ + tok(*view, id) + "[\""@
            + escaped(id, false) + "\"]"@));
        i += 1;
    }
    assert(lv.take(lv.len() as int) =~= lv);
    let ghost head = texts(lines@);
    if view.edges.len() == 0 {
        push_line(&mut lines, String::from_str("  %% no edges"));
    } else {
        let mut j: usize = 0;
        while j < view.edges.len()
            invariant
                j <= view.edges@.len(),
                nm.keys() == graph_nodes(*view),
                nm.names() == node_tokens(*view),
                nm.entries@.len() == graph_nodes(*view).len(),
                texts(lines@) == head + view.edges@.take(j as int).map_values(|e: GraphEdgeView| mermaid_edge(*view, e)),
            decreases view.edges.len() - j,
        {
            let edge = &view.edges[j];
            let from = token_for(&nm, edge.from.as_str());
            let to = token_for(&nm, edge.to.as_str());
            let line = match &edge.kind {
                Some(k) => {
                    let kv = chars_of(k.as_str());
                    if kv.len() > 0 {
                        let mut l = join3("  ", from.as_str(), " -->|");
                        push_str(&mut l, escape_text(k.as_str(), true).as_str());
                        push_str(&mut l, "| ");
                        push_str(&mut l, to.as_str());
                        l
                    } else {
                        join3("  ", from.as_str(), join3(" --> ", to.as_str(), "").as_str())
                    }
                },
                None => join3("  ", from.as_str(), join3(" --> ", to.as_str(), "").as_str()),
            };
            proof { reveal_strlit(""); }
            assert(line@ =~= mermaid_edge(*view, *edge));
            push_line(&mut lines, line);
            assert(view.edges@.take(j + 1).drop_last() =~= view.edges@.take(j as int));
            assert(texts(lines@) =~= head + view.edges@.take(j + 1).map_values(|e: GraphEdgeView| mermaid_edge(*view, e)));
            j += 1;
        }
        assert(view.edges@.take(view.edges@.len() as int) =~= view.edges@);
    }
    let ghost middle = texts(lines@);
    if view.planning_refused {
        push_line(&mut lines, String::from_str("  %% planning refused"));
    } else {
        match &view.step_order {
            Some(o) => {
                let joined = join_strings(o, ", ");
                assert(texts(o@) =~= o@.map_values(|s: String| s@));
                push_line(&mut lines, join3("  %% stepOrder: ", escape_text(joined.as_str(), false).as_str(), ""));
            },
            None => {},
        }
    }
    proof {
        reveal_strlit("");
        assert(texts(lines@) =~= mermaid_lines(*view, lv));
        assert(texts(lines@) =~= lines@.map_values(|s: String| s@));
    }
    join_strings(&lines, "\n")
}

/// Render Graphviz DOT from a [`GraphView`].
pub fn graph_to_dot(view: &GraphView) -> (r: String)
    ensures
        exists|labels: Seq<Seq<char>>| strictly_sorted(labels) && labels.to_set() == graph_nodes(*view).to_set()
            && r@ == join(dot_lines(*view, labels), "\n"@),
{
    let (nm, labels) = node_names(view);
    let ghost lv = texts(labels@);
    let mut lines: Vec<String> = Vec::new();
    push_line(&mut lines, String::from_str("digraph dpcs {"));
    push_line(&mut lines, String::from_str("  rankdir=LR;"));
    push_line(&mut lines, String::from_str("  node [shape=box];"));
    let ghost top = texts(lines@);
    let mut i: usize = 0;
    while i < labels.len()
        invariant
            i <= labels@.len(),
            lv == texts(labels@),
            nm.keys() == graph_nodes(*view),
            nm.names() == node_tokens(*view),
            nm.entries@.len() == graph_nodes(*view).len(),
            texts(lines@) == top + lv.take(i as int).map_values(|id: Seq<char>| "  "@ + tok(*view, id) + " [label=\""@
                + escaped(id, false) + "\"];"@),
        decreases labels.len() - i,
    {
        let id = labels[i].as_str();
        let t = token_for(&nm, id);
        let e = escape_text(id, false);
        let mut line = join3("  ", t.as_str(), " [label=\"");
        push_str(&mut line, e.as_str());
        push_str(&mut line, "\"];");
        push_line(&mut lines, line);
        assert(lv.take(i + 1).drop_last() =~= lv.take(i as int));
        assert(texts(lines@) =~= top + lv.take(i + 1).map_values(|id: Seq<char>| "  "@ + tok(*view, id) + " [label=\""@
            + escaped(id, false) + "\"];"@));
        i += 1;
    }
    assert(lv.take(lv.len() as int) =~= lv);
    let ghost head = texts(lines@);
    let mut j: usize = 0;
    while j < view.edges.len()
        invariant
            j <= view.edges@.len(),
            nm.keys() == graph_nodes(*view),
            nm.names() == node_tokens(*view),
            nm.entries@.len() == graph_nodes(*view).len(),
            texts(lines@) == head + view.edges@.take(j as int).map_values(|e: GraphEdgeView| dot_edge(*view, e)),
        decreases view.edges.len() - j,
    {
        let edge = &view.edges[j];
        let from = token_for(&nm, edge.from.as_str());
        let to = token_for(&nm, edge.to.as_str());
        let mut line = join3("  ", from.as_str(), " -> ");
        push_str(&mut line, to.as_str());
        match &edge.kind {
            Some(k) => {
                let kv = chars_of(k.as_str());
                if kv.len() > 0 {
                    push_str(&mut line, " [label=\"");
                    push_str(&mut line, escape_text(k.as_str(), false).as_str());
                    push_str(&mut line, "\"];");
                } else {
                    push_str(&mut line, ";");
                }
            },
            None => push_str(&mut line, ";"),
        }
        push_line(&mut lines, line);
        assert(view.edges@.take(j + 1).drop_last() =~= view.edges@.take(j as int));
        assert(texts(lines@) =~= head + view.edges@.take(j + 1).map_values(|e: GraphEdgeView| dot_edge(*view, e)));
        j += 1;
    }
    assert(view.edges@.take(view.edges@.len() as int) =~= view.edges@);
    if view.planning_refused {
        push_line(&mut lines, String::from_str("  // planning refused"));
    }
    push_line(&mut lines, String::from_str("}"));
    proof {
        assert(texts(lines@) =~= dot_lines(*view, lv));
        assert(texts(lines@) =~= lines@.map_values(|s: String| s@));
    }
    join_strings(&lines, "\n")
}

/// `text` is the Mermaid rendering of `view`.
pub open spec fn is_mermaid_of(view: GraphView, text: Seq<char>) -> bool {
    exists|labels: Seq<Seq<char>>| strictly_sorted(labels) && labels.to_set() == graph_nodes(view).to_set()
        && text == join(mermaid_lines(view, labels), "\n"@)
}

/// `text` is the Graphviz DOT rendering of `view`.
pub open spec fn is_dot_of(view: GraphView, text: Seq<char>) -> bool {
    exists|labels: Seq<Seq<char>>| strictly_sorted(labels) && labels.to_set() == graph_nodes(view).to_set()
        && text == join(dot_lines(view, labels), "\n"@)
}

/// Mermaid export for a pipeline contract whose planned step order is
/// `planned` (`None` when planning was refused).
pub fn to_mermaid(contract: &PipelineContract, planned: Option<Vec<String>>) -> (r: String)
    ensures
        exists|v: GraphView| graph_view_of(v, *contract, planned) && is_mermaid_of(v, r@),
{
    let view = graph_view_from_contract(contract, planned);
    assert(view.step_ids@.len() == texts(view.step_ids@).len());
    let r = graph_to_mermaid(&view);
    assert(graph_view_of(view, *contract, planned) && is_mermaid_of(view, r@));
    r
}

/// Graphviz DOT export for a pipeline contract whose planned step order is
/// `planned` (`None` when planning was refused).
pub fn to_dot(contract: &PipelineContract, planned: Option<Vec<String>>) -> (r: String)
    ensures
        exists|v: GraphView| graph_view_of(v, *contract, planned) && is_dot_of(v, r@),
{
    let view = graph_view_from_contract(contract, planned);
    assert(view.step_ids@.len() == texts(view.step_ids@).len());
    let r = graph_to_dot(&view);
    assert(graph_view_of(view, *contract, planned) && is_dot_of(view, r@));
    r
}

} // verus!
