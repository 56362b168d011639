//! Properties of compatibility comparisons.
use vstd::prelude::*;

use crate::diagnostics::report::{no_errors, sort_diagnostics};
use crate::diagnostics::{DiagnosticView, Severity};
use crate::model::contract::PipelineContract;
use crate::model::interface::InterfacePort;
use crate::model::step::{ContractReference, PipelineStep, StepPort};
use crate::plan::PipelinePlan;

use super::compare::{
    classify, contract_additive, contract_category, contract_findings, plan_category, plan_findings,
    plan_step_texts, dependency_texts, order_only_change, step_ports_grew, CompatibilityCategory,
    identity_findings, port_findings, step_findings, relation_findings, edge_texts, flow_texts, control_texts,
    execution_findings, scheduling_findings, gate_findings, failure_findings, lineage_findings, extension_findings,
};
use super::keyed::{warning_view, additions, has_duplicate_keys, has_new_key, is_last, last_index, lemma_last_index, removals_and_changes, Compared, Keyed};
use super::sets::{has_new_text, is_first, set_additions, set_removal, set_removals, set_warnings};

verus! {

/// Comparing a list with itself reports nothing when no item differs from itself.
proof fn lemma_removals_self<T: Compared>(b: Seq<T>, k: int, code: Seq<char>, msgp: Seq<char>, objp: Seq<char>)
    requires
        0 <= k <= b.len(),
        forall|i: int| 0 <= i < b.len() ==> (#[trigger] b[i]).change_views(&b[i], msgp, objp) == Seq::<DiagnosticView>::empty(),
    ensures
        removals_and_changes(b, b, k, code, msgp, objp) == Seq::<DiagnosticView>::empty(),
    decreases k,
{
    if k > 0 {
        lemma_removals_self(b, k - 1, code, msgp, objp);
        let i = k - 1;
        lemma_last_index(b, b[i].key());
        assert(removals_and_changes(b, b, k, code, msgp, objp) =~= Seq::<DiagnosticView>::empty());
    }
}

proof fn lemma_additions_self<T: Keyed>(b: Seq<T>, k: int, code: Seq<char>, msgp: Seq<char>, objp: Seq<char>)
    requires
        0 <= k <= b.len(),
    ensures
        additions(b, b, k, code, msgp, objp) == Seq::<DiagnosticView>::empty(),
        !has_new_key(b, b),
    decreases k,
{
    assert forall|j: int| 0 <= j < b.len() implies !(#[trigger] last_index(b, b[j].key()) is None) by {
        lemma_last_index(b, b[j].key());
    }
    if k > 0 {
        lemma_additions_self(b, k - 1, code, msgp, objp);
        assert(additions(b, b, k, code, msgp, objp) =~= Seq::<DiagnosticView>::empty());
    }
}

proof fn lemma_set_self(b: Seq<Seq<char>>, k: int, code: Seq<char>, msgp: Seq<char>, msgs: Seq<char>, objp: Seq<char>, with_entry: bool)
    requires
        0 <= k <= b.len(),
    ensures
        set_removals(b, b, k, code, msgp, msgs, objp, with_entry) == Seq::<DiagnosticView>::empty(),
        set_additions(b, b, k, code, msgp, objp) == Seq::<DiagnosticView>::empty(),
        set_warnings(b, b, k, code, msgp, msgs) == Seq::<DiagnosticView>::empty(),
        !has_new_text(b, b),
    decreases k,
{
    assert forall|j: int| 0 <= j < b.len() implies b.contains(#[trigger] b[j]) by {}
    if k > 0 {
        lemma_set_self(b, k - 1, code, msgp, msgs, objp, with_entry);
        assert(b.contains(b[k - 1]));
        assert(set_removals(b, b, k, code, msgp, msgs, objp, with_entry) =~= Seq::<DiagnosticView>::empty());
        assert(set_additions(b, b, k, code, msgp, objp) =~= Seq::<DiagnosticView>::empty());
        assert(set_warnings(b, b, k, code, msgp, msgs) =~= Seq::<DiagnosticView>::empty());
    }
}

proof fn lemma_step_ports_self(s: PipelineStep, msgp: Seq<char>, objp: Seq<char>)
    ensures
        s.change_views(&s, msgp, objp) == Seq::<DiagnosticView>::empty(),
        !has_new_key(s.inputs@, s.inputs@),
        !has_new_key(s.outputs@, s.outputs@),
{
    let id = s.id@;
    let (im, io) = (msgp + id + "` inputs port `"@, objp + id + ".inputs."@);
    let (om, oo) = (msgp + id + "` outputs port `"@, objp + id + ".outputs."@);
    assert forall|i: int| 0 <= i < s.inputs@.len() implies (#[trigger] s.inputs@[i]).change_views(&s.inputs@[i], im, io) == Seq::<DiagnosticView>::empty() by {
        assert(s.inputs@[i].change_views(&s.inputs@[i], im, io) =~= Seq::<DiagnosticView>::empty());
    }
    assert forall|i: int| 0 <= i < s.outputs@.len() implies (#[trigger] s.outputs@[i]).change_views(&s.outputs@[i], om, oo) == Seq::<DiagnosticView>::empty() by {
        assert(s.outputs@[i].change_views(&s.outputs@[i], om, oo) =~= Seq::<DiagnosticView>::empty());
    }
    lemma_removals_self(s.inputs@, s.inputs@.len() as int, "DPCS-COMPAT-017"@, im, io);
    lemma_removals_self(s.outputs@, s.outputs@.len() as int, "DPCS-COMPAT-017"@, om, oo);
    lemma_additions_self(s.inputs@, 0, Seq::empty(), Seq::empty(), Seq::empty());
    lemma_additions_self(s.outputs@, 0, Seq::empty(), Seq::empty(), Seq::empty());
    assert(s.change_views(&s, msgp, objp) =~= Seq::<DiagnosticView>::empty());
}

/// A contract compared with itself is fully compatible and yields no finding,
/// provided its interface port ids and step ids are unique.
pub proof fn law_contract_self_comparison(x: PipelineContract)
    requires
        !has_duplicate_keys(x.interface.inputs@),
        !has_duplicate_keys(x.interface.outputs@),
        !has_duplicate_keys(x.steps@),
    ensures
        contract_findings(x, x) == Seq::<DiagnosticView>::empty(),
        contract_category(x, x) == CompatibilityCategory::FullyCompatible,
{
    let (pi, po) = (x.interface.inputs@, x.interface.outputs@);
    assert forall|i: int| 0 <= i < pi.len() implies (#[trigger] pi[i]).change_views(&pi[i], "interface port `"@, "interface.inputs."@) == Seq::<DiagnosticView>::empty() by {
        assert(pi[i].change_views(&pi[i], "interface port `"@, "interface.inputs."@) =~= Seq::<DiagnosticView>::empty());
    }
    assert forall|i: int| 0 <= i < po.len() implies (#[trigger] po[i]).change_views(&po[i], "interface port `"@, "interface.outputs."@) == Seq::<DiagnosticView>::empty() by {
        assert(po[i].change_views(&po[i], "interface port `"@, "interface.outputs."@) =~= Seq::<DiagnosticView>::empty());
    }
    lemma_removals_self(pi, pi.len() as int, "DPCS-COMPAT-002"@, "interface port `"@, "interface.inputs."@);
    lemma_removals_self(po, po.len() as int, "DPCS-COMPAT-002"@, "interface port `"@, "interface.outputs."@);
    lemma_additions_self(pi, pi.len() as int, "DPCS-COMPAT-004"@, "interface port `"@, "interface.inputs."@);
    lemma_additions_self(po, po.len() as int, "DPCS-COMPAT-004"@, "interface port `"@, "interface.outputs."@);
    reveal_strlit("interface.inputs");
    reveal_strlit("interface.outputs");
    reveal_strlit(".");
    reveal_strlit("interface.inputs.");
    reveal_strlit("interface.outputs.");
    assert("interface.inputs"@ + "."@ =~= "interface.inputs."@);
    assert("interface.outputs"@ + "."@ =~= "interface.outputs."@);

    let st = x.steps@;
    assert forall|i: int| 0 <= i < st.len() implies (#[trigger] st[i]).change_views(&st[i], "step `"@, "steps."@) == Seq::<DiagnosticView>::empty() by {
        lemma_step_ports_self(st[i], "step `"@, "steps."@);
    }
    lemma_removals_self(st, st.len() as int, "DPCS-COMPAT-005"@, "step `"@, "steps."@);
    lemma_additions_self(st, st.len() as int, "DPCS-COMPAT-008"@, "step `"@, "steps."@);
    assert forall|i: int| 0 <= i < st.len() && is_last(st, i) implies !#[trigger] super::compare::matched_step_grew(st, st, i) by {
        lemma_step_ports_self(st[i], "step `"@, "steps."@);
    }

    let rf = x.contract_references@;
    assert forall|i: int| 0 <= i < rf.len() implies (#[trigger] rf[i]).change_views(&rf[i], "contract reference `"@, "contractReferences."@) == Seq::<DiagnosticView>::empty() by {
        assert(rf[i].change_views(&rf[i], "contract reference `"@, "contractReferences."@) =~= Seq::<DiagnosticView>::empty());
    }
    lemma_removals_self(rf, rf.len() as int, "DPCS-COMPAT-010"@, "contract reference `"@, "contractReferences."@);
    lemma_additions_self(rf, 0, Seq::empty(), Seq::empty(), Seq::empty());

    let e = super::compare::edge_texts(x);
    let f = super::compare::flow_texts(x);
    let cf = super::compare::control_texts(x);
    let k = super::compare::extension_keys(x.extensions);
    lemma_set_self(e, e.len() as int, "DPCS-COMPAT-009"@, "`"@ + "graph.edges"@ + "` relation `"@, "` removed"@, "graph.edges"@, false);
    lemma_set_self(f, f.len() as int, "DPCS-COMPAT-009"@, "`"@ + "dataFlow"@ + "` relation `"@, "` removed"@, "dataFlow"@, false);
    lemma_set_self(cf, cf.len() as int, "DPCS-COMPAT-009"@, "`"@ + "controlFlow"@ + "` relation `"@, "` removed"@, "controlFlow"@, false);
    lemma_set_self(k, k.len() as int, "DPCS-COMPAT-030"@, "extension `"@, "` removed"@, Seq::empty(), false);

    assert(contract_findings(x, x) =~= Seq::<DiagnosticView>::empty());
    assert(!contract_additive(x, x));
}

/// A contract comparison is `incompatible` exactly when one of its findings
/// is an error.
pub proof fn law_incompatible_iff_error(b: PipelineContract, c: PipelineContract)
    ensures
        (contract_category(b, c) == CompatibilityCategory::Incompatible) == !no_errors(contract_findings(b, c)),
{
}

/// Version identifiers alone never decide the category: changing only the
/// versions of the compared contracts changes neither findings nor category.
pub proof fn law_versions_never_decide(b: PipelineContract, c: PipelineContract, vb: String, vc: String)
    ensures
        contract_findings(PipelineContract { version: vb, ..b }, PipelineContract { version: vc, ..c }) == contract_findings(b, c),
        contract_category(PipelineContract { version: vb, ..b }, PipelineContract { version: vc, ..c }) == contract_category(b, c),
{
    let b2 = PipelineContract { version: vb, ..b };
    let c2 = PipelineContract { version: vc, ..c };
    assert(super::compare::edge_texts(b2) == super::compare::edge_texts(b));
    assert(super::compare::edge_texts(c2) == super::compare::edge_texts(c));
    assert(super::compare::flow_texts(b2) == super::compare::flow_texts(b));
    assert(super::compare::flow_texts(c2) == super::compare::flow_texts(c));
    assert(super::compare::control_texts(b2) == super::compare::control_texts(b));
    assert(super::compare::control_texts(c2) == super::compare::control_texts(c));
}

/// A plan compared with itself is fully compatible and yields no finding.
pub proof fn law_plan_self_comparison(p: PipelinePlan)
    ensures
        plan_findings(p, p) == Seq::<DiagnosticView>::empty(),
        plan_category(p, p) == CompatibilityCategory::FullyCompatible,
{
    let s = plan_step_texts(p);
    let d = dependency_texts(p);
    lemma_set_self(s, s.len() as int, "DPCS-COMPAT-041"@, "plan step `"@, "` removed"@, "steps."@, true);
    lemma_set_self(s, s.len() as int, "DPCS-COMPAT-042"@, "plan step `"@, "` removed"@, "steps."@, true);
    lemma_set_self(d, d.len() as int, "DPCS-COMPAT-043"@, "dependency edge `"@, "` removed"@, "dependencyEdges"@, false);
    assert(plan_findings(p, p) =~= Seq::<DiagnosticView>::empty());
}

proof fn lemma_same_set(b: Seq<Seq<char>>, c: Seq<Seq<char>>, k: int, code: Seq<char>, msgp: Seq<char>, msgs: Seq<char>,
    objp: Seq<char>, with_entry: bool)
    requires
        0 <= k,
        b.to_set() == c.to_set(),
    ensures
        k <= b.len() ==> set_removals(b, c, k, code, msgp, msgs, objp, with_entry) == Seq::<DiagnosticView>::empty(),
        k <= c.len() ==> set_additions(b, c, k, code, msgp, objp) == Seq::<DiagnosticView>::empty(),
        !has_new_text(b, c),
    decreases k,
{
    assert forall|j: int| 0 <= j < c.len() implies b.contains(#[trigger] c[j]) by {
        assert(c.to_set().contains(c[j]));
        assert(b.to_set().contains(c[j]));
    }
    assert forall|i: int| 0 <= i < b.len() implies c.contains(#[trigger] b[i]) by {
        assert(b.to_set().contains(b[i]));
        assert(c.to_set().contains(b[i]));
    }
    if k > 0 {
        lemma_same_set(b, c, k - 1, code, msgp, msgs, objp, with_entry);
        if k <= b.len() {
            assert(c.contains(b[k - 1]));
            assert(set_removals(b, c, k, code, msgp, msgs, objp, with_entry) =~= Seq::<DiagnosticView>::empty());
        }
        if k <= c.len() {
            assert(b.contains(c[k - 1]));
            assert(set_additions(b, c, k, code, msgp, objp) =~= Seq::<DiagnosticView>::empty());
        }
    }
}

/// Two plans of the same contract with the same steps and dependency edges
/// but another step order compare as conditionally compatible, with the one
/// finding that the order changed (`DPCS-COMPAT-044`, a warning).
pub proof fn law_plan_reorder_only_warns(b: PipelinePlan, c: PipelinePlan)
    requires
        b.contract_id@ == c.contract_id@,
        order_only_change(b, c),
    ensures
        plan_findings(b, c) == seq![warning_view("DPCS-COMPAT-044"@,
            "stepOrder differs while step set and dependency edges remain equal"@, "stepOrder"@)],
        sort_diagnostics(plan_findings(b, c)) == plan_findings(b, c),
        plan_category(b, c) == CompatibilityCategory::ConditionallyCompatible,
{
    let s1 = plan_step_texts(b);
    let s2 = plan_step_texts(c);
    let d1 = dependency_texts(b);
    let d2 = dependency_texts(c);
    lemma_same_set(s1, s2, s1.len() as int, "DPCS-COMPAT-041"@, "plan step `"@, "` removed"@, "steps."@, true);
    lemma_same_set(s1, s2, s2.len() as int, "DPCS-COMPAT-042"@, "plan step `"@, "` removed"@, "steps."@, true);
    lemma_same_set(d1, d2, d1.len() as int, "DPCS-COMPAT-043"@, "dependency edge `"@, "` removed"@, "dependencyEdges"@, false);
    lemma_same_set(d1, d2, d2.len() as int, "DPCS-COMPAT-043"@, "dependency edge `"@, "` removed"@, "dependencyEdges"@, false);
    let w = warning_view("DPCS-COMPAT-044"@, "stepOrder differs while step set and dependency edges remain equal"@, "stepOrder"@);
    assert(plan_findings(b, c) =~= seq![w]);
    assert(seq![w].drop_last() =~= Seq::<DiagnosticView>::empty());
    assert(sort_diagnostics(Seq::<DiagnosticView>::empty()) == Seq::<DiagnosticView>::empty());
    assert(sort_diagnostics(seq![w]) =~= seq![w]);
}

/// Some finding of `s` is an error on object `object`.
pub open spec fn has_error_on(s: Seq<DiagnosticView>, object: Seq<char>) -> bool {
    exists|i: int| 0 <= i < s.len() && (#[trigger] s[i]).severity == Severity::Error && s[i].object_ref == Some(object)
}

proof fn lemma_error_in_concat(a: Seq<DiagnosticView>, b: Seq<DiagnosticView>, object: Seq<char>)
    ensures
        has_error_on(a, object) ==> has_error_on(a + b, object),
        has_error_on(b, object) ==> has_error_on(a + b, object),
{
    if has_error_on(a, object) {
        let i = choose|i: int| 0 <= i < a.len() && (#[trigger] a[i]).severity == Severity::Error && a[i].object_ref == Some(object);
        assert((a + b)[i] == a[i]);
    }
    if has_error_on(b, object) {
        let i = choose|i: int| 0 <= i < b.len() && (#[trigger] b[i]).severity == Severity::Error && b[i].object_ref == Some(object);
        assert((a + b)[a.len() + i] == b[i]);
    }
}

proof fn lemma_error_breaks(s: Seq<DiagnosticView>, object: Seq<char>)
    requires
        has_error_on(s, object),
    ensures
        !no_errors(s),
{
    let i = choose|i: int| 0 <= i < s.len() && (#[trigger] s[i]).severity == Severity::Error && s[i].object_ref == Some(object);
    assert(s[i].severity == Severity::Error);
}

/// Removing the execution requirements that the baseline declared is a
/// breaking change: the comparison reports an error on `execution` and the
/// candidate is incompatible.
pub proof fn law_removing_execution_breaks(b: PipelineContract, c: PipelineContract)
    requires
        b.execution is Some,
        c.execution is None,
    ensures
        has_error_on(contract_findings(b, c), "execution"@),
        contract_category(b, c) == CompatibilityCategory::Incompatible,
{
    let pre = identity_findings(b, c)
        + port_findings("interface.inputs"@, b.interface.inputs@, c.interface.inputs@)
        + port_findings("interface.outputs"@, b.interface.outputs@, c.interface.outputs@)
        + step_findings(b.steps@, c.steps@)
        + relation_findings("graph.edges"@, edge_texts(b), edge_texts(c))
        + relation_findings("dataFlow"@, flow_texts(b), flow_texts(c))
        + relation_findings("controlFlow"@, control_texts(b), control_texts(c))
        + removals_and_changes(b.contract_references@, c.contract_references@, b.contract_references@.len() as int,
            "DPCS-COMPAT-010"@, "contract reference `"@, "contractReferences."@);
    let e = execution_findings(b.execution, c.execution);
    let post = scheduling_findings(b.scheduling@, c.scheduling@)
        + gate_findings(b.quality_gates@, c.quality_gates@)
        + failure_findings(b.failure_semantics@, c.failure_semantics@)
        + lineage_findings(b.lineage, c.lineage)
        + extension_findings(b.extensions, c.extensions);
    assert(contract_findings(b, c) =~= pre + e + post);
    assert(e[0].severity == Severity::Error && e[0].object_ref == Some("execution"@));
    assert(has_error_on(e, "execution"@));
    lemma_error_in_concat(pre, e, "execution"@);
    lemma_error_in_concat(pre + e, post, "execution"@);
    lemma_error_breaks(contract_findings(b, c), "execution"@);
}

proof fn lemma_first_occurrence(s: Seq<Seq<char>>, i: int) -> (f: int)
    requires
        0 <= i < s.len(),
    ensures
        0 <= f <= i,
        s[f] == s[i],
        is_first(s, f),
    decreases i,
{
    if is_first(s, i) {
        i
    } else {
        let k = choose|k: int| 0 <= k < i && s[k] == s[i];
        lemma_first_occurrence(s, k)
    }
}

proof fn lemma_removals_hold(b: Seq<Seq<char>>, c: Seq<Seq<char>>, k: int, n: int, code: Seq<char>, msgp: Seq<char>,
    msgs: Seq<char>, objp: Seq<char>, with_entry: bool, object: Seq<char>)
    requires
        0 <= k < n,
        has_error_on(set_removal(b, c, k, code, msgp, msgs, objp, with_entry), object),
    ensures
        has_error_on(set_removals(b, c, n, code, msgp, msgs, objp, with_entry), object),
    decreases n,
{
    let prev = set_removals(b, c, n - 1, code, msgp, msgs, objp, with_entry);
    let last = set_removal(b, c, n - 1, code, msgp, msgs, objp, with_entry);
    if k < n - 1 {
        lemma_removals_hold(b, c, k, n - 1, code, msgp, msgs, objp, with_entry, object);
    }
    lemma_error_in_concat(prev, last, object);
}

/// A dependency edge of the baseline plan that the candidate plan does not
/// have (as `from->to`) is a breaking change: the comparison reports an error
/// on `dependencyEdges` and the candidate is incompatible.
pub proof fn law_removing_dependency_edge_breaks(b: PipelinePlan, c: PipelinePlan, i: int)
    requires
        0 <= i < b.dependency_edges@.len(),
        forall|j: int| 0 <= j < c.dependency_edges@.len() ==> #[trigger] c.dependency_edges@[j].from@ + "->"@
            + c.dependency_edges@[j].to@ != b.dependency_edges@[i].from@ + "->"@ + b.dependency_edges@[i].to@,
    ensures
        has_error_on(plan_findings(b, c), "dependencyEdges"@),
        plan_category(b, c) == CompatibilityCategory::Incompatible,
{
    let d1 = dependency_texts(b);
    let d2 = dependency_texts(c);
    assert(!d2.contains(d1[i])) by {
        if d2.contains(d1[i]) {
            let j = choose|j: int| 0 <= j < d2.len() && d2[j] == d1[i];
            assert(d2[j] == c.dependency_edges@[j].from@ + "->"@ + c.dependency_edges@[j].to@);
        }
    }
    let f = lemma_first_occurrence(d1, i);
    let code = "DPCS-COMPAT-043"@;
    let msgp = "dependency edge `"@;
    let msgs = "` removed"@;
    let objp = "dependencyEdges"@;
    let one = set_removal(d1, d2, f, code, msgp, msgs, objp, false);
    assert(one[0].severity == Severity::Error && one[0].object_ref == Some(objp));
    assert(has_error_on(one, objp));
    lemma_removals_hold(d1, d2, f, d1.len() as int, code, msgp, msgs, objp, false, objp);
    let a = (if b.contract_id@ != c.contract_id@ {
        seq![warning_view("DPCS-COMPAT-040"@, "plan contract ids differ"@, "contractId"@)]
    } else {
        Seq::empty()
    })
    + set_removals(plan_step_texts(b), plan_step_texts(c), plan_step_texts(b).len() as int, "DPCS-COMPAT-041"@,
        "plan step `"@, "` removed"@, "steps."@, true)
    + set_additions(plan_step_texts(b), plan_step_texts(c), plan_step_texts(c).len() as int, "DPCS-COMPAT-042"@,
        "plan step `"@, "steps."@);
    let r = set_removals(d1, d2, d1.len() as int, code, msgp, msgs, objp, false);
    let z = if order_only_change(b, c) {
        seq![warning_view("DPCS-COMPAT-044"@, "stepOrder differs while step set and dependency edges remain equal"@, "stepOrder"@)]
    } else {
        Seq::empty()
    };
    assert(plan_findings(b, c) == a + r + z);
    lemma_error_in_concat(a, r, objp);
    lemma_error_in_concat(a + r, z, objp);
    lemma_error_breaks(plan_findings(b, c), objp);
}

} // verus!
