//! Shared pieces of the orchestrator scaffolds: looking up steps and the
//! unique names assigned to identifiers.
use vstd::prelude::*;

use super::common::{step_contract_text, with_extras, PlanView};
use super::names::NameMap;
use crate::model::step::PipelineStep;
use crate::plan::PipelinePlan;

verus! {

/// Index of the first step with identifier `id` before `n`.
pub open spec fn first_step(steps: Seq<PipelineStep>, id: Seq<char>, n: int) -> Option<int>
    decreases n,
{
    if n <= 0 {
        None
    } else {
        match first_step(steps, id, n - 1) {
            Some(i) => Some(i),
            None => if steps[n - 1].id@ == id { Some(n - 1) } else { None },
        }
    }
}

/// Type of the step named `id` (`unknown` when no step has that id).
pub open spec fn step_type_of(p: PipelinePlan, id: Seq<char>) -> Seq<char> {
    match first_step(p.steps@, id, p.steps@.len() as int) {
        Some(i) => p.steps@[i].step_type@,
        None => "unknown"@,
    }
}

/// Contract shown for the step named `id` (`-` when no step has that id).
pub open spec fn step_ref_of(p: PipelinePlan, id: Seq<char>) -> Seq<char> {
    match first_step(p.steps@, id, p.steps@.len() as int) {
        Some(i) => step_contract_text(p.steps@[i]),
        None => "-"@,
    }
}

/// Index of the last key equal to `id` before `n`.
pub open spec fn last_key(keys: Seq<Seq<char>>, id: Seq<char>, n: int) -> Option<int>
    decreases n,
{
    if n <= 0 {
        None
    } else if keys[n - 1] == id {
        Some(n - 1)
    } else {
        last_key(keys, id, n - 1)
    }
}

/// Name assigned to `id` (its last assignment).
pub open spec fn name_for(keys: Seq<Seq<char>>, names: Seq<Seq<char>>, id: Seq<char>) -> Seq<char> {
    match last_key(keys, id, keys.len() as int) {
        Some(i) => names[i],
        None => Seq::empty(),
    }
}

proof fn lemma_last_key(keys: Seq<Seq<char>>, id: Seq<char>, i: int, n: int)
    requires
        0 <= i < n <= keys.len(),
        keys[i] == id,
        forall|k: int| i < k < n ==> keys[k] != id,
    ensures
        last_key(keys, id, n) == Some(i),
    decreases n,
{
    if n - 1 > i {
        lemma_last_key(keys, id, i, n - 1);
    }
}

proof fn lemma_no_key(keys: Seq<Seq<char>>, id: Seq<char>, n: int)
    requires
        0 <= n <= keys.len(),
        forall|k: int| 0 <= k < n ==> keys[k] != id,
    ensures
        last_key(keys, id, n) is None,
    decreases n,
{
    if n > 0 {
        lemma_no_key(keys, id, n - 1);
    }
}

proof fn lemma_first_step(steps: Seq<PipelineStep>, id: Seq<char>, i: int, n: int)
    requires
        0 <= i < n <= steps.len(),
        steps[i].id@ == id,
        forall|k: int| 0 <= k < i ==> (#[trigger] steps[k]).id@ != id,
    ensures
        first_step(steps, id, n) == Some(i),
    decreases n,
{
    if n - 1 > i {
        lemma_first_step(steps, id, i, n - 1);
    } else {
        lemma_no_step(steps, id, i);
    }
}

proof fn lemma_no_step(steps: Seq<PipelineStep>, id: Seq<char>, n: int)
    requires
        0 <= n <= steps.len(),
        forall|k: int| 0 <= k < n ==> (#[trigger] steps[k]).id@ != id,
    ensures
        first_step(steps, id, n) is None,
    decreases n,
{
    if n > 0 {
        lemma_no_step(steps, id, n - 1);
    }
}

/// Name of `id` in `names`, which must name it.
pub fn name_of(names: &NameMap, id: &str) -> (r: String)
    requires
        names.keys().contains(id@),
    ensures
        r@ == name_for(names.keys(), names.names(), id@),
{
    match names.get(id) {
        Some(n) => {
            proof {
                let i = choose|i: int| 0 <= i < names.entries@.len() && names.keys()[i] == id@ && n@ == names.names()[i]
                    && forall|k: int| i < k < names.entries@.len() ==> names.keys()[k] != id@;
                lemma_last_key(names.keys(), id@, i, names.entries@.len() as int);
            }
            n.clone()
        },
        None => {
            proof {
                let k = choose|k: int| 0 <= k < names.keys().len() && names.keys()[k] == id@;
                assert(names.keys()[k] != id@);
            }
            String::new()
        },
    }
}

pub fn step_facts(view: &PlanView, id: &str) -> (r: (String, String))
    ensures
        r.0@ == step_type_of(*view.plan, id@),
        r.1@ == step_ref_of(*view.plan, id@),
{
    match view.step(id) {
        Some(s) => {
            proof {
                let i = choose|i: int| 0 <= i < view.plan.steps@.len() && view.plan.steps@[i] == *s
                    && s.id@ == id@ && forall|k: int| 0 <= k < i ==> (#[trigger] view.plan.steps@[k]).id@ != id@;
                lemma_first_step(view.plan.steps@, id@, i, view.plan.steps@.len() as int);
            }
            let r = match &s.contract_ref {
                Some(c) => c.clone(),
                None => match &s.transform_ref {
                    Some(t) => t.clone(),
                    None => String::from_str("-"),
                },
            };
            proof { reveal_strlit("-"); }
            (s.step_type.clone(), r)
        },
        None => {
            proof {
                lemma_no_step(view.plan.steps@, id@, view.plan.steps@.len() as int);
                reveal_strlit("unknown");
                reveal_strlit("-");
            }
            (String::from_str("unknown"), String::from_str("-"))
        },
    }
}

pub proof fn lemma_with_extras_contains(ids: Seq<Seq<char>>, extras: Seq<Seq<char>>, k: int)
    requires
        0 <= k < extras.len(),
    ensures
        with_extras(ids, extras).contains(extras[k]),
    decreases extras.len(),
{
    let prev = with_extras(ids, extras.drop_last());
    if k < extras.len() - 1 {
        lemma_with_extras_contains(ids, extras.drop_last(), k);
        assert(prev.contains(extras[k]));
        if !prev.contains(extras.last()) {
            let j = choose|j: int| 0 <= j < prev.len() && prev[j] == extras[k];
            assert(prev.push(extras.last())[j] == extras[k]);
        }
    } else {
        if !prev.contains(extras.last()) {
            assert(prev.push(extras.last())[prev.len() as int] == extras.last());
        }
    }
}

pub proof fn lemma_with_extras_keeps(ids: Seq<Seq<char>>, extras: Seq<Seq<char>>, k: int)
    requires
        0 <= k < ids.len(),
    ensures
        with_extras(ids, extras).contains(ids[k]),
    decreases extras.len(),
{
    if extras.len() > 0 {
        lemma_with_extras_keeps(ids, extras.drop_last(), k);
        let prev = with_extras(ids, extras.drop_last());
        if !prev.contains(extras.last()) {
            let j = choose|j: int| 0 <= j < prev.len() && prev[j] == ids[k];
            assert(prev.push(extras.last())[j] == ids[k]);
        }
    } else {
        assert(with_extras(ids, extras)[k] == ids[k]);
    }
}

} // verus!
