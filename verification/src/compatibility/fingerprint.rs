//! Order-insensitive fingerprints of contract sections.
//!
//! Two sections compare equal for compatibility purposes exactly when their
//! fingerprints are equal. Lists whose order carries no meaning (capabilities,
//! windows, criteria, ...) are fingerprinted as sets.
use vstd::prelude::*;

use crate::diagnostics::{opt_text, texts};
use crate::model::execution::{
    ExecutionEnvironment, ExecutionRequirements, ExternalDependency, ResourceRequirements,
    SchedulingConstraints, SchedulingEvent, SchedulingIntent, SchedulingMode,
};
use crate::model::failure::{FailureResponse, FailureScope, FailureSemantics, RecoverySemantics, RetrySemantics};
use crate::model::lineage::{DatasetLineage, PipelineLineage, PipelineProvenance, StepLineage};
use crate::model::quality_gate::{GateOutcome, GatePlacement, QualityCriterion, QualityGate};
use crate::text::{chars_of, push_str, str_eq, string_of, trim, trim_chars};

verus! {

/// A value with a comparable fingerprint.
pub trait Fingerprint: Sized {
    /// Model of the fingerprint.
    type F;

    /// The fingerprint of `self`.
    spec fn fingerprint(&self) -> Self::F;

    /// Whether two values have the same fingerprint.
    fn same_fingerprint(&self, other: &Self) -> (r: bool)
        ensures
            r == (self.fingerprint() == other.fingerprint()),
    ;
}

/// Fingerprints of a list, in order.
pub open spec fn fingerprints<T: Fingerprint>(s: Seq<T>) -> Seq<T::F> {
    s.map_values(|x: T| x.fingerprint())
}

/// The set of fingerprints of a list.
pub open spec fn fingerprint_set<T: Fingerprint>(s: Seq<T>) -> Set<T::F> {
    fingerprints(s).to_set()
}

/// Two sequences have the same elements exactly when each contains every
/// element of the other.
pub proof fn lemma_to_set_eq<A>(a: Seq<A>, b: Seq<A>)
    ensures
        (a.to_set() == b.to_set()) == ((forall|i: int| 0 <= i < a.len() ==> b.contains(#[trigger] a[i]))
            && (forall|j: int| 0 <= j < b.len() ==> a.contains(#[trigger] b[j]))),
{
    if (forall|i: int| 0 <= i < a.len() ==> b.contains(#[trigger] a[i]))
        && (forall|j: int| 0 <= j < b.len() ==> a.contains(#[trigger] b[j])) {
        assert forall|x: A| a.to_set().contains(x) <==> b.to_set().contains(x) by {
            if a.contains(x) {
                let i = choose|i: int| 0 <= i < a.len() && a[i] == x;
                assert(b.contains(a[i]));
            }
            if b.contains(x) {
                let j = choose|j: int| 0 <= j < b.len() && b[j] == x;
                assert(a.contains(b[j]));
            }
        }
        assert(a.to_set() =~= b.to_set());
    }
    if a.to_set() == b.to_set() {
        assert forall|i: int| 0 <= i < a.len() implies b.contains(#[trigger] a[i]) by {
            assert(a.to_set().contains(a[i]));
            assert(b.to_set().contains(a[i]));
        }
        assert forall|j: int| 0 <= j < b.len() implies a.contains(#[trigger] b[j]) by {
            assert(b.to_set().contains(b[j]));
            assert(a.to_set().contains(b[j]));
        }
    }
}

/// Whether some element of `v` has the fingerprint of `x`.
fn contains_fingerprint<T: Fingerprint>(v: &Vec<T>, x: &T) -> (r: bool)
    ensures
        r == fingerprints(v@).contains(x.fingerprint()),
{
    let mut i: usize = 0;
    while i < v.len()
        invariant
            i <= v@.len(),
            forall|k: int| 0 <= k < i ==> (#[trigger] v@[k]).fingerprint() != x.fingerprint(),
        decreases v.len() - i,
    {
        if v[i].same_fingerprint(x) {
            assert(fingerprints(v@)[i as int] == x.fingerprint());
            return true;
        }
        i += 1;
    }
    proof {
        if fingerprints(v@).contains(x.fingerprint()) {
            let k = choose|k: int| 0 <= k < fingerprints(v@).len() && fingerprints(v@)[k] == x.fingerprint();
            assert(v@[k].fingerprint() != x.fingerprint());
        }
    }
    false
}

/// Whether every fingerprint of `a` occurs in `b`.
fn fingerprints_within<T: Fingerprint>(a: &Vec<T>, b: &Vec<T>) -> (r: bool)
    ensures
        r == (forall|i: int| 0 <= i < a@.len() ==> fingerprints(b@).contains(#[trigger] fingerprints(a@)[i])),
{
    let mut i: usize = 0;
    while i < a.len()
        invariant
            i <= a@.len(),
            forall|k: int| 0 <= k < i ==> fingerprints(b@).contains(#[trigger] fingerprints(a@)[k]),
        decreases a.len() - i,
    {
        if !contains_fingerprint(b, &a[i]) {
            assert(!fingerprints(b@).contains(fingerprints(a@)[i as int]));
            return false;
        }
        i += 1;
    }
    true
}

/// Whether two lists have the same set of fingerprints.
pub fn same_fingerprint_set<T: Fingerprint>(a: &Vec<T>, b: &Vec<T>) -> (r: bool)
    ensures
        r == (fingerprint_set(a@) == fingerprint_set(b@)),
{
    proof { lemma_to_set_eq(fingerprints(a@), fingerprints(b@)); }
    fingerprints_within(a, b) && fingerprints_within(b, a)
}

impl Fingerprint for String {
    type F = Seq<char>;

    open spec fn fingerprint(&self) -> Seq<char> {
        self@
    }

    fn same_fingerprint(&self, other: &Self) -> (r: bool) {
        str_eq(self.as_str(), other.as_str())
    }
}

/// The set of texts of a list of strings.
pub open spec fn text_set(v: Seq<String>) -> Set<Seq<char>> {
    texts(v).to_set()
}

/// Whether two lists of strings hold the same set of texts.
pub fn same_text_set(a: &Vec<String>, b: &Vec<String>) -> (r: bool)
    ensures
        r == (text_set(a@) == text_set(b@)),
{
    assert(fingerprints(a@) =~= texts(a@));
    assert(fingerprints(b@) =~= texts(b@));
    same_fingerprint_set(a, b)
}

/// Whether two optional strings are equal.
pub fn same_opt(a: &Option<String>, b: &Option<String>) -> (r: bool)
    ensures
        r == (opt_text(*a) == opt_text(*b)),
{
    match (a, b) {
        (None, None) => true,
        (Some(x), Some(y)) => str_eq(x.as_str(), y.as_str()),
        _ => false,
    }
}


/// A string built from two texts joined by a separator.
fn joined(a: &str, sep: &str, b: &str) -> (r: String)
    ensures
        r@ == a@ + sep@ + b@,
{
    let mut out = String::new();
    push_str(&mut out, a);
    push_str(&mut out, sep);
    push_str(&mut out, b);
    assert(out@ =~= a@ + sep@ + b@);
    out
}

impl Fingerprint for ExternalDependency {
    type F = Seq<char>;

    /// `id:capability`.
    open spec fn fingerprint(&self) -> Seq<char> {
        self.id@ + ":"@ + self.capability@
    }

    fn same_fingerprint(&self, other: &Self) -> (r: bool) {
        let a = joined(self.id.as_str(), ":", self.capability.as_str());
        let b = joined(other.id.as_str(), ":", other.capability.as_str());
        str_eq(a.as_str(), b.as_str())
    }
}

/// Texts of a list of strings, each trimmed of surrounding white space.
pub open spec fn trimmed_texts(v: Seq<String>) -> Seq<Seq<char>> {
    texts(v).map_values(|s: Seq<char>| trim(s))
}

/// Copy of a list of strings with each entry trimmed.
fn trimmed_strings(v: &Vec<String>) -> (r: Vec<String>)
    ensures
        texts(r@) == trimmed_texts(v@),
{
    let mut out: Vec<String> = Vec::new();
    let mut i: usize = 0;
    while i < v.len()
        invariant
            i <= v@.len(),
            out@.len() == i,
            forall|k: int| 0 <= k < i ==> (#[trigger] out@[k])@ == trim(v@[k]@),
        decreases v.len() - i,
    {
        let t = trim_chars(&chars_of(v[i].as_str()));
        out.push(string_of(&t));
        i += 1;
    }
    assert(texts(out@) =~= trimmed_texts(v@));
    out
}

/// Fingerprint of resource requirements.
pub open spec fn resources_print(r: ResourceRequirements) -> Seq<Option<Seq<char>>> {
    seq![opt_text(r.processor), opt_text(r.memory), opt_text(r.storage), opt_text(r.accelerator), opt_text(r.bandwidth)]
}

/// Fingerprint of an execution environment.
pub struct EnvironmentPrint {
    pub operating_system: Option<Seq<char>>,
    pub runtime_dependencies: Set<Seq<char>>,
    pub software_capabilities: Set<Seq<char>>,
    pub container: Option<Seq<char>>,
}

pub open spec fn environment_print(e: ExecutionEnvironment) -> EnvironmentPrint {
    EnvironmentPrint {
        operating_system: opt_text(e.operating_system),
        runtime_dependencies: text_set(e.runtime_dependencies@),
        software_capabilities: text_set(e.software_capabilities@),
        container: opt_text(e.container),
    }
}

/// Fingerprint of execution requirements: capability identifiers (trimmed),
/// isolation, and dependencies as sets; resources and environment as values.
pub struct ExecutionPrint {
    pub capabilities: Set<Seq<char>>,
    pub isolation: Set<Seq<char>>,
    pub dependencies: Set<Seq<char>>,
    pub resources: Option<Seq<Option<Seq<char>>>>,
    pub environment: Option<EnvironmentPrint>,
}

fn same_resources(a: &Option<ResourceRequirements>, b: &Option<ResourceRequirements>) -> (r: bool)
    ensures
        r == (match (*a, *b) {
            (None, None) => true,
            (Some(x), Some(y)) => resources_print(x) == resources_print(y),
            _ => false,
        }),
{
    match (a, b) {
        (None, None) => true,
        (Some(x), Some(y)) => {
            let r = same_opt(&x.processor, &y.processor) && same_opt(&x.memory, &y.memory)
                && same_opt(&x.storage, &y.storage) && same_opt(&x.accelerator, &y.accelerator)
                && same_opt(&x.bandwidth, &y.bandwidth);
            proof {
                if !r {
                    let (px, py) = (resources_print(*x), resources_print(*y));
                    assert(px[0] != py[0] || px[1] != py[1] || px[2] != py[2] || px[3] != py[3] || px[4] != py[4]);
                }
            }
            r
        },
        _ => false,
    }
}

fn same_environment(a: &Option<ExecutionEnvironment>, b: &Option<ExecutionEnvironment>) -> (r: bool)
    ensures
        r == (match (*a, *b) {
            (None, None) => true,
            (Some(x), Some(y)) => environment_print(x) == environment_print(y),
            _ => false,
        }),
{
    match (a, b) {
        (None, None) => true,
        (Some(x), Some(y)) => {
            same_opt(&x.operating_system, &y.operating_system)
                && same_text_set(&x.runtime_dependencies, &y.runtime_dependencies)
                && same_text_set(&x.software_capabilities, &y.software_capabilities)
                && same_opt(&x.container, &y.container)
        },
        _ => false,
    }
}

impl Fingerprint for ExecutionRequirements {
    type F = ExecutionPrint;

    open spec fn fingerprint(&self) -> ExecutionPrint {
        ExecutionPrint {
            capabilities: trimmed_texts(self.required_capabilities@).to_set(),
            isolation: text_set(self.isolation@),
            dependencies: fingerprint_set(self.external_dependencies@),
            resources: match self.resources {
                Some(r) => Some(resources_print(r)),
                None => None,
            },
            environment: match self.environment {
                Some(e) => Some(environment_print(e)),
                None => None,
            },
        }
    }

    fn same_fingerprint(&self, other: &Self) -> (r: bool) {
        let caps_a = trimmed_strings(&self.required_capabilities);
        let caps_b = trimmed_strings(&other.required_capabilities);
        same_text_set(&caps_a, &caps_b)
            && same_text_set(&self.isolation, &other.isolation)
            && same_fingerprint_set(&self.external_dependencies, &other.external_dependencies)
            && same_resources(&self.resources, &other.resources)
            && same_environment(&self.environment, &other.environment)
    }
}

/// Distinguishing key of a scheduling mode (variant and extension name).
pub open spec fn mode_key(m: SchedulingMode) -> (int, Seq<char>) {
    match m {
        SchedulingMode::Scheduled => (0, Seq::empty()),
        SchedulingMode::EventDriven => (1, Seq::empty()),
        SchedulingMode::Manual => (2, Seq::empty()),
        SchedulingMode::Extension(v) => (3, v@),
    }
}

fn same_mode(a: &SchedulingMode, b: &SchedulingMode) -> (r: bool)
    ensures
        r == (mode_key(*a) == mode_key(*b)),
{
    match (a, b) {
        (SchedulingMode::Scheduled, SchedulingMode::Scheduled) => true,
        (SchedulingMode::EventDriven, SchedulingMode::EventDriven) => true,
        (SchedulingMode::Manual, SchedulingMode::Manual) => true,
        (SchedulingMode::Extension(x), SchedulingMode::Extension(y)) => str_eq(x.as_str(), y.as_str()),
        _ => false,
    }
}

impl Fingerprint for SchedulingEvent {
    type F = (Seq<char>, Option<Seq<char>>);

    /// `id|source` with the optional condition.
    open spec fn fingerprint(&self) -> (Seq<char>, Option<Seq<char>>) {
        (self.id@ + "|"@ + self.source@, opt_text(self.condition))
    }

    fn same_fingerprint(&self, other: &Self) -> (r: bool) {
        let a = joined(self.id.as_str(), "|", self.source.as_str());
        let b = joined(other.id.as_str(), "|", other.source.as_str());
        str_eq(a.as_str(), b.as_str()) && same_opt(&self.condition, &other.condition)
    }
}

/// Fingerprint of scheduling constraints.
pub open spec fn constraints_print(c: SchedulingConstraints) -> (Seq<Option<Seq<char>>>, Option<u64>) {
    (seq![opt_text(c.earliest), opt_text(c.latest), opt_text(c.deadline), opt_text(c.ordering)], c.concurrency)
}

fn same_constraints(a: &Option<SchedulingConstraints>, b: &Option<SchedulingConstraints>) -> (r: bool)
    ensures
        r == (match (*a, *b) {
            (None, None) => true,
            (Some(x), Some(y)) => constraints_print(x) == constraints_print(y),
            _ => false,
        }),
{
    match (a, b) {
        (None, None) => true,
        (Some(x), Some(y)) => {
            let r = same_opt(&x.earliest, &y.earliest) && same_opt(&x.latest, &y.latest)
                && same_opt(&x.deadline, &y.deadline) && same_opt(&x.ordering, &y.ordering)
                && x.concurrency == y.concurrency;
            proof {
                if !r {
                    let (px, py) = (constraints_print(*x).0, constraints_print(*y).0);
                    assert(px[0] != py[0] || px[1] != py[1] || px[2] != py[2] || px[3] != py[3]
                        || x.concurrency != y.concurrency);
                }
            }
            r
        },
        _ => false,
    }
}

/// Fingerprint of a scheduling intent.
pub struct IntentPrint {
    pub id: Option<Seq<char>>,
    pub mode: (int, Seq<char>),
    pub cron: Option<Seq<char>>,
    pub timezone: Option<Seq<char>>,
    pub frequency: Option<Seq<char>>,
    pub windows: Set<Seq<char>>,
    pub blackouts: Set<Seq<char>>,
    pub deadlines: Set<Seq<char>>,
    pub events: Set<(Seq<char>, Option<Seq<char>>)>,
    pub constraints: Option<(Seq<Option<Seq<char>>>, Option<u64>)>,
    pub policies: Set<Seq<char>>,
}

impl Fingerprint for SchedulingIntent {
    type F = IntentPrint;

    open spec fn fingerprint(&self) -> IntentPrint {
        IntentPrint {
            id: opt_text(self.id),
            mode: mode_key(self.mode),
            cron: opt_text(self.cron),
            timezone: opt_text(self.timezone),
            frequency: opt_text(self.frequency),
            windows: text_set(self.windows@),
            blackouts: text_set(self.blackouts@),
            deadlines: text_set(self.deadlines@),
            events: fingerprint_set(self.events@),
            constraints: match self.constraints {
                Some(c) => Some(constraints_print(c)),
                None => None,
            },
            policies: text_set(self.policies@),
        }
    }

    fn same_fingerprint(&self, other: &Self) -> (r: bool) {
        same_opt(&self.id, &other.id) && same_mode(&self.mode, &other.mode)
            && same_opt(&self.cron, &other.cron) && same_opt(&self.timezone, &other.timezone)
            && same_opt(&self.frequency, &other.frequency)
            && same_text_set(&self.windows, &other.windows)
            && same_text_set(&self.blackouts, &other.blackouts)
            && same_text_set(&self.deadlines, &other.deadlines)
            && same_fingerprint_set(&self.events, &other.events)
            && same_constraints(&self.constraints, &other.constraints)
            && same_text_set(&self.policies, &other.policies)
    }
}


/// Distinguishing key of a gate outcome (variant and extension name).
pub open spec fn outcome_key(o: GateOutcome) -> (int, Seq<char>) {
    match o {
        GateOutcome::Abort => (0, Seq::empty()),
        GateOutcome::Retry => (1, Seq::empty()),
        GateOutcome::AlternatePath => (2, Seq::empty()),
        GateOutcome::RequireApproval => (3, Seq::empty()),
        GateOutcome::EmitDiagnostics => (4, Seq::empty()),
        GateOutcome::Continue => (5, Seq::empty()),
        GateOutcome::Extension(v) => (6, v@),
    }
}

fn same_outcome(a: &GateOutcome, b: &GateOutcome) -> (r: bool)
    ensures
        r == (outcome_key(*a) == outcome_key(*b)),
{
    match (a, b) {
        (GateOutcome::Abort, GateOutcome::Abort) => true,
        (GateOutcome::Retry, GateOutcome::Retry) => true,
        (GateOutcome::AlternatePath, GateOutcome::AlternatePath) => true,
        (GateOutcome::RequireApproval, GateOutcome::RequireApproval) => true,
        (GateOutcome::EmitDiagnostics, GateOutcome::EmitDiagnostics) => true,
        (GateOutcome::Continue, GateOutcome::Continue) => true,
        (GateOutcome::Extension(x), GateOutcome::Extension(y)) => str_eq(x.as_str(), y.as_str()),
        _ => false,
    }
}

impl Fingerprint for QualityCriterion {
    type F = Seq<Option<Seq<char>>>;

    open spec fn fingerprint(&self) -> Seq<Option<Seq<char>>> {
        seq![opt_text(self.id), opt_text(self.criterion_type), opt_text(self.contract_ref), opt_text(self.expression)]
    }

    fn same_fingerprint(&self, other: &Self) -> (r: bool) {
        let r = same_opt(&self.id, &other.id) && same_opt(&self.criterion_type, &other.criterion_type)
            && same_opt(&self.contract_ref, &other.contract_ref) && same_opt(&self.expression, &other.expression);
        proof {
            if !r {
                let (a, b) = (self.fingerprint(), other.fingerprint());
                assert(a[0] != b[0] || a[1] != b[1] || a[2] != b[2] || a[3] != b[3]);
            }
        }
        r
    }
}

/// Fingerprint of a gate placement.
pub open spec fn placement_print(p: Option<GatePlacement>) -> Option<(Seq<char>, Option<Seq<char>>)> {
    match p {
        Some(x) => Some((x.kind@, opt_text(x.step_id))),
        None => None,
    }
}

fn same_placement(a: &Option<GatePlacement>, b: &Option<GatePlacement>) -> (r: bool)
    ensures
        r == (placement_print(*a) == placement_print(*b)),
{
    match (a, b) {
        (None, None) => true,
        (Some(x), Some(y)) => str_eq(x.kind.as_str(), y.kind.as_str()) && same_opt(&x.step_id, &y.step_id),
        _ => false,
    }
}

/// Fingerprint of a quality gate: `id|purpose`, outcomes, category,
/// placement, and the set of criteria.
pub struct GatePrint {
    pub head: Seq<char>,
    pub on_success: (int, Seq<char>),
    pub on_failure: (int, Seq<char>),
    pub category: Option<Seq<char>>,
    pub placement: Option<(Seq<char>, Option<Seq<char>>)>,
    pub criteria: Set<Seq<Option<Seq<char>>>>,
}

impl Fingerprint for QualityGate {
    type F = GatePrint;

    open spec fn fingerprint(&self) -> GatePrint {
        GatePrint {
            head: self.id@ + "|"@ + self.purpose@,
            on_success: outcome_key(self.on_success),
            on_failure: outcome_key(self.on_failure),
            category: opt_text(self.category),
            placement: placement_print(self.placement),
            criteria: fingerprint_set(self.criteria@),
        }
    }

    fn same_fingerprint(&self, other: &Self) -> (r: bool) {
        let a = joined(self.id.as_str(), "|", self.purpose.as_str());
        let b = joined(other.id.as_str(), "|", other.purpose.as_str());
        str_eq(a.as_str(), b.as_str()) && same_outcome(&self.on_success, &other.on_success)
            && same_outcome(&self.on_failure, &other.on_failure)
            && same_opt(&self.category, &other.category)
            && same_placement(&self.placement, &other.placement)
            && same_fingerprint_set(&self.criteria, &other.criteria)
    }
}

/// Wire-form labels of failure responses.
pub open spec fn response_labels(v: Seq<FailureResponse>) -> Seq<Seq<char>> {
    v.map_values(|x: FailureResponse| x.label())
}

fn response_strings(v: &Vec<FailureResponse>) -> (r: Vec<String>)
    ensures
        texts(r@) == response_labels(v@),
{
    let mut out: Vec<String> = Vec::new();
    let mut i: usize = 0;
    while i < v.len()
        invariant
            i <= v@.len(),
            out@.len() == i,
            forall|k: int| 0 <= k < i ==> (#[trigger] out@[k])@ == v@[k].label(),
        decreases v.len() - i,
    {
        out.push(String::from_str(v[i].as_str()));
        i += 1;
    }
    assert(texts(out@) =~= response_labels(v@));
    out
}

/// Fingerprint of a failure scope.
pub open spec fn scope_print(s: FailureScope) -> (Seq<char>, Option<Seq<char>>, Option<Seq<char>>) {
    (s.kind@, opt_text(s.step_id), opt_text(s.path))
}

/// Fingerprint of retry semantics.
pub open spec fn retry_print(r: Option<RetrySemantics>) -> Option<(Option<bool>, Option<u32>, Seq<Option<Seq<char>>>)> {
    match r {
        Some(x) => Some((x.eligible, x.max_attempts, seq![opt_text(x.conditions), opt_text(x.delay_policy), opt_text(x.termination)])),
        None => None,
    }
}

/// Fingerprint of recovery semantics.
pub open spec fn recovery_print(r: Option<RecoverySemantics>) -> Option<Seq<Option<Seq<char>>>> {
    match r {
        Some(x) => Some(seq![opt_text(x.restart), opt_text(x.resume), opt_text(x.rollback), opt_text(x.checkpoint), opt_text(x.state_restoration)]),
        None => None,
    }
}

fn same_retry(a: &Option<RetrySemantics>, b: &Option<RetrySemantics>) -> (r: bool)
    ensures
        r == (retry_print(*a) == retry_print(*b)),
{
    match (a, b) {
        (None, None) => true,
        (Some(x), Some(y)) => {
            let r = x.eligible == y.eligible && x.max_attempts == y.max_attempts
                && same_opt(&x.conditions, &y.conditions) && same_opt(&x.delay_policy, &y.delay_policy)
                && same_opt(&x.termination, &y.termination);
            proof {
                if !r {
                    let (p, q) = (retry_print(*a).unwrap().2, retry_print(*b).unwrap().2);
                    assert(x.eligible != y.eligible || x.max_attempts != y.max_attempts || p[0] != q[0] || p[1] != q[1] || p[2] != q[2]);
                }
            }
            r
        },
        _ => false,
    }
}

fn same_recovery(a: &Option<RecoverySemantics>, b: &Option<RecoverySemantics>) -> (r: bool)
    ensures
        r == (recovery_print(*a) == recovery_print(*b)),
{
    match (a, b) {
        (None, None) => true,
        (Some(x), Some(y)) => {
            let r = same_opt(&x.restart, &y.restart) && same_opt(&x.resume, &y.resume)
                && same_opt(&x.rollback, &y.rollback) && same_opt(&x.checkpoint, &y.checkpoint)
                && same_opt(&x.state_restoration, &y.state_restoration);
            proof {
                if !r {
                    let (p, q) = (recovery_print(*a).unwrap(), recovery_print(*b).unwrap());
                    assert(p[0] != q[0] || p[1] != q[1] || p[2] != q[2] || p[3] != q[3] || p[4] != q[4]);
                }
            }
            r
        },
        _ => false,
    }
}

/// Fingerprint of failure semantics.
pub struct FailurePrint {
    pub id: Seq<char>,
    pub scope: (Seq<char>, Option<Seq<char>>, Option<Seq<char>>),
    pub triggers: Set<Seq<char>>,
    pub responses: Set<Seq<char>>,
    pub category: Option<Seq<char>>,
    pub retry: Option<(Option<bool>, Option<u32>, Seq<Option<Seq<char>>>)>,
    pub compensation: Option<Seq<char>>,
    pub recovery: Option<Seq<Option<Seq<char>>>>,
}

impl Fingerprint for FailureSemantics {
    type F = FailurePrint;

    open spec fn fingerprint(&self) -> FailurePrint {
        FailurePrint {
            id: self.id@,
            scope: scope_print(self.scope),
            triggers: text_set(self.triggers@),
            responses: response_labels(self.responses@).to_set(),
            category: opt_text(self.category),
            retry: retry_print(self.retry),
            compensation: opt_text(self.compensation),
            recovery: recovery_print(self.recovery),
        }
    }

    fn same_fingerprint(&self, other: &Self) -> (r: bool) {
        let ra = response_strings(&self.responses);
        let rb = response_strings(&other.responses);
        str_eq(self.id.as_str(), other.id.as_str())
            && str_eq(self.scope.kind.as_str(), other.scope.kind.as_str())
            && same_opt(&self.scope.step_id, &other.scope.step_id)
            && same_opt(&self.scope.path, &other.scope.path)
            && same_text_set(&self.triggers, &other.triggers)
            && same_text_set(&ra, &rb)
            && same_opt(&self.category, &other.category)
            && same_retry(&self.retry, &other.retry)
            && same_opt(&self.compensation, &other.compensation)
            && same_recovery(&self.recovery, &other.recovery)
    }
}

impl Fingerprint for DatasetLineage {
    type F = (Seq<char>, Option<Seq<char>>, Set<Seq<char>>, Option<Seq<char>>, Option<Seq<char>>);

    open spec fn fingerprint(&self) -> Self::F {
        (self.dataset@, opt_text(self.produced_by), text_set(self.consumed_by@), opt_text(self.contract_ref), opt_text(self.transform_ref))
    }

    fn same_fingerprint(&self, other: &Self) -> (r: bool) {
        str_eq(self.dataset.as_str(), other.dataset.as_str())
            && same_opt(&self.produced_by, &other.produced_by)
            && same_text_set(&self.consumed_by, &other.consumed_by)
            && same_opt(&self.contract_ref, &other.contract_ref)
            && same_opt(&self.transform_ref, &other.transform_ref)
    }
}

impl Fingerprint for StepLineage {
    type F = (Seq<char>, Set<Seq<char>>, Set<Seq<char>>, Option<Seq<char>>, Option<Seq<char>>);

    open spec fn fingerprint(&self) -> Self::F {
        (self.step_id@, text_set(self.predecessors@), text_set(self.successors@), opt_text(self.dependency_kind), opt_text(self.contract_ref))
    }

    fn same_fingerprint(&self, other: &Self) -> (r: bool) {
        str_eq(self.step_id.as_str(), other.step_id.as_str())
            && same_text_set(&self.predecessors, &other.predecessors)
            && same_text_set(&self.successors, &other.successors)
            && same_opt(&self.dependency_kind, &other.dependency_kind)
            && same_opt(&self.contract_ref, &other.contract_ref)
    }
}

/// Fingerprint of provenance: originating pipeline and the sets of parents,
/// nested, imported, and version history entries.
pub open spec fn provenance_print(p: Option<PipelineProvenance>) -> Option<(Option<Seq<char>>, Seq<Set<Seq<char>>>)> {
    match p {
        Some(x) => Some((opt_text(x.originating), seq![text_set(x.parents@), text_set(x.nested@), text_set(x.imported@), text_set(x.version_history@)])),
        None => None,
    }
}

fn same_provenance(a: &Option<PipelineProvenance>, b: &Option<PipelineProvenance>) -> (r: bool)
    ensures
        r == (provenance_print(*a) == provenance_print(*b)),
{
    match (a, b) {
        (None, None) => true,
        (Some(x), Some(y)) => {
            let r = same_opt(&x.originating, &y.originating) && same_text_set(&x.parents, &y.parents)
                && same_text_set(&x.nested, &y.nested) && same_text_set(&x.imported, &y.imported)
                && same_text_set(&x.version_history, &y.version_history);
            proof {
                if !r {
                    let (p, q) = (provenance_print(*a).unwrap().1, provenance_print(*b).unwrap().1);
                    assert(opt_text(x.originating) != opt_text(y.originating) || p[0] != q[0] || p[1] != q[1] || p[2] != q[2] || p[3] != q[3]);
                }
            }
            r
        },
        _ => false,
    }
}

impl Fingerprint for PipelineLineage {
    type F = (Set<<DatasetLineage as Fingerprint>::F>, Set<<StepLineage as Fingerprint>::F>, Option<(Option<Seq<char>>, Seq<Set<Seq<char>>>)>);

    /// Datasets and step lineage as sets, with provenance; audit entries and
    /// extensions are not part of the fingerprint.
    open spec fn fingerprint(&self) -> Self::F {
        (fingerprint_set(self.datasets@), fingerprint_set(self.steps@), provenance_print(self.provenance))
    }

    fn same_fingerprint(&self, other: &Self) -> (r: bool) {
        same_fingerprint_set(&self.datasets, &other.datasets)
            && same_fingerprint_set(&self.steps, &other.steps)
            && same_provenance(&self.provenance, &other.provenance)
    }
}

} // verus!
