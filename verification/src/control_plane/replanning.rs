//! Global coordination-plan replanning.
//!
//! Replanning decides whether an existing global coordination plan remains
//! valid when a new set of coordination requirements is proposed. A
//! coordination snapshot holds each dependency at most once; two snapshots
//! are equal when they hold the same dependencies, whatever the order in
//! which those arrived. A new plan version is required exactly when the
//! proposed snapshot differs from the current one, which is exactly when
//! the delta between them adds or removes a dependency.

use vstd::prelude::*;
use crate::seq_facts::{
    lemma_filter_empty, lemma_filter_no_duplicates, lemma_filter_take_step, lemma_take_full,
};
use super::dependency::{Dependency, DependencyView};

verus! {

/// The abstract values of a list of dependencies.
pub open spec fn dependency_views(deps: Seq<Dependency>) -> Seq<DependencyView> {
    deps.map_values(|d: Dependency| d@)
}

/// The dependencies of a sequence, each kept once, in order of first
/// arrival.
pub open spec fn distinct_in_order(s: Seq<DependencyView>) -> Seq<DependencyView>
    decreases s.len(),
{
    if s.len() == 0 {
        Seq::empty()
    } else {
        let front = distinct_in_order(s.drop_last());
        if front.contains(s.last()) {
            front
        } else {
            front.push(s.last())
        }
    }
}

/// Two dependency collections have equal sizes and the first is contained
/// in the second.
pub open spec fn same_dependencies(a: Seq<DependencyView>, b: Seq<DependencyView>) -> bool {
    &&& a.len() == b.len()
    &&& forall|i: int| 0 <= i < a.len() ==> b.contains(#[trigger] a[i])
}

/// The dependencies of `b` that `a` does not hold, in `b`'s order.
pub open spec fn missing_from(a: Seq<DependencyView>, b: Seq<DependencyView>) -> Seq<
    DependencyView,
> {
    b.filter(|d: DependencyView| !a.contains(d))
}

/// Immutable global coordination snapshot used for replanning comparison.
#[derive(Debug)]
pub struct CoordinationSnapshot {
    dependencies: Vec<Dependency>,
}

impl View for CoordinationSnapshot {
    type V = Seq<DependencyView>;

    closed spec fn view(&self) -> Seq<DependencyView> {
        dependency_views(self.dependencies@)
    }
}

impl CoordinationSnapshot {
    #[verifier::type_invariant]
    spec fn holds_each_once(self) -> bool {
        dependency_views(self.dependencies@).no_duplicates()
    }
}

impl Clone for CoordinationSnapshot {
    fn clone(&self) -> (r: Self)
        ensures
            r@ == self@,
    {
        proof {
            use_type_invariant(self);
        }
        CoordinationSnapshot { dependencies: copy_dependencies(&self.dependencies) }
    }
}

impl Default for CoordinationSnapshot {
    fn default() -> (r: Self)
        ensures
            r@ == Seq::<DependencyView>::empty(),
    {
        CoordinationSnapshot::new()
    }
}

impl PartialEq for CoordinationSnapshot {
    fn eq(&self, other: &Self) -> (r: bool) {
        self.same_as(other)
    }
}

impl Eq for CoordinationSnapshot {}

impl vstd::std_specs::cmp::PartialEqSpecImpl for CoordinationSnapshot {
    open spec fn obeys_eq_spec() -> bool {
        true
    }

    open spec fn eq_spec(&self, other: &Self) -> bool {
        same_dependencies(self@, other@)
    }
}

/// A copy of a list of dependencies.
fn copy_dependencies(deps: &Vec<Dependency>) -> (r: Vec<Dependency>)
    ensures
        dependency_views(r@) == dependency_views(deps@),
{
    let mut out: Vec<Dependency> = Vec::new();
    let mut k: usize = 0;
    while k < deps.len()
        invariant
            k <= deps@.len(),
            dependency_views(out@) == dependency_views(deps@).take(k as int),
        decreases deps@.len() - k,
    {
        let c = deps[k].clone();
        assert(c@ == deps@[k as int]@);
        let ghost old_out = dependency_views(out@);
        out.push(c);
        assert(dependency_views(out@) =~= old_out.push(c@));
        k = k + 1;
        proof {
            assert(dependency_views(out@) =~= dependency_views(deps@).take(k as int));
        }
    }
    proof {
        assert(dependency_views(deps@).take(k as int) =~= dependency_views(deps@));
    }
    out
}

/// Whether a list of dependencies holds the given dependency.
fn holds(deps: &Vec<Dependency>, dependency: &Dependency) -> (r: bool)
    ensures
        r == dependency_views(deps@).contains(dependency@),
{
    let mut k: usize = 0;
    while k < deps.len()
        invariant
            k <= deps@.len(),
            forall|j: int| 0 <= j < k ==> (#[trigger] deps@[j])@ != dependency@,
        decreases deps@.len() - k,
    {
        if deps[k].same_as(dependency) {
            proof {
                assert(dependency_views(deps@)[k as int] == dependency@);
            }
            return true;
        }
        k = k + 1;
    }
    proof {
        if dependency_views(deps@).contains(dependency@) {
            let j = choose|j: int|
                0 <= j < dependency_views(deps@).len() && dependency_views(deps@)[j] == dependency@;
            assert(deps@[j]@ == dependency@);
        }
    }
    false
}

/// The dependencies of `b` that `a` does not hold, in `b`'s order.
fn missing(a: &Vec<Dependency>, b: &Vec<Dependency>) -> (r: Vec<Dependency>)
    ensures
        dependency_views(r@) == missing_from(dependency_views(a@), dependency_views(b@)),
{
    let ghost p = |d: DependencyView| !dependency_views(a@).contains(d);
    let ghost bs = dependency_views(b@);
    let mut out: Vec<Dependency> = Vec::new();
    let mut k: usize = 0;
    proof {
        assert(bs.take(0).filter(p) =~= Seq::<DependencyView>::empty()) by {
            reveal(Seq::filter);
        }
    }
    while k < b.len()
        invariant
            k <= b@.len(),
            bs == dependency_views(b@),
            p == (|d: DependencyView| !dependency_views(a@).contains(d)),
            dependency_views(out@) == bs.take(k as int).filter(p),
        decreases b@.len() - k,
    {
        let held = holds(a, &b[k]);
        proof {
            lemma_filter_take_step(bs, p, k as int);
        }
        if !held {
            out.push(b[k].clone());
        }
        proof {
            assert(dependency_views(out@) =~= bs.take(k + 1).filter(p));
        }
        k = k + 1;
    }
    proof {
        lemma_take_full(bs);
    }
    out
}

/// Each dependency of a sequence is held by its first-arrival selection,
/// which holds nothing else and nothing twice.
pub proof fn lemma_distinct_in_order(s: Seq<DependencyView>)
    ensures
        distinct_in_order(s).no_duplicates(),
        forall|d: DependencyView| distinct_in_order(s).contains(d) <==> s.contains(d),
    decreases s.len(),
{
    if s.len() > 0 {
        let front = s.drop_last();
        lemma_distinct_in_order(front);
        assert forall|d: DependencyView| s.contains(d) <==> front.contains(d) || d == s.last() by {
            if s.contains(d) {
                let i = choose|i: int| 0 <= i < s.len() && s[i] == d;
                if i < s.len() - 1 {
                    assert(front[i] == d);
                }
            }
            if front.contains(d) {
                let i = choose|i: int| 0 <= i < front.len() && front[i] == d;
                assert(s[i] == d);
            }
            if d == s.last() {
                assert(s[s.len() - 1] == d);
            }
        }
        let f = distinct_in_order(front);
        if !f.contains(s.last()) {
            assert forall|d: DependencyView| f.push(s.last()).contains(d) <==> f.contains(d) || d
                == s.last() by {
                if f.push(s.last()).contains(d) {
                    let i = choose|i: int| 0 <= i < f.push(s.last()).len() && f.push(s.last())[i] == d;
                    if i < f.len() {
                        assert(f[i] == d);
                    }
                }
                if f.contains(d) {
                    let i = choose|i: int| 0 <= i < f.len() && f[i] == d;
                    assert(f.push(s.last())[i] == d);
                }
                if d == s.last() {
                    assert(f.push(s.last())[f.len() as int] == d);
                }
            }
            assert forall|i: int, j: int|
                0 <= i < f.push(s.last()).len() && 0 <= j < f.push(s.last()).len() && i != j
                implies f.push(s.last())[i] != f.push(s.last())[j] by {
                if i == f.len() {
                    assert(f.contains(f.push(s.last())[j]));
                } else if j == f.len() {
                    assert(f.contains(f.push(s.last())[i]));
                }
            }
        }
    }
}

impl CoordinationSnapshot {
    /// Creates an empty coordination snapshot.
    pub fn new() -> (r: CoordinationSnapshot)
        ensures
            r@ == Seq::<DependencyView>::empty(),
    {
        let r = CoordinationSnapshot { dependencies: Vec::new() };
        proof {
            assert(r@ =~= Seq::<DependencyView>::empty());
        }
        r
    }

    /// Creates a snapshot from coordination dependencies, keeping the first
    /// arrival of each dependency.
    pub fn from_dependencies(dependencies: Vec<Dependency>) -> (r: CoordinationSnapshot)
        ensures
            r@ == distinct_in_order(dependency_views(dependencies@)),
            r@.no_duplicates(),
    {
        let ghost s = dependency_views(dependencies@);
        let mut normalized: Vec<Dependency> = Vec::new();
        let mut k: usize = 0;
        proof {
            assert(dependency_views(normalized@) =~= distinct_in_order(s.take(0)));
        }
        while k < dependencies.len()
            invariant
                k <= dependencies@.len(),
                s == dependency_views(dependencies@),
                dependency_views(normalized@) == distinct_in_order(s.take(k as int)),
            decreases dependencies@.len() - k,
        {
            let held = holds(&normalized, &dependencies[k]);
            if !held {
                normalized.push(dependencies[k].clone());
            }
            proof {
                let next = s.take(k + 1);
                assert(next.drop_last() =~= s.take(k as int));
                assert(next.last() == dependencies@[k as int]@);
                assert(dependency_views(normalized@) =~= distinct_in_order(next));
            }
            k = k + 1;
        }
        proof {
            lemma_take_full(s);
            lemma_distinct_in_order(s);
        }
        CoordinationSnapshot { dependencies: normalized }
    }

    /// Returns the de-duplicated coordination dependencies.
    pub fn dependencies(&self) -> (r: &[Dependency])
        ensures
            dependency_views(r@) == self@,
    {
        self.dependencies.as_slice()
    }

    /// Returns the number of distinct coordination dependencies.
    pub fn len(&self) -> (r: usize)
        ensures
            r == self@.len(),
    {
        self.dependencies.len()
    }

    /// Returns whether the snapshot contains no coordination dependencies.
    pub fn is_empty(&self) -> (r: bool)
        ensures
            r == (self@.len() == 0),
    {
        self.dependencies.len() == 0
    }

    /// Returns whether this snapshot contains the supplied dependency.
    pub fn contains(&self, dependency: &Dependency) -> (r: bool)
        ensures
            r == self@.contains(dependency@),
    {
        holds(&self.dependencies, dependency)
    }

    /// Whether both snapshots hold the same dependencies.
    pub fn same_as(&self, other: &CoordinationSnapshot) -> (r: bool)
        ensures
            r == same_dependencies(self@, other@),
    {
        if self.dependencies.len() != other.dependencies.len() {
            return false;
        }
        let mut k: usize = 0;
        while k < self.dependencies.len()
            invariant
                k <= self@.len(),
                forall|i: int| 0 <= i < k ==> other@.contains(#[trigger] self@[i]),
            decreases self@.len() - k,
        {
            proof {
                assert(self@[k as int] == self.dependencies@[k as int]@);
            }
            if !holds(&other.dependencies, &self.dependencies[k]) {
                return false;
            }
            k = k + 1;
        }
        true
    }

    /// Returns a new snapshot holding this snapshot's dependencies plus one.
    pub fn with_dependency(&self, dependency: Dependency) -> (r: CoordinationSnapshot)
        ensures
            r@ == (if self@.contains(dependency@) {
                self@
            } else {
                self@.push(dependency@)
            }),
            r@.no_duplicates(),
    {
        proof {
            use_type_invariant(self);
        }
        let mut dependencies = copy_dependencies(&self.dependencies);
        if !holds(&dependencies, &dependency) {
            let ghost before = dependency_views(dependencies@);
            dependencies.push(dependency);
            proof {
                assert(dependency_views(dependencies@) =~= before.push(dependency@));
                assert forall|i: int, j: int|
                    0 <= i < before.push(dependency@).len() && 0 <= j < before.push(
                        dependency@,
                    ).len() && i != j implies before.push(dependency@)[i] != before.push(
                    dependency@,
                )[j] by {
                    if i == before.len() {
                        assert(before.contains(before.push(dependency@)[j]));
                    } else if j == before.len() {
                        assert(before.contains(before.push(dependency@)[i]));
                    }
                }
            }
        }
        CoordinationSnapshot { dependencies }
    }

    /// Returns a new snapshot holding this snapshot's dependencies except
    /// the supplied one.
    pub fn without_dependency(&self, dependency: &Dependency) -> (r: CoordinationSnapshot)
        ensures
            r@ == self@.filter(|d: DependencyView| d != dependency@),
            r@.no_duplicates(),
    {
        proof {
            use_type_invariant(self);
        }
        let ghost p = |d: DependencyView| d != dependency@;
        let ghost s = self@;
        let mut dependencies: Vec<Dependency> = Vec::new();
        let mut k: usize = 0;
        proof {
            assert(s.take(0).filter(p) =~= Seq::<DependencyView>::empty()) by {
                reveal(Seq::filter);
            }
        }
        while k < self.dependencies.len()
            invariant
                k <= s.len(),
                s == self@,
                p == (|d: DependencyView| d != dependency@),
                dependency_views(dependencies@) == s.take(k as int).filter(p),
            decreases s.len() - k,
        {
            proof {
                lemma_filter_take_step(s, p, k as int);
                assert(self@[k as int] == self.dependencies@[k as int]@);
            }
            if !self.dependencies[k].same_as(dependency) {
                dependencies.push(self.dependencies[k].clone());
            }
            proof {
                assert(dependency_views(dependencies@) =~= s.take(k + 1).filter(p));
            }
            k = k + 1;
        }
        proof {
            lemma_take_full(s);
            lemma_filter_no_duplicates(s, p);
        }
        CoordinationSnapshot { dependencies }
    }

    /// Returns the dependencies that exist in `other` but not in `self`.
    pub fn added_dependencies(&self, other: &CoordinationSnapshot) -> (r: Vec<Dependency>)
        ensures
            dependency_views(r@) == missing_from(self@, other@),
    {
        missing(&self.dependencies, &other.dependencies)
    }

    /// Returns the dependencies that exist in `self` but not in `other`.
    pub fn removed_dependencies(&self, other: &CoordinationSnapshot) -> (r: Vec<Dependency>)
        ensures
            dependency_views(r@) == missing_from(other@, self@),
    {
        missing(&other.dependencies, &self.dependencies)
    }
}

/// Input supplied to the replanning evaluator.
#[derive(Debug)]
pub struct ReplanningInput<'a> {
    current: &'a CoordinationSnapshot,
    proposed: &'a CoordinationSnapshot,
}

impl<'a> ReplanningInput<'a> {
    /// Creates replanning input from the current and proposed snapshots.
    pub fn new(current: &'a CoordinationSnapshot, proposed: &'a CoordinationSnapshot) -> (r:
        ReplanningInput<'a>)
        ensures
            r.current()@ == current@,
            r.proposed()@ == proposed@,
    {
        ReplanningInput { current, proposed }
    }

    /// Returns the current global coordination snapshot.
    #[verifier::when_used_as_spec(spec_current)]
    pub fn current(&self) -> (r: &'a CoordinationSnapshot)
        ensures
            r == self.spec_current(),
    {
        self.current
    }

    /// Returns the proposed global coordination snapshot.
    #[verifier::when_used_as_spec(spec_proposed)]
    pub fn proposed(&self) -> (r: &'a CoordinationSnapshot)
        ensures
            r == self.spec_proposed(),
    {
        self.proposed
    }

    pub closed spec fn spec_current(&self) -> &'a CoordinationSnapshot {
        self.current
    }

    pub closed spec fn spec_proposed(&self) -> &'a CoordinationSnapshot {
        self.proposed
    }
}

/// The reason a new global plan version is required.
#[derive(Clone, Copy, Debug, PartialEq, Eq, Structural)]
pub enum ReplanningReason {
    /// The globally relevant coordination dependency set changed.
    CoordinationRequirementsChanged,
}

impl ReplanningReason {
    /// Human-readable description of the reason.
    pub fn to_string(&self) -> (r: String)
        ensures
            r@ == "global coordination requirements changed"@,
    {
        "global coordination requirements changed".to_string()
    }
}

/// Result of evaluating whether the current global coordination plan
/// remains valid.
#[derive(Clone, Copy, Debug, PartialEq, Eq, Structural)]
pub enum ReplanningDecision {
    /// The proposed state holds the same dependencies as the current one.
    NotRequired,
    /// The proposed state differs and needs a new plan version.
    Required(ReplanningReason),
}

impl ReplanningDecision {
    /// Returns whether a new plan version is required.
    pub fn is_required(self) -> (r: bool)
        ensures
            r == (self is Required),
    {
        match self {
            ReplanningDecision::NotRequired => false,
            ReplanningDecision::Required(_) => true,
        }
    }

    /// Returns the replanning reason when replanning is required.
    pub fn reason(self) -> (r: Option<ReplanningReason>)
        ensures
            r == (match self {
                ReplanningDecision::NotRequired => None,
                ReplanningDecision::Required(reason) => Some(reason),
            }),
    {
        match self {
            ReplanningDecision::NotRequired => None,
            ReplanningDecision::Required(reason) => Some(reason),
        }
    }
}

/// The decision for a current and a proposed coordination state.
pub open spec fn replanning_decision(
    current: Seq<DependencyView>,
    proposed: Seq<DependencyView>,
) -> ReplanningDecision {
    if same_dependencies(current, proposed) {
        ReplanningDecision::NotRequired
    } else {
        ReplanningDecision::Required(ReplanningReason::CoordinationRequirementsChanged)
    }
}

/// Stateless evaluator for global coordination-plan changes.
#[derive(Clone, Copy, Debug, PartialEq, Eq, Structural)]
pub struct Replanner;

impl Default for Replanner {
    fn default() -> (r: Replanner)
        ensures
            r == Replanner,
    {
        Replanner
    }
}

impl Replanner {
    /// Creates a stateless replanner.
    pub fn new() -> (r: Replanner)
        ensures
            r == Replanner,
    {
        Replanner
    }

    /// Determines whether the proposed global coordination state requires a
    /// new plan version.
    pub fn evaluate(&self, input: ReplanningInput<'_>) -> (r: ReplanningDecision)
        ensures
            r == replanning_decision(input.current()@, input.proposed()@),
    {
        if input.current().same_as(input.proposed()) {
            ReplanningDecision::NotRequired
        } else {
            ReplanningDecision::Required(ReplanningReason::CoordinationRequirementsChanged)
        }
    }

    /// Evaluates two snapshots without instantiating a `Replanner`.
    pub fn evaluate_snapshots(current: &CoordinationSnapshot, proposed: &CoordinationSnapshot) -> (r:
        ReplanningDecision)
        ensures
            r == replanning_decision(current@, proposed@),
    {
        Replanner::new().evaluate(ReplanningInput::new(current, proposed))
    }
}

/// Abstract value of a replanning delta.
pub struct ReplanningDeltaView {
    pub added: Seq<DependencyView>,
    pub removed: Seq<DependencyView>,
}

/// The concrete coordination difference between two snapshots.
#[derive(Debug, PartialEq, Eq)]
pub struct ReplanningDelta {
    added: Vec<Dependency>,
    removed: Vec<Dependency>,
}

impl View for ReplanningDelta {
    type V = ReplanningDeltaView;

    closed spec fn view(&self) -> ReplanningDeltaView {
        ReplanningDeltaView {
            added: dependency_views(self.added@),
            removed: dependency_views(self.removed@),
        }
    }
}

impl Clone for ReplanningDelta {
    fn clone(&self) -> (r: Self)
        ensures
            r@ == self@,
    {
        ReplanningDelta {
            added: copy_dependencies(&self.added),
            removed: copy_dependencies(&self.removed),
        }
    }
}

impl ReplanningDelta {
    /// Computes the difference between two coordination snapshots.
    pub fn between(current: &CoordinationSnapshot, proposed: &CoordinationSnapshot) -> (r:
        ReplanningDelta)
        ensures
            r@ == (ReplanningDeltaView {
                added: missing_from(current@, proposed@),
                removed: missing_from(proposed@, current@),
            }),
    {
        ReplanningDelta {
            added: current.added_dependencies(proposed),
            removed: current.removed_dependencies(proposed),
        }
    }

    /// Returns dependencies introduced by the proposed coordination state.
    pub fn added(&self) -> (r: &[Dependency])
        ensures
            dependency_views(r@) == self@.added,
    {
        self.added.as_slice()
    }

    /// Returns dependencies removed from the current coordination state.
    pub fn removed(&self) -> (r: &[Dependency])
        ensures
            dependency_views(r@) == self@.removed,
    {
        self.removed.as_slice()
    }

    /// Returns whether the coordination state changed.
    pub fn is_changed(&self) -> (r: bool)
        ensures
            r == (self@.added.len() > 0 || self@.removed.len() > 0),
    {
        self.added.len() > 0 || self.removed.len() > 0
    }

    /// Returns the number of added dependencies.
    pub fn added_count(&self) -> (r: usize)
        ensures
            r == self@.added.len(),
    {
        self.added.len()
    }

    /// Returns the number of removed dependencies.
    pub fn removed_count(&self) -> (r: usize)
        ensures
            r == self@.removed.len(),
    {
        self.removed.len()
    }
}

/// Snapshot equality is set equality. Two snapshots are equal exactly
/// when they hold the same dependencies, whatever their order.
pub proof fn lemma_snapshot_equality_is_set_equality(a: Seq<DependencyView>, b: Seq<DependencyView>)
    requires
        a.no_duplicates(),
        b.no_duplicates(),
    ensures
        same_dependencies(a, b) <==> a.to_set() == b.to_set(),
{
    a.unique_seq_to_set();
    b.unique_seq_to_set();
    if same_dependencies(a, b) {
        assert(a.to_set().subset_of(b.to_set())) by {
            assert forall|d: DependencyView| a.to_set().contains(d) implies b.to_set().contains(d) by {
                let i = choose|i: int| 0 <= i < a.len() && a[i] == d;
                assert(b.contains(a[i]));
            }
        }
        vstd::set_lib::lemma_subset_equality(a.to_set(), b.to_set());
    }
    if a.to_set() == b.to_set() {
        assert forall|i: int| 0 <= i < a.len() implies b.contains(#[trigger] a[i]) by {
            assert(a.to_set().contains(a[i]));
        }
    }
}

/// A new plan version is required exactly when the delta between the
/// current and the proposed snapshot adds or removes a dependency.
pub proof fn lemma_replanning_required_iff_delta_changed(
    current: Seq<DependencyView>,
    proposed: Seq<DependencyView>,
)
    requires
        current.no_duplicates(),
        proposed.no_duplicates(),
    ensures
        (replanning_decision(current, proposed) is Required) <==> (missing_from(
            current,
            proposed,
        ).len() > 0 || missing_from(proposed, current).len() > 0),
{
    lemma_snapshot_equality_is_set_equality(current, proposed);
    let pa = |d: DependencyView| !current.contains(d);
    let pr = |d: DependencyView| !proposed.contains(d);
    lemma_filter_empty(proposed, pa);
    lemma_filter_empty(current, pr);
    if current.to_set() != proposed.to_set() {
        if missing_from(current, proposed).len() == 0 && missing_from(proposed, current).len() == 0 {
            assert(current.to_set() =~= proposed.to_set()) by {
                assert forall|d: DependencyView| current.to_set().contains(d) <==> proposed.to_set().contains(d) by {
                    if current.contains(d) {
                        let i = choose|i: int| 0 <= i < current.len() && current[i] == d;
                        assert(!pr(current[i]));
                    }
                    if proposed.contains(d) {
                        let i = choose|i: int| 0 <= i < proposed.len() && proposed[i] == d;
                        assert(!pa(proposed[i]));
                    }
                }
            }
        }
    } else {
        assert forall|i: int| 0 <= i < proposed.len() implies !pa(#[trigger] proposed[i]) by {
            assert(proposed.to_set().contains(proposed[i]));
        }
        assert forall|i: int| 0 <= i < current.len() implies !pr(#[trigger] current[i]) by {
            assert(current.to_set().contains(current[i]));
        }
    }
}

/// The arrival order and repetition of requirements never change a
/// snapshot. Snapshots built from two lists holding the same dependencies
/// are equal, so no replanning is required between them.
pub proof fn lemma_arrival_order_irrelevant(s: Seq<DependencyView>, t: Seq<DependencyView>)
    requires
        forall|d: DependencyView| s.contains(d) <==> t.contains(d),
    ensures
        same_dependencies(distinct_in_order(s), distinct_in_order(t)),
        replanning_decision(distinct_in_order(s), distinct_in_order(t))
            == ReplanningDecision::NotRequired,
{
    lemma_distinct_in_order(s);
    lemma_distinct_in_order(t);
    let a = distinct_in_order(s);
    let b = distinct_in_order(t);
    assert(a.to_set() =~= b.to_set()) by {
        assert forall|d: DependencyView| a.to_set().contains(d) <==> b.to_set().contains(d) by {
            assert(a.contains(d) <==> s.contains(d));
            assert(s.contains(d) <==> t.contains(d));
            assert(t.contains(d) <==> b.contains(d));
            assert(a.to_set().contains(d) <==> a.contains(d));
            assert(b.to_set().contains(d) <==> b.contains(d));
        }
    }
    lemma_snapshot_equality_is_set_equality(a, b);
}

} // verus!
