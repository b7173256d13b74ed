//! Deterministic routing-policy evaluation for the Control Plane.
//!
//! Policy selects one destination among candidates that have already passed
//! destination eligibility. It never discovers destinations, never mutates
//! membership and never introduces randomness: the same candidates,
//! constraints, policy and inputs always select the same instance.
//!
//! A hard destination is a requirement, never a preference: when it is not
//! among the candidates, evaluation fails instead of choosing another one.

use vstd::prelude::*;
use vstd::relations::{sorted_by, total_ordering};
use crate::identity::EngineInstanceId;
use crate::text::{
    decimal, decimal_text, lemma_seq_lt_asymmetric, lemma_seq_lt_irreflexive, lemma_seq_lt_total,
    seq_lt,
};
use crate::seq_facts::{id_leq, lemma_id_leq_total_ordering, lemma_insert_to_multiset};

verus! {

/// Strategy used to select one destination from an already-eligible set.
#[derive(Clone, Copy, Debug, PartialEq, Eq, Structural)]
pub enum RoutingStrategy {
    /// The first candidate in identity order.
    Deterministic,
    /// Candidates in identity order, cycled by a caller-supplied offset.
    RoundRobin,
    /// The highest weighted score for a caller-supplied selection key.
    Weighted,
    /// The lowest reported load; unknown load ranks after every known load.
    CapacityAware,
    /// Candidates in the requested locality first, then identity order.
    LocalityAware,
}

/// Abstract value of a destination constraint.
pub enum DestinationConstraintView {
    Unconstrained,
    Preference(Seq<char>),
    Hard(Seq<char>),
}

/// Explicit destination semantics supplied to the routing-policy layer.
#[derive(Debug, PartialEq, Eq)]
pub enum DestinationConstraint {
    /// No explicit destination constraint.
    Unconstrained,
    /// Prefer this concrete instance when it is eligible.
    Preference(EngineInstanceId),
    /// Require this concrete instance.
    Hard(EngineInstanceId),
}

impl View for DestinationConstraint {
    type V = DestinationConstraintView;

    open spec fn view(&self) -> DestinationConstraintView {
        match self {
            DestinationConstraint::Unconstrained => DestinationConstraintView::Unconstrained,
            DestinationConstraint::Preference(d) => DestinationConstraintView::Preference(d@),
            DestinationConstraint::Hard(d) => DestinationConstraintView::Hard(d@),
        }
    }
}

impl Clone for DestinationConstraint {
    fn clone(&self) -> (r: Self)
        ensures
            r@ == self@,
    {
        match self {
            DestinationConstraint::Unconstrained => DestinationConstraint::Unconstrained,
            DestinationConstraint::Preference(d) => DestinationConstraint::Preference(d.clone()),
            DestinationConstraint::Hard(d) => DestinationConstraint::Hard(d.clone()),
        }
    }
}

impl Default for DestinationConstraint {
    fn default() -> (r: Self)
        ensures
            r@ == DestinationConstraintView::Unconstrained,
    {
        DestinationConstraint::Unconstrained
    }
}

/// Abstract value of routing constraints.
pub struct RoutingConstraintsView {
    pub destination: DestinationConstraintView,
    pub preferred_locality: Option<Seq<char>>,
}

/// Routing constraints that affect policy selection.
#[derive(Debug, PartialEq, Eq)]
pub struct RoutingConstraints {
    destination: DestinationConstraint,
    preferred_locality: Option<String>,
}

impl View for RoutingConstraints {
    type V = RoutingConstraintsView;

    closed spec fn view(&self) -> RoutingConstraintsView {
        RoutingConstraintsView {
            destination: self.destination@,
            preferred_locality: match self.preferred_locality {
                Some(l) => Some(l@),
                None => None,
            },
        }
    }
}

impl Clone for RoutingConstraints {
    fn clone(&self) -> (r: Self)
        ensures
            r@ == self@,
    {
        let preferred_locality = match &self.preferred_locality {
            Some(l) => Some(l.clone()),
            None => None,
        };
        RoutingConstraints { destination: self.destination.clone(), preferred_locality }
    }
}

impl Default for RoutingConstraints {
    fn default() -> (r: Self)
        ensures
            r@ == (RoutingConstraintsView {
                destination: DestinationConstraintView::Unconstrained,
                preferred_locality: None,
            }),
    {
        RoutingConstraints::new()
    }
}

impl RoutingConstraints {
    /// Creates unconstrained routing input.
    pub fn new() -> (r: RoutingConstraints)
        ensures
            r@ == (RoutingConstraintsView {
                destination: DestinationConstraintView::Unconstrained,
                preferred_locality: None,
            }),
    {
        RoutingConstraints { destination: DestinationConstraint::Unconstrained, preferred_locality: None }
    }

    /// Returns the constraints requiring a concrete destination.
    pub fn with_hard_destination(self, destination: EngineInstanceId) -> (r: RoutingConstraints)
        ensures
            r@ == (RoutingConstraintsView {
                destination: DestinationConstraintView::Hard(destination@),
                ..self@
            }),
    {
        RoutingConstraints {
            destination: DestinationConstraint::Hard(destination),
            preferred_locality: self.preferred_locality,
        }
    }

    /// Returns the constraints preferring a concrete destination.
    pub fn with_preferred_destination(self, destination: EngineInstanceId) -> (r:
        RoutingConstraints)
        ensures
            r@ == (RoutingConstraintsView {
                destination: DestinationConstraintView::Preference(destination@),
                ..self@
            }),
    {
        RoutingConstraints {
            destination: DestinationConstraint::Preference(destination),
            preferred_locality: self.preferred_locality,
        }
    }

    /// Returns the constraints preferring a locality.
    pub fn with_preferred_locality(self, locality: &str) -> (r: RoutingConstraints)
        ensures
            r@ == (RoutingConstraintsView { preferred_locality: Some(locality@), ..self@ }),
    {
        RoutingConstraints {
            destination: self.destination,
            preferred_locality: Some(locality.to_owned()),
        }
    }

    /// Returns the explicit destination constraint.
    pub fn destination(&self) -> (r: &DestinationConstraint)
        ensures
            r@ == self@.destination,
    {
        &self.destination
    }

    /// Returns the preferred locality, if one was supplied.
    pub fn preferred_locality(&self) -> (r: Option<&str>)
        ensures
            match r {
                Some(l) => self@.preferred_locality == Some(l@),
                None => self@.preferred_locality is None,
            },
    {
        match &self.preferred_locality {
            Some(l) => Some(l.as_str()),
            None => None,
        }
    }
}

/// Abstract value of a routing candidate.
pub struct RoutingCandidateView {
    pub instance_id: Seq<char>,
    pub weight: u32,
    pub load_percent: Option<u8>,
    pub locality: Option<Seq<char>>,
}

/// Metadata consumed by routing policy when selecting an eligible instance.
#[derive(Debug, PartialEq, Eq)]
pub struct RoutingCandidate {
    instance_id: EngineInstanceId,
    weight: u32,
    load_percent: Option<u8>,
    locality: Option<String>,
}

impl View for RoutingCandidate {
    type V = RoutingCandidateView;

    closed spec fn view(&self) -> RoutingCandidateView {
        RoutingCandidateView {
            instance_id: self.instance_id@,
            weight: self.weight,
            load_percent: self.load_percent,
            locality: match self.locality {
                Some(l) => Some(l@),
                None => None,
            },
        }
    }
}

impl Clone for RoutingCandidate {
    fn clone(&self) -> (r: Self)
        ensures
            r@ == self@,
    {
        let locality = match &self.locality {
            Some(l) => Some(l.clone()),
            None => None,
        };
        RoutingCandidate {
            instance_id: self.instance_id.clone(),
            weight: self.weight,
            load_percent: self.load_percent,
            locality,
        }
    }
}

impl RoutingCandidate {
    /// Creates a candidate with the default routing weight of one.
    pub fn new(instance_id: EngineInstanceId) -> (r: RoutingCandidate)
        ensures
            r@ == (RoutingCandidateView {
                instance_id: instance_id@,
                weight: 1,
                load_percent: None,
                locality: None,
            }),
    {
        RoutingCandidate { instance_id, weight: 1, load_percent: None, locality: None }
    }

    /// Sets the candidate's routing weight; zero is permitted.
    pub fn with_weight(self, weight: u32) -> (r: RoutingCandidate)
        ensures
            r@ == (RoutingCandidateView { weight, ..self@ }),
    {
        RoutingCandidate { weight, ..self }
    }

    /// Sets the candidate's observed load percentage.
    pub fn with_load_percent(self, load_percent: u8) -> (r: RoutingCandidate)
        ensures
            r@ == (RoutingCandidateView { load_percent: Some(load_percent), ..self@ }),
    {
        RoutingCandidate { load_percent: Some(load_percent), ..self }
    }

    /// Sets the candidate's routing locality.
    pub fn with_locality(self, locality: &str) -> (r: RoutingCandidate)
        ensures
            r@ == (RoutingCandidateView { locality: Some(locality@), ..self@ }),
    {
        RoutingCandidate { locality: Some(locality.to_owned()), ..self }
    }

    /// Returns the concrete engine instance identity.
    pub fn instance_id(&self) -> (r: &EngineInstanceId)
        ensures
            r@ == self@.instance_id,
    {
        &self.instance_id
    }

    /// Returns the configured routing weight.
    pub fn weight(&self) -> (r: u32)
        ensures
            r == self@.weight,
    {
        self.weight
    }

    /// Returns the observed load percentage.
    pub fn load_percent(&self) -> (r: Option<u8>)
        ensures
            r == self@.load_percent,
    {
        self.load_percent
    }

    /// Returns the routing locality.
    pub fn locality(&self) -> (r: Option<&str>)
        ensures
            match r {
                Some(l) => self@.locality == Some(l@),
                None => self@.locality is None,
            },
    {
        match &self.locality {
            Some(l) => Some(l.as_str()),
            None => None,
        }
    }
}

/// The abstract values of a candidate slice.
pub open spec fn candidate_views(cs: Seq<RoutingCandidate>) -> Seq<RoutingCandidateView> {
    cs.map_values(|c: RoutingCandidate| c@)
}

/// Abstract value of one policy evaluation's inputs.
pub struct PolicyInputView {
    pub candidates: Seq<RoutingCandidateView>,
    pub constraints: RoutingConstraintsView,
    pub round_robin_offset: usize,
    pub selection_key: Option<u64>,
}

/// Inputs used for one policy evaluation: a candidate snapshot, routing
/// constraints, and the caller-owned round-robin offset and selection key.
#[derive(Debug)]
pub struct PolicyInput<'a> {
    candidates: &'a [RoutingCandidate],
    constraints: &'a RoutingConstraints,
    round_robin_offset: usize,
    selection_key: Option<u64>,
}

impl<'a> View for PolicyInput<'a> {
    type V = PolicyInputView;

    closed spec fn view(&self) -> PolicyInputView {
        PolicyInputView {
            candidates: candidate_views(self.candidates@),
            constraints: self.constraints@,
            round_robin_offset: self.round_robin_offset,
            selection_key: self.selection_key,
        }
    }
}

impl<'a> PolicyInput<'a> {
    /// Creates policy input with offset zero and no selection key.
    pub fn new(candidates: &'a [RoutingCandidate], constraints: &'a RoutingConstraints) -> (r:
        PolicyInput<'a>)
        ensures
            r@ == (PolicyInputView {
                candidates: candidate_views(candidates@),
                constraints: constraints@,
                round_robin_offset: 0,
                selection_key: None,
            }),
    {
        PolicyInput { candidates, constraints, round_robin_offset: 0, selection_key: None }
    }

    /// Supplies the current externally-owned round-robin offset.
    pub fn with_round_robin_offset(self, offset: usize) -> (r: PolicyInput<'a>)
        ensures
            r@ == (PolicyInputView { round_robin_offset: offset, ..self@ }),
    {
        PolicyInput { round_robin_offset: offset, ..self }
    }

    /// Supplies a stable selection key for weighted selection.
    pub fn with_selection_key(self, selection_key: u64) -> (r: PolicyInput<'a>)
        ensures
            r@ == (PolicyInputView { selection_key: Some(selection_key), ..self@ }),
    {
        PolicyInput { selection_key: Some(selection_key), ..self }
    }

    /// Returns the eligible candidates supplied to this evaluation.
    pub fn candidates(&self) -> (r: &[RoutingCandidate])
        ensures
            candidate_views(r@) == self@.candidates,
    {
        self.candidates
    }

    /// Returns the routing constraints.
    pub fn constraints(&self) -> (r: &RoutingConstraints)
        ensures
            r@ == self@.constraints,
    {
        self.constraints
    }

    /// Returns the supplied round-robin offset.
    pub fn round_robin_offset(&self) -> (r: usize)
        ensures
            r == self@.round_robin_offset,
    {
        self.round_robin_offset
    }

    /// Returns the stable weighted-selection key, if supplied.
    pub fn selection_key(&self) -> (r: Option<u64>)
        ensures
            r == self@.selection_key,
    {
        self.selection_key
    }
}

/// The result of successful policy selection.
#[derive(Debug, PartialEq, Eq)]
pub struct PolicySelection {
    instance_id: EngineInstanceId,
}

impl View for PolicySelection {
    type V = Seq<char>;

    closed spec fn view(&self) -> Seq<char> {
        self.instance_id@
    }
}

impl Clone for PolicySelection {
    fn clone(&self) -> (r: Self)
        ensures
            r@ == self@,
    {
        PolicySelection { instance_id: self.instance_id.clone() }
    }
}

impl PolicySelection {
    fn new(instance_id: EngineInstanceId) -> (r: PolicySelection)
        ensures
            r@ == instance_id@,
    {
        PolicySelection { instance_id }
    }

    /// Returns the selected concrete engine instance.
    pub fn instance_id(&self) -> (r: &EngineInstanceId)
        ensures
            r@ == self@,
    {
        &self.instance_id
    }

    /// Consumes the selection and returns the selected instance identity.
    pub fn into_instance_id(self) -> (r: EngineInstanceId)
        ensures
            r@ == self@,
    {
        self.instance_id
    }
}

/// Abstract value of a policy error.
pub enum PolicyErrorView {
    EmptyCandidateSet,
    HardDestinationUnavailable(Seq<char>),
    MissingSelectionKey,
    NoPositiveWeight,
    InvalidLoad { instance_id: Seq<char>, load_percent: u8 },
}

/// Errors produced by routing-policy evaluation.
#[derive(Clone, Debug, PartialEq, Eq)]
pub enum PolicyError {
    /// Policy evaluation requires at least one already-eligible candidate.
    EmptyCandidateSet,
    /// A hard destination was not among the eligible candidates.
    HardDestinationUnavailable(EngineInstanceId),
    /// Weighted selection was requested without a stable selection key.
    MissingSelectionKey,
    /// Every candidate has zero weight.
    NoPositiveWeight,
    /// A candidate reported a load percentage above one hundred.
    InvalidLoad { instance_id: EngineInstanceId, load_percent: u8 },
}

impl View for PolicyError {
    type V = PolicyErrorView;

    open spec fn view(&self) -> PolicyErrorView {
        match self {
            PolicyError::EmptyCandidateSet => PolicyErrorView::EmptyCandidateSet,
            PolicyError::HardDestinationUnavailable(d) => PolicyErrorView::HardDestinationUnavailable(
                d@,
            ),
            PolicyError::MissingSelectionKey => PolicyErrorView::MissingSelectionKey,
            PolicyError::NoPositiveWeight => PolicyErrorView::NoPositiveWeight,
            PolicyError::InvalidLoad { instance_id, load_percent } => PolicyErrorView::InvalidLoad {
                instance_id: instance_id@,
                load_percent: *load_percent,
            },
        }
    }
}

/// The human-readable description of a policy error.
pub open spec fn policy_error_text(e: PolicyErrorView) -> Seq<char> {
    match e {
        PolicyErrorView::EmptyCandidateSet => "routing policy received no eligible candidates"@,
        PolicyErrorView::HardDestinationUnavailable(id) => "hard routing destination is not among the eligible candidates: "@
            + id,
        PolicyErrorView::MissingSelectionKey => "weighted routing requires a stable selection key"@,
        PolicyErrorView::NoPositiveWeight => "weighted routing has no candidate with a positive weight"@,
        PolicyErrorView::InvalidLoad { instance_id, load_percent } => "routing candidate "@
            + instance_id + " has invalid load percentage "@ + decimal(load_percent as nat),
    }
}

impl PolicyError {
    /// Human-readable description of the error.
    pub fn to_string(&self) -> (r: String)
        ensures
            r@ == policy_error_text(self@),
    {
        match self {
            PolicyError::EmptyCandidateSet => "routing policy received no eligible candidates".to_string(),
            PolicyError::HardDestinationUnavailable(instance_id) => {
                let text = "hard routing destination is not among the eligible candidates: ".to_string();
                text.concat(instance_id.as_str())
            },
            PolicyError::MissingSelectionKey => "weighted routing requires a stable selection key".to_string(),
            PolicyError::NoPositiveWeight => "weighted routing has no candidate with a positive weight".to_string(),
            PolicyError::InvalidLoad { instance_id, load_percent } => {
                let text = "routing candidate ".to_string();
                let text = text.concat(instance_id.as_str());
                let text = text.concat(" has invalid load percentage ");
                let number = decimal_text(*load_percent as u64);
                text.concat(number.as_str())
            },
        }
    }
}

/// The abstract outcome of a policy evaluation.
pub open spec fn selection_outcome(r: Result<PolicySelection, PolicyError>) -> Result<
    Seq<char>,
    PolicyErrorView,
> {
    match r {
        Ok(s) => Ok(s@),
        Err(e) => Err(e@),
    }
}

/// A load percentage is valid when it is absent or at most one hundred.
pub open spec fn load_valid(c: RoutingCandidateView) -> bool {
    match c.load_percent {
        Some(l) => l <= 100,
        None => true,
    }
}

/// Every candidate's load is valid.
pub open spec fn loads_valid(cs: Seq<RoutingCandidateView>) -> bool {
    forall|j: int| 0 <= j < cs.len() ==> load_valid(#[trigger] cs[j])
}

/// `k` is the position of the first candidate with an invalid load.
pub open spec fn first_invalid_load(cs: Seq<RoutingCandidateView>, k: int) -> bool {
    &&& 0 <= k < cs.len()
    &&& !load_valid(cs[k])
    &&& forall|j: int| 0 <= j < k ==> load_valid(#[trigger] cs[j])
}

/// The error reported for the first candidate with an invalid load.
pub open spec fn invalid_load_error(cs: Seq<RoutingCandidateView>) -> PolicyErrorView {
    let k = choose|k: int| first_invalid_load(cs, k);
    PolicyErrorView::InvalidLoad {
        instance_id: cs[k].instance_id,
        load_percent: cs[k].load_percent.unwrap(),
    }
}

/// Some candidate carries the given instance identity.
pub open spec fn contains_instance(cs: Seq<RoutingCandidateView>, id: Seq<char>) -> bool {
    exists|i: int| 0 <= i < cs.len() && (#[trigger] cs[i]).instance_id == id
}

/// Order of candidates by a rank and then by instance identity.
pub open spec fn ranked_before(r1: int, a: Seq<char>, r2: int, b: Seq<char>) -> bool {
    r1 < r2 || (r1 == r2 && seq_lt(a, b))
}

/// `i` is a candidate that no other candidate ranks before.
pub open spec fn is_least(
    cs: Seq<RoutingCandidateView>,
    rank: spec_fn(RoutingCandidateView) -> int,
    i: int,
) -> bool {
    &&& 0 <= i < cs.len()
    &&& forall|j: int|
        0 <= j < cs.len() ==> !ranked_before(
            rank(#[trigger] cs[j]),
            cs[j].instance_id,
            rank(cs[i]),
            cs[i].instance_id,
        )
}

/// The instance of the least candidate under a rank.
pub open spec fn least_instance(
    cs: Seq<RoutingCandidateView>,
    rank: spec_fn(RoutingCandidateView) -> int,
) -> Seq<char> {
    cs[choose|i: int| is_least(cs, rank, i)].instance_id
}

/// Every candidate has the same rank: identity order alone decides.
pub open spec fn identity_rank() -> spec_fn(RoutingCandidateView) -> int {
    |c: RoutingCandidateView| 0int
}

/// Known loads rank by value; unknown load ranks after every known load.
pub open spec fn load_rank(load: Option<u8>) -> int {
    match load {
        Some(l) => l as int,
        None => 256,
    }
}

/// Rank of a candidate under capacity-aware selection.
pub open spec fn capacity_rank() -> spec_fn(RoutingCandidateView) -> int {
    |c: RoutingCandidateView| load_rank(c.load_percent)
}

/// Rank of a locality: the preferred one first, another next, none last.
pub open spec fn locality_rank_of(locality: Option<Seq<char>>, preferred: Seq<char>) -> int {
    match locality {
        Some(l) => if l == preferred {
            0
        } else {
            1
        },
        None => 2,
    }
}

/// Rank of a candidate under locality-aware selection.
pub open spec fn locality_rank(preferred: Seq<char>) -> spec_fn(RoutingCandidateView) -> int {
    |c: RoutingCandidateView| locality_rank_of(c.locality, preferred)
}

/// The instance identities of the candidates, in candidate order.
pub open spec fn instance_ids(cs: Seq<RoutingCandidateView>) -> Seq<Seq<char>> {
    cs.map_values(|c: RoutingCandidateView| c.instance_id)
}

/// The round-robin choice: the identities in identity order, indexed by the
/// offset modulo the number of candidates.
pub open spec fn round_robin_instance(cs: Seq<RoutingCandidateView>, offset: usize) -> Seq<char> {
    instance_ids(cs).sort_by(id_leq())[offset as int % cs.len() as int]
}

/// Offset basis of the 64-bit FNV-1a hash.
pub const FNV_OFFSET_BASIS: u64 = 0xcbf29ce484222325;

/// Prime of the 64-bit FNV-1a hash.
pub const FNV_PRIME: u64 = 0x100000001b3;

/// The 64-bit FNV-1a hash of a byte sequence.
pub open spec fn fnv1a(bytes: Seq<u8>) -> u64
    decreases bytes.len(),
{
    if bytes.len() == 0 {
        FNV_OFFSET_BASIS
    } else {
        (fnv1a(bytes.drop_last()) ^ (bytes.last() as u64)).wrapping_mul(FNV_PRIME)
    }
}

/// The big-endian bytes of a selection key.
pub open spec fn key_bytes(key: u64) -> Seq<u8> {
    seq![
        (key >> 56u64) as u8,
        (key >> 48u64) as u8,
        (key >> 40u64) as u8,
        (key >> 32u64) as u8,
        (key >> 24u64) as u8,
        (key >> 16u64) as u8,
        (key >> 8u64) as u8,
        key as u8,
    ]
}

/// The stable hash of a selection key and an instance identity: FNV-1a over
/// the key's big-endian bytes followed by the identity's UTF-8 bytes.
pub open spec fn selection_hash(key: u64, id: Seq<char>) -> u64 {
    fnv1a(key_bytes(key) + vstd::utf8::encode_utf8(id))
}

/// A candidate's weighted score: its selection hash times its weight.
pub open spec fn weighted_score(key: u64, c: RoutingCandidateView) -> int {
    selection_hash(key, c.instance_id) as int * c.weight as int
}

/// `a` wins over `b`: a higher score, or an equal score and an earlier
/// identity.
pub open spec fn outweighs(key: u64, a: RoutingCandidateView, b: RoutingCandidateView) -> bool {
    ranked_before(-weighted_score(key, a), a.instance_id, -weighted_score(key, b), b.instance_id)
}

/// `i` is a positively weighted candidate that no positively weighted
/// candidate wins over.
pub open spec fn is_heaviest(cs: Seq<RoutingCandidateView>, key: u64, i: int) -> bool {
    &&& 0 <= i < cs.len()
    &&& cs[i].weight > 0
    &&& forall|j: int|
        0 <= j < cs.len() && (#[trigger] cs[j]).weight > 0 ==> !outweighs(key, cs[j], cs[i])
}

/// Some candidate has a positive weight.
pub open spec fn has_positive_weight(cs: Seq<RoutingCandidateView>) -> bool {
    exists|i: int| 0 <= i < cs.len() && (#[trigger] cs[i]).weight > 0
}

/// The instance of the winning candidate under weighted selection.
pub open spec fn heaviest_instance(cs: Seq<RoutingCandidateView>, key: u64) -> Seq<char> {
    cs[choose|i: int| is_heaviest(cs, key, i)].instance_id
}

/// What a strategy selects when no destination constraint decided.
pub open spec fn strategy_outcome(strategy: RoutingStrategy, input: PolicyInputView) -> Result<
    Seq<char>,
    PolicyErrorView,
> {
    let cs = input.candidates;
    match strategy {
        RoutingStrategy::Deterministic => Ok(least_instance(cs, identity_rank())),
        RoutingStrategy::RoundRobin => Ok(round_robin_instance(cs, input.round_robin_offset)),
        RoutingStrategy::Weighted => match input.selection_key {
            None => Err(PolicyErrorView::MissingSelectionKey),
            Some(key) => if has_positive_weight(cs) {
                Ok(heaviest_instance(cs, key))
            } else {
                Err(PolicyErrorView::NoPositiveWeight)
            },
        },
        RoutingStrategy::CapacityAware => Ok(least_instance(cs, capacity_rank())),
        RoutingStrategy::LocalityAware => match input.constraints.preferred_locality {
            None => Ok(least_instance(cs, identity_rank())),
            Some(l) => Ok(least_instance(cs, locality_rank(l))),
        },
    }
}

/// The outcome of evaluating a policy: no candidates fail; then the first
/// invalid load fails; then a hard destination is selected or fails; then a
/// present preference is selected; otherwise the strategy decides.
pub open spec fn policy_outcome(strategy: RoutingStrategy, input: PolicyInputView) -> Result<
    Seq<char>,
    PolicyErrorView,
> {
    let cs = input.candidates;
    if cs.len() == 0 {
        Err(PolicyErrorView::EmptyCandidateSet)
    } else if !loads_valid(cs) {
        Err(invalid_load_error(cs))
    } else {
        match input.constraints.destination {
            DestinationConstraintView::Hard(d) => if contains_instance(cs, d) {
                Ok(d)
            } else {
                Err(PolicyErrorView::HardDestinationUnavailable(d))
            },
            DestinationConstraintView::Preference(d) => if contains_instance(cs, d) {
                Ok(d)
            } else {
                strategy_outcome(strategy, input)
            },
            DestinationConstraintView::Unconstrained => strategy_outcome(strategy, input),
        }
    }
}

/// The rank-then-identity order is transitive.
proof fn lemma_ranked_before_transitive(
    r1: int,
    a: Seq<char>,
    r2: int,
    b: Seq<char>,
    r3: int,
    c: Seq<char>,
)
    requires
        ranked_before(r1, a, r2, b),
        ranked_before(r2, b, r3, c),
    ensures
        ranked_before(r1, a, r3, c),
{
    if r1 == r2 && r2 == r3 {
        crate::text::lemma_seq_lt_transitive(a, b, c);
    }
}

/// Two least candidates under one rank carry the same identity.
proof fn lemma_least_unique(
    cs: Seq<RoutingCandidateView>,
    rank: spec_fn(RoutingCandidateView) -> int,
    i: int,
    j: int,
)
    requires
        is_least(cs, rank, i),
        is_least(cs, rank, j),
    ensures
        cs[i].instance_id == cs[j].instance_id,
{
    assert(!ranked_before(rank(cs[j]), cs[j].instance_id, rank(cs[i]), cs[i].instance_id));
    assert(!ranked_before(rank(cs[i]), cs[i].instance_id, rank(cs[j]), cs[j].instance_id));
    if cs[i].instance_id != cs[j].instance_id {
        lemma_seq_lt_total(cs[i].instance_id, cs[j].instance_id);
    }
}

/// A least candidate determines the least instance.
proof fn lemma_least_instance(
    cs: Seq<RoutingCandidateView>,
    rank: spec_fn(RoutingCandidateView) -> int,
    i: int,
)
    requires
        is_least(cs, rank, i),
    ensures
        least_instance(cs, rank) == cs[i].instance_id,
{
    let k = choose|k: int| is_least(cs, rank, k);
    lemma_least_unique(cs, rank, i, k);
}

/// Two winning candidates under weighted selection carry the same identity.
proof fn lemma_heaviest_unique(cs: Seq<RoutingCandidateView>, key: u64, i: int, j: int)
    requires
        is_heaviest(cs, key, i),
        is_heaviest(cs, key, j),
    ensures
        cs[i].instance_id == cs[j].instance_id,
{
    assert(!outweighs(key, cs[j], cs[i]));
    assert(!outweighs(key, cs[i], cs[j]));
    if cs[i].instance_id != cs[j].instance_id {
        lemma_seq_lt_total(cs[i].instance_id, cs[j].instance_id);
    }
}

/// A winning candidate determines the weighted choice.
proof fn lemma_heaviest_instance(cs: Seq<RoutingCandidateView>, key: u64, i: int)
    requires
        is_heaviest(cs, key, i),
    ensures
        heaviest_instance(cs, key) == cs[i].instance_id,
{
    let k = choose|k: int| is_heaviest(cs, key, k);
    lemma_heaviest_unique(cs, key, i, k);
}

/// The first invalid load determines the reported error.
proof fn lemma_invalid_load_error(cs: Seq<RoutingCandidateView>, k: int)
    requires
        first_invalid_load(cs, k),
    ensures
        invalid_load_error(cs) == (PolicyErrorView::InvalidLoad {
            instance_id: cs[k].instance_id,
            load_percent: cs[k].load_percent.unwrap(),
        }),
{
    let m = choose|m: int| first_invalid_load(cs, m);
    assert(first_invalid_load(cs, m));
    if m < k {
        assert(load_valid(cs[m]));
    }
    if k < m {
        assert(load_valid(cs[k]));
    }
}

/// How candidates are ranked by one of the least-candidate strategies.
enum Ranking<'a> {
    Identity,
    Load,
    Locality(&'a str),
}

spec fn ranking_fn(ranking: Ranking) -> spec_fn(RoutingCandidateView) -> int {
    match ranking {
        Ranking::Identity => identity_rank(),
        Ranking::Load => capacity_rank(),
        Ranking::Locality(l) => locality_rank(l@),
    }
}

/// Rank of a candidate's load: its value, or after every value when unknown.
fn compare_optional_load(load_percent: Option<u8>) -> (r: u16)
    ensures
        r as int == load_rank(load_percent),
{
    match load_percent {
        Some(l) => l as u16,
        None => 256,
    }
}

/// Rank of a candidate's locality against the preferred locality.
fn locality_rank_for(candidate: &RoutingCandidate, preferred_locality: &str) -> (r: u16)
    ensures
        r as int == locality_rank_of(candidate@.locality, preferred_locality@),
{
    match &candidate.locality {
        Some(l) => if crate::text::str_equal(l.as_str(), preferred_locality) {
            0
        } else {
            1
        },
        None => 2,
    }
}

fn rank_of(candidate: &RoutingCandidate, ranking: &Ranking) -> (r: u16)
    ensures
        r as int == ranking_fn(*ranking)(candidate@),
{
    match ranking {
        Ranking::Identity => 0,
        Ranking::Load => compare_optional_load(candidate.load_percent),
        Ranking::Locality(l) => locality_rank_for(candidate, l),
    }
}

/// Position of the first candidate that no candidate ranks before.
fn select_least(candidates: &[RoutingCandidate], ranking: &Ranking) -> (i: usize)
    requires
        candidates@.len() > 0,
    ensures
        is_least(candidate_views(candidates@), ranking_fn(*ranking), i as int),
{
    let ghost cs = candidate_views(candidates@);
    let ghost rank = ranking_fn(*ranking);
    let mut best: usize = 0;
    let mut best_rank = rank_of(&candidates[0], ranking);
    let mut k: usize = 1;
    proof {
        lemma_seq_lt_irreflexive(cs[0].instance_id);
    }
    while k < candidates.len()
        invariant
            cs == candidate_views(candidates@),
            rank == ranking_fn(*ranking),
            0 <= best < k <= candidates@.len(),
            best_rank as int == rank(cs[best as int]),
            forall|j: int|
                0 <= j < k ==> !ranked_before(
                    rank(#[trigger] cs[j]),
                    cs[j].instance_id,
                    rank(cs[best as int]),
                    cs[best as int].instance_id,
                ),
        decreases candidates@.len() - k,
    {
        let r = rank_of(&candidates[k], ranking);
        let better = r < best_rank || (r == best_rank && candidates[k].instance_id.precedes(
            &candidates[best].instance_id,
        ));
        if better {
            proof {
                assert(ranked_before(
                    rank(cs[k as int]),
                    cs[k as int].instance_id,
                    rank(cs[best as int]),
                    cs[best as int].instance_id,
                ));
                assert forall|j: int| 0 <= j < k + 1 implies !ranked_before(
                    rank(#[trigger] cs[j]),
                    cs[j].instance_id,
                    rank(cs[k as int]),
                    cs[k as int].instance_id,
                ) by {
                    if j == k {
                        lemma_seq_lt_irreflexive(cs[j].instance_id);
                    } else if ranked_before(
                        rank(cs[j]),
                        cs[j].instance_id,
                        rank(cs[k as int]),
                        cs[k as int].instance_id,
                    ) {
                        lemma_ranked_before_transitive(
                            rank(cs[j]),
                            cs[j].instance_id,
                            rank(cs[k as int]),
                            cs[k as int].instance_id,
                            rank(cs[best as int]),
                            cs[best as int].instance_id,
                        );
                    }
                }
            }
            best = k;
            best_rank = r;
        }
        k = k + 1;
    }
    best
}

/// The first candidate in identity order.
fn select_deterministic(candidates: &[RoutingCandidate]) -> (i: usize)
    requires
        candidates@.len() > 0,
    ensures
        is_least(candidate_views(candidates@), identity_rank(), i as int),
{
    select_least(candidates, &Ranking::Identity)
}

/// The candidate with the lowest load, then the first in identity order.
fn select_capacity_aware(candidates: &[RoutingCandidate]) -> (i: usize)
    requires
        candidates@.len() > 0,
    ensures
        is_least(candidate_views(candidates@), capacity_rank(), i as int),
{
    select_least(candidates, &Ranking::Load)
}

/// The candidate in the preferred locality, then the first in identity
/// order; without a preferred locality, the first in identity order.
fn select_locality_aware(candidates: &[RoutingCandidate], preferred_locality: Option<&str>) -> (i:
    usize)
    requires
        candidates@.len() > 0,
    ensures
        match preferred_locality {
            None => is_least(candidate_views(candidates@), identity_rank(), i as int),
            Some(l) => is_least(candidate_views(candidates@), locality_rank(l@), i as int),
        },
{
    match preferred_locality {
        None => select_deterministic(candidates),
        Some(l) => select_least(candidates, &Ranking::Locality(l)),
    }
}

/// The abstract values of a list of identities.
spec fn identity_views(ids: Seq<EngineInstanceId>) -> Seq<Seq<char>> {
    ids.map_values(|x: EngineInstanceId| x@)
}

/// The candidate in position `offset % n` of the identity order.
fn select_round_robin(candidates: &[RoutingCandidate], offset: usize) -> (r: EngineInstanceId)
    requires
        candidates@.len() > 0,
    ensures
        r@ == round_robin_instance(candidate_views(candidates@), offset),
{
    let ghost cs = candidate_views(candidates@);
    let mut ordered: Vec<EngineInstanceId> = Vec::new();
    let mut k: usize = 0;
    proof {
        assert(identity_views(ordered@) =~= instance_ids(cs).take(0));
    }
    while k < candidates.len()
        invariant
            cs == candidate_views(candidates@),
            k <= candidates@.len(),
            identity_views(ordered@).to_multiset() == instance_ids(cs).take(k as int).to_multiset(),
            forall|a: int, b: int|
                0 <= a < b < ordered@.len() ==> !seq_lt(
                    #[trigger] identity_views(ordered@)[b],
                    #[trigger] identity_views(ordered@)[a],
                ),
        decreases candidates@.len() - k,
    {
        let id = &candidates[k].instance_id;
        let mut p: usize = 0;
        while p < ordered.len() && !id.precedes(&ordered[p])
            invariant
                p <= ordered@.len(),
                forall|q: int| 0 <= q < p ==> !seq_lt(id@, #[trigger] ordered@[q]@),
            decreases ordered@.len() - p,
        {
            p = p + 1;
        }
        let ghost before = identity_views(ordered@);
        proof {
            if p < ordered@.len() {
                assert(seq_lt(id@, before[p as int]));
            }
        }
        ordered.insert(p, id.clone());
        proof {
            let after = identity_views(ordered@);
            assert(after =~= before.insert(p as int, id@));
            lemma_insert_to_multiset(before, p as int, id@);
            assert(instance_ids(cs).take(k + 1) =~= instance_ids(cs).take(k as int).push(id@));
            vstd::seq_lib::to_multiset_build(instance_ids(cs).take(k as int), id@);
            assert forall|a: int, b: int| 0 <= a < b < after.len() implies !seq_lt(
                #[trigger] after[b],
                #[trigger] after[a],
            ) by {
                if b < p {
                    assert(after[a] == before[a] && after[b] == before[b]);
                } else if b == p {
                    assert(after[a] == before[a]);
                    assert(ordered@[a]@ == before[a]);
                } else if a < p {
                    assert(after[a] == before[a] && after[b] == before[b - 1]);
                } else if a == p {
                    assert(after[b] == before[b - 1]);
                    assert(p < before.len());
                    if seq_lt(before[b - 1], id@) {
                        if b - 1 == p {
                            lemma_seq_lt_asymmetric(id@, before[p as int]);
                        } else {
                            crate::text::lemma_seq_lt_transitive(
                                before[b - 1],
                                id@,
                                before[p as int],
                            );
                        }
                    }
                } else {
                    assert(after[a] == before[a - 1] && after[b] == before[b - 1]);
                }
            }
        }
        k = k + 1;
    }
    proof {
        let ids = instance_ids(cs);
        let sorted = identity_views(ordered@);
        assert(ids.take(cs.len() as int) =~= ids);
        lemma_id_leq_total_ordering();
        ids.lemma_sort_by_ensures(id_leq());
        assert(sorted_by(sorted, id_leq())) by {
            assert forall|a: int, b: int| 0 <= a < b < sorted.len() implies #[trigger] id_leq()(
                sorted[a],
                sorted[b],
            ) by {
                assert(!seq_lt(sorted[b], sorted[a]));
            }
        }
        vstd::seq_lib::lemma_sorted_unique(sorted, ids.sort_by(id_leq()), id_leq());
        assert(sorted.len() == cs.len()) by {
            broadcast use vstd::seq_lib::group_to_multiset_ensures;

            assert(sorted.to_multiset().len() == sorted.len());
            assert(ids.to_multiset().len() == ids.len());
        }
    }
    let index = offset % ordered.len();
    proof {
        assert(identity_views(ordered@)[index as int] == ordered@[index as int]@);
    }
    ordered[index].clone()
}

/// Stable 64-bit hash of a selection key and an instance identity.
fn stable_hash(selection_key: u64, instance_id: &str) -> (h: u64)
    ensures
        h == selection_hash(selection_key, instance_id@),
{
    let mut bytes: Vec<u8> = Vec::new();
    bytes.push((selection_key >> 56u64) as u8);
    bytes.push((selection_key >> 48u64) as u8);
    bytes.push((selection_key >> 40u64) as u8);
    bytes.push((selection_key >> 32u64) as u8);
    bytes.push((selection_key >> 24u64) as u8);
    bytes.push((selection_key >> 16u64) as u8);
    bytes.push((selection_key >> 8u64) as u8);
    bytes.push(selection_key as u8);
    let ghost key_part = bytes@;
    proof {
        assert(key_part =~= key_bytes(selection_key));
    }
    let id_bytes = instance_id.as_bytes();
    let mut j: usize = 0;
    while j < id_bytes.len()
        invariant
            j <= id_bytes@.len(),
            key_part == key_bytes(selection_key),
            bytes@ == key_part + id_bytes@.take(j as int),
        decreases id_bytes@.len() - j,
    {
        bytes.push(id_bytes[j]);
        j = j + 1;
        proof {
            assert(id_bytes@.take(j as int) =~= id_bytes@.take(j - 1).push(id_bytes@[j - 1]));
        }
    }
    proof {
        assert(id_bytes@.take(j as int) =~= id_bytes@);
    }
    let mut hash: u64 = FNV_OFFSET_BASIS;
    let mut i: usize = 0;
    proof {
        assert(bytes@.take(0) =~= Seq::<u8>::empty());
    }
    while i < bytes.len()
        invariant
            i <= bytes@.len(),
            hash == fnv1a(bytes@.take(i as int)),
        decreases bytes@.len() - i,
    {
        hash = (hash ^ (bytes[i] as u64)).wrapping_mul(FNV_PRIME);
        proof {
            assert(bytes@.take(i + 1).drop_last() =~= bytes@.take(i as int));
        }
        i = i + 1;
    }
    proof {
        assert(bytes@.take(i as int) =~= bytes@);
    }
    hash
}

/// The positively weighted candidate with the highest score for the key,
/// ties going to the earlier identity.
fn select_weighted(candidates: &[RoutingCandidate], selection_key: Option<u64>) -> (r: Result<
    usize,
    PolicyError,
>)
    ensures
        match r {
            Ok(i) => (selection_key matches Some(key) && is_heaviest(
                candidate_views(candidates@),
                key,
                i as int,
            )),
            Err(e) => match selection_key {
                None => e@ == PolicyErrorView::MissingSelectionKey,
                Some(_) => !has_positive_weight(candidate_views(candidates@)) && e@
                    == PolicyErrorView::NoPositiveWeight,
            },
        },
{
    let key = match selection_key {
        Some(k) => k,
        None => {
            return Err(PolicyError::MissingSelectionKey);
        },
    };
    let ghost cs = candidate_views(candidates@);
    let mut found = false;
    let mut best: usize = 0;
    let mut best_score: u128 = 0;
    let mut k: usize = 0;
    while k < candidates.len()
        invariant
            cs == candidate_views(candidates@),
            k <= candidates@.len(),
            found ==> {
                &&& best < k
                &&& cs[best as int].weight > 0
                &&& best_score as int == weighted_score(key, cs[best as int])
                &&& forall|j: int|
                    0 <= j < k && (#[trigger] cs[j]).weight > 0 ==> !outweighs(
                        key,
                        cs[j],
                        cs[best as int],
                    )
            },
            !found ==> forall|j: int| 0 <= j < k ==> (#[trigger] cs[j]).weight == 0,
        decreases candidates@.len() - k,
    {
        let candidate = &candidates[k];
        if candidate.weight > 0 {
            let hash = stable_hash(key, candidate.instance_id.as_str());
            proof {
                let h = hash as int;
                let w = candidate.weight as int;
                assert(h * w < 0x1_0000_0000_0000_0000_0000_0000) by (nonlinear_arith)
                    requires
                        0 <= h < 0x1_0000_0000_0000_0000,
                        0 <= w < 0x1_0000_0000,
                ;
                assert(0 <= h * w) by (nonlinear_arith)
                    requires
                        0 <= h,
                        0 <= w,
                ;
            }
            let score: u128 = (hash as u128) * (candidate.weight as u128);
            let wins = !found || score > best_score || (score == best_score
                && candidate.instance_id.precedes(&candidates[best].instance_id));
            if wins {
                proof {
                    assert forall|j: int|
                        0 <= j < k + 1 && (#[trigger] cs[j]).weight > 0 implies !outweighs(
                        key,
                        cs[j],
                        cs[k as int],
                    ) by {
                        if j == k {
                            lemma_seq_lt_irreflexive(cs[j].instance_id);
                        } else if outweighs(key, cs[j], cs[k as int]) {
                            lemma_ranked_before_transitive(
                                -weighted_score(key, cs[j]),
                                cs[j].instance_id,
                                -weighted_score(key, cs[k as int]),
                                cs[k as int].instance_id,
                                -weighted_score(key, cs[best as int]),
                                cs[best as int].instance_id,
                            );
                        }
                    }
                }
                found = true;
                best = k;
                best_score = score;
            }
        }
        k = k + 1;
    }
    if found {
        Ok(best)
    } else {
        Err(PolicyError::NoPositiveWeight)
    }
}

/// Position of the first candidate carrying the given identity.
fn find_instance(candidates: &[RoutingCandidate], instance_id: &EngineInstanceId) -> (r: Option<
    usize,
>)
    ensures
        match r {
            Some(i) => i < candidates@.len() && candidates@[i as int]@.instance_id == instance_id@,
            None => !contains_instance(candidate_views(candidates@), instance_id@),
        },
{
    let mut k: usize = 0;
    while k < candidates.len()
        invariant
            k <= candidates@.len(),
            forall|j: int| 0 <= j < k ==> (#[trigger] candidates@[j])@.instance_id != instance_id@,
        decreases candidates@.len() - k,
    {
        if candidates[k].instance_id.same_as(instance_id) {
            return Some(k);
        }
        k = k + 1;
    }
    proof {
        let cs = candidate_views(candidates@);
        assert forall|i: int| 0 <= i < cs.len() implies (#[trigger] cs[i]).instance_id
            != instance_id@ by {
            assert(cs[i] == candidates@[i]@);
        }
    }
    None
}

/// Immutable routing policy used for destination selection.
#[derive(Clone, Debug, PartialEq, Eq, Structural)]
pub struct RoutingPolicy {
    strategy: RoutingStrategy,
}

impl View for RoutingPolicy {
    type V = RoutingStrategy;

    closed spec fn view(&self) -> RoutingStrategy {
        self.strategy
    }
}

impl RoutingPolicy {
    /// Creates a routing policy using the supplied selection strategy.
    pub fn new(strategy: RoutingStrategy) -> (r: RoutingPolicy)
        ensures
            r@ == strategy,
    {
        RoutingPolicy { strategy }
    }

    /// Creates the baseline deterministic policy.
    pub fn deterministic() -> (r: RoutingPolicy)
        ensures
            r@ == RoutingStrategy::Deterministic,
    {
        RoutingPolicy::new(RoutingStrategy::Deterministic)
    }

    /// Creates a round-robin policy.
    pub fn round_robin() -> (r: RoutingPolicy)
        ensures
            r@ == RoutingStrategy::RoundRobin,
    {
        RoutingPolicy::new(RoutingStrategy::RoundRobin)
    }

    /// Creates a weighted policy.
    pub fn weighted() -> (r: RoutingPolicy)
        ensures
            r@ == RoutingStrategy::Weighted,
    {
        RoutingPolicy::new(RoutingStrategy::Weighted)
    }

    /// Creates a capacity-aware policy.
    pub fn capacity_aware() -> (r: RoutingPolicy)
        ensures
            r@ == RoutingStrategy::CapacityAware,
    {
        RoutingPolicy::new(RoutingStrategy::CapacityAware)
    }

    /// Creates a locality-aware policy.
    pub fn locality_aware() -> (r: RoutingPolicy)
        ensures
            r@ == RoutingStrategy::LocalityAware,
    {
        RoutingPolicy::new(RoutingStrategy::LocalityAware)
    }

    /// Returns the configured routing strategy.
    pub fn strategy(&self) -> (r: RoutingStrategy)
        ensures
            r == self@,
    {
        self.strategy
    }

    /// Evaluates this policy against an already-eligible candidate snapshot.
    pub fn evaluate(&self, input: &PolicyInput) -> (r: Result<PolicySelection, PolicyError>)
        ensures
            selection_outcome(r) == policy_outcome(self@, input@),
    {
        let candidates = input.candidates;
        let ghost cs = candidate_views(candidates@);
        if candidates.len() == 0 {
            return Err(PolicyError::EmptyCandidateSet);
        }
        match self.validate_candidates(candidates) {
            Err(e) => {
                return Err(e);
            },
            Ok(()) => {},
        }
        match &input.constraints.destination {
            DestinationConstraint::Hard(destination) => {
                return match find_instance(candidates, destination) {
                    Some(i) => {
                        proof {
                            assert(cs[i as int] == candidates@[i as int]@);
                        }
                        Ok(PolicySelection::new(candidates[i].instance_id.clone()))
                    },
                    None => Err(PolicyError::HardDestinationUnavailable(destination.clone())),
                };
            },
            DestinationConstraint::Preference(destination) => {
                match find_instance(candidates, destination) {
                    Some(i) => {
                        proof {
                            assert(cs[i as int] == candidates@[i as int]@);
                        }
                        return Ok(PolicySelection::new(candidates[i].instance_id.clone()));
                    },
                    None => {},
                }
            },
            DestinationConstraint::Unconstrained => {},
        }
        let selected = match self.strategy {
            RoutingStrategy::Deterministic => {
                let i = select_deterministic(candidates);
                proof {
                    lemma_least_instance(cs, identity_rank(), i as int);
                }
                candidates[i].instance_id.clone()
            },
            RoutingStrategy::RoundRobin => select_round_robin(
                candidates,
                input.round_robin_offset,
            ),
            RoutingStrategy::Weighted => {
                match select_weighted(candidates, input.selection_key) {
                    Ok(i) => {
                        proof {
                            lemma_heaviest_instance(cs, input.selection_key.unwrap(), i as int);
                        }
                        candidates[i].instance_id.clone()
                    },
                    Err(e) => {
                        return Err(e);
                    },
                }
            },
            RoutingStrategy::CapacityAware => {
                let i = select_capacity_aware(candidates);
                proof {
                    lemma_least_instance(cs, capacity_rank(), i as int);
                }
                candidates[i].instance_id.clone()
            },
            RoutingStrategy::LocalityAware => {
                let preferred = input.constraints.preferred_locality();
                let i = select_locality_aware(candidates, preferred);
                proof {
                    match preferred {
                        None => lemma_least_instance(cs, identity_rank(), i as int),
                        Some(l) => lemma_least_instance(cs, locality_rank(l@), i as int),
                    }
                }
                candidates[i].instance_id.clone()
            },
        };
        Ok(PolicySelection::new(selected))
    }

    /// Rejects the first candidate whose load percentage exceeds one hundred.
    fn validate_candidates(&self, candidates: &[RoutingCandidate]) -> (r: Result<(), PolicyError>)
        ensures
            match r {
                Ok(()) => loads_valid(candidate_views(candidates@)),
                Err(e) => !loads_valid(candidate_views(candidates@)) && e@ == invalid_load_error(
                    candidate_views(candidates@),
                ),
            },
    {
        let ghost cs = candidate_views(candidates@);
        let mut k: usize = 0;
        while k < candidates.len()
            invariant
                cs == candidate_views(candidates@),
                k <= candidates@.len(),
                forall|j: int| 0 <= j < k ==> load_valid(#[trigger] cs[j]),
            decreases candidates@.len() - k,
        {
            match candidates[k].load_percent {
                Some(load_percent) => {
                    if load_percent > 100 {
                        proof {
                            assert(first_invalid_load(cs, k as int));
                            lemma_invalid_load_error(cs, k as int);
                        }
                        return Err(
                            PolicyError::InvalidLoad {
                                instance_id: candidates[k].instance_id.clone(),
                                load_percent,
                            },
                        );
                    }
                },
                None => {},
            }
            k = k + 1;
        }
        Ok(())
    }
}

/// Every non-empty candidate list has a least candidate under any rank.
proof fn lemma_least_exists(cs: Seq<RoutingCandidateView>, rank: spec_fn(RoutingCandidateView) -> int)
    requires
        cs.len() > 0,
    ensures
        exists|i: int| is_least(cs, rank, i),
    decreases cs.len(),
{
    let n = cs.len() - 1;
    if n == 0 {
        lemma_seq_lt_irreflexive(cs[0].instance_id);
        assert(is_least(cs, rank, 0));
    } else {
        let front = cs.drop_last();
        lemma_least_exists(front, rank);
        let i = choose|i: int| is_least(front, rank, i);
        assert(front[i] == cs[i]);
        if ranked_before(rank(cs[n]), cs[n].instance_id, rank(cs[i]), cs[i].instance_id) {
            assert forall|j: int| 0 <= j < cs.len() implies !ranked_before(
                rank(#[trigger] cs[j]),
                cs[j].instance_id,
                rank(cs[n]),
                cs[n].instance_id,
            ) by {
                if j == n {
                    lemma_seq_lt_irreflexive(cs[j].instance_id);
                } else {
                    assert(front[j] == cs[j]);
                    if ranked_before(rank(cs[j]), cs[j].instance_id, rank(cs[n]), cs[n].instance_id) {
                        lemma_ranked_before_transitive(
                            rank(cs[j]),
                            cs[j].instance_id,
                            rank(cs[n]),
                            cs[n].instance_id,
                            rank(cs[i]),
                            cs[i].instance_id,
                        );
                    }
                }
            }
            assert(is_least(cs, rank, n));
        } else {
            assert forall|j: int| 0 <= j < cs.len() implies !ranked_before(
                rank(#[trigger] cs[j]),
                cs[j].instance_id,
                rank(cs[i]),
                cs[i].instance_id,
            ) by {
                if j < n {
                    assert(front[j] == cs[j]);
                }
            }
            assert(is_least(cs, rank, i));
        }
    }
}

/// A candidate list with a positive weight has a winner for every key.
proof fn lemma_heaviest_exists(cs: Seq<RoutingCandidateView>, key: u64)
    requires
        has_positive_weight(cs),
    ensures
        exists|i: int| is_heaviest(cs, key, i),
    decreases cs.len(),
{
    let n = cs.len() - 1;
    let front = cs.drop_last();
    if !has_positive_weight(front) {
        assert(cs[n].weight > 0) by {
            let w = choose|w: int| 0 <= w < cs.len() && (#[trigger] cs[w]).weight > 0;
            if w < n {
                assert(front[w] == cs[w]);
            }
        }
        assert forall|j: int| 0 <= j < cs.len() && (#[trigger] cs[j]).weight > 0 implies !outweighs(
            key,
            cs[j],
            cs[n],
        ) by {
            if j < n {
                assert(front[j] == cs[j]);
            } else {
                lemma_seq_lt_irreflexive(cs[j].instance_id);
            }
        }
        assert(is_heaviest(cs, key, n));
    } else {
        lemma_heaviest_exists(front, key);
        let i = choose|i: int| is_heaviest(front, key, i);
        assert(front[i] == cs[i]);
        if cs[n].weight > 0 && outweighs(key, cs[n], cs[i]) {
            assert forall|j: int|
                0 <= j < cs.len() && (#[trigger] cs[j]).weight > 0 implies !outweighs(
                key,
                cs[j],
                cs[n],
            ) by {
                if j == n {
                    lemma_seq_lt_irreflexive(cs[j].instance_id);
                } else {
                    assert(front[j] == cs[j]);
                    if outweighs(key, cs[j], cs[n]) {
                        lemma_ranked_before_transitive(
                            -weighted_score(key, cs[j]),
                            cs[j].instance_id,
                            -weighted_score(key, cs[n]),
                            cs[n].instance_id,
                            -weighted_score(key, cs[i]),
                            cs[i].instance_id,
                        );
                    }
                }
            }
            assert(is_heaviest(cs, key, n));
        } else {
            assert forall|j: int|
                0 <= j < cs.len() && (#[trigger] cs[j]).weight > 0 implies !outweighs(
                key,
                cs[j],
                cs[i],
            ) by {
                if j < n {
                    assert(front[j] == cs[j]);
                }
            }
            assert(is_heaviest(cs, key, i));
        }
    }
}

/// The round-robin choice is one of the candidates.
proof fn lemma_round_robin_is_candidate(cs: Seq<RoutingCandidateView>, offset: usize)
    requires
        cs.len() > 0,
    ensures
        contains_instance(cs, round_robin_instance(cs, offset)),
{
    broadcast use vstd::seq_lib::group_to_multiset_ensures;

    let ids = instance_ids(cs);
    lemma_id_leq_total_ordering();
    ids.lemma_sort_by_ensures(id_leq());
    let sorted = ids.sort_by(id_leq());
    assert(sorted.to_multiset().len() == sorted.len());
    assert(ids.to_multiset().len() == ids.len());
    let k = offset as int % cs.len() as int;
    assert(sorted.contains(sorted[k]));
    assert(ids.contains(sorted[k]));
    let i = choose|i: int| 0 <= i < ids.len() && ids[i] == sorted[k];
    assert(cs[i].instance_id == sorted[k]);
}

/// A successful evaluation selects one of the eligible candidates;
/// policy never manufactures a destination.
pub proof fn lemma_selection_is_candidate(strategy: RoutingStrategy, input: PolicyInputView)
    requires
        policy_outcome(strategy, input) is Ok,
    ensures
        contains_instance(input.candidates, policy_outcome(strategy, input)->Ok_0),
{
    let cs = input.candidates;
    let s = policy_outcome(strategy, input)->Ok_0;
    match input.constraints.destination {
        DestinationConstraintView::Hard(d) => {},
        DestinationConstraintView::Preference(d) => {
            if !contains_instance(cs, d) {
                lemma_strategy_choice_is_candidate(strategy, input);
            }
        },
        DestinationConstraintView::Unconstrained => {
            lemma_strategy_choice_is_candidate(strategy, input);
        },
    }
}

proof fn lemma_strategy_choice_is_candidate(strategy: RoutingStrategy, input: PolicyInputView)
    requires
        input.candidates.len() > 0,
        strategy_outcome(strategy, input) is Ok,
    ensures
        contains_instance(input.candidates, strategy_outcome(strategy, input)->Ok_0),
{
    let cs = input.candidates;
    match strategy {
        RoutingStrategy::Deterministic => {
            lemma_least_exists(cs, identity_rank());
            let i = choose|i: int| is_least(cs, identity_rank(), i);
            lemma_least_instance(cs, identity_rank(), i);
        },
        RoutingStrategy::RoundRobin => {
            lemma_round_robin_is_candidate(cs, input.round_robin_offset);
        },
        RoutingStrategy::Weighted => {
            let key = input.selection_key.unwrap();
            lemma_heaviest_exists(cs, key);
            let i = choose|i: int| is_heaviest(cs, key, i);
            lemma_heaviest_instance(cs, key, i);
        },
        RoutingStrategy::CapacityAware => {
            lemma_least_exists(cs, capacity_rank());
            let i = choose|i: int| is_least(cs, capacity_rank(), i);
            lemma_least_instance(cs, capacity_rank(), i);
        },
        RoutingStrategy::LocalityAware => {
            let rank = match input.constraints.preferred_locality {
                None => identity_rank(),
                Some(l) => locality_rank(l),
            };
            lemma_least_exists(cs, rank);
            let i = choose|i: int| is_least(cs, rank, i);
            lemma_least_instance(cs, rank, i);
        },
    }
}

/// A hard destination is never a preference. Evaluation under a hard
/// destination selects exactly that instance or fails, and it fails with
/// `HardDestinationUnavailable` exactly when the instance is not a
/// candidate (given candidates with valid loads).
pub proof fn lemma_hard_destination_never_falls_back(
    strategy: RoutingStrategy,
    input: PolicyInputView,
    destination: Seq<char>,
)
    requires
        input.constraints.destination == DestinationConstraintView::Hard(destination),
    ensures
        policy_outcome(strategy, input) is Ok ==> policy_outcome(strategy, input) == Ok::<
            Seq<char>,
            PolicyErrorView,
        >(destination),
        input.candidates.len() > 0 && loads_valid(input.candidates) ==> (policy_outcome(
            strategy,
            input,
        ) == Err::<Seq<char>, PolicyErrorView>(
            PolicyErrorView::HardDestinationUnavailable(destination),
        ) <==> !contains_instance(input.candidates, destination)),
{
}

/// An eligible preferred destination is always selected, whatever the
/// strategy.
pub proof fn lemma_eligible_preference_is_selected(
    strategy: RoutingStrategy,
    input: PolicyInputView,
    destination: Seq<char>,
)
    requires
        input.constraints.destination == DestinationConstraintView::Preference(destination),
        loads_valid(input.candidates),
        contains_instance(input.candidates, destination),
    ensures
        policy_outcome(strategy, input) == Ok::<Seq<char>, PolicyErrorView>(destination),
{
}

/// Weighted selection never selects an instance only zero-weight
/// candidates carry.
pub proof fn lemma_weighted_selects_positive_weight(input: PolicyInputView)
    requires
        input.constraints.destination == DestinationConstraintView::Unconstrained,
        policy_outcome(RoutingStrategy::Weighted, input) is Ok,
    ensures
        exists|i: int|
            0 <= i < input.candidates.len() && (#[trigger] input.candidates[i]).weight > 0
                && input.candidates[i].instance_id == policy_outcome(
                RoutingStrategy::Weighted,
                input,
            )->Ok_0,
{
    let cs = input.candidates;
    let key = input.selection_key.unwrap();
    lemma_heaviest_exists(cs, key);
    let i = choose|i: int| is_heaviest(cs, key, i);
    lemma_heaviest_instance(cs, key, i);
}

/// Locality-aware selection with a preferred locality picks a candidate in
/// that locality whenever one exists, and a candidate with some locality
/// whenever one exists: a candidate without a locality ranks after every
/// candidate that has one.
pub proof fn lemma_locality_aware_prefers_locality(input: PolicyInputView, i: int)
    requires
        input.constraints.destination == DestinationConstraintView::Unconstrained,
        input.constraints.preferred_locality is Some,
        loads_valid(input.candidates),
        0 <= i < input.candidates.len(),
    ensures
        policy_outcome(RoutingStrategy::LocalityAware, input) is Ok,
        exists|k: int|
            #![trigger input.candidates[k]]
            {
                &&& 0 <= k < input.candidates.len()
                &&& input.candidates[k].instance_id == policy_outcome(
                    RoutingStrategy::LocalityAware,
                    input,
                )->Ok_0
                &&& input.candidates[i].locality == input.constraints.preferred_locality
                    ==> input.candidates[k].locality == input.constraints.preferred_locality
                &&& input.candidates[i].locality is Some ==> input.candidates[k].locality is Some
            },
{
    let cs = input.candidates;
    let l = input.constraints.preferred_locality.unwrap();
    let rank = locality_rank(l);
    lemma_least_exists(cs, rank);
    let k = choose|k: int| is_least(cs, rank, k);
    lemma_least_instance(cs, rank, k);
    assert(!ranked_before(rank(cs[i]), cs[i].instance_id, rank(cs[k]), cs[k].instance_id));
    assert(rank(cs[k]) <= rank(cs[i]));
    assert(input.candidates[k] == cs[k]);
}

/// Round-robin selection is periodic in the offset, with the number of
/// candidates as its period.
pub proof fn lemma_round_robin_wraps(cs: Seq<RoutingCandidateView>, offset: usize)
    requires
        cs.len() > 0,
        offset + cs.len() <= usize::MAX,
    ensures
        round_robin_instance(cs, (offset + cs.len()) as usize) == round_robin_instance(cs, offset),
{
    let n = cs.len() as int;
    assert((offset as int + n) % n == (offset as int) % n) by {
        vstd::arithmetic::div_mod::lemma_mod_add_multiples_vanish(offset as int, n);
    }
}

/// Two candidate lists hold the same candidates.
spec fn same_candidates(a: Seq<RoutingCandidateView>, b: Seq<RoutingCandidateView>) -> bool {
    forall|x: RoutingCandidateView| a.contains(x) <==> b.contains(x)
}

proof fn lemma_least_transfer(
    a: Seq<RoutingCandidateView>,
    b: Seq<RoutingCandidateView>,
    rank: spec_fn(RoutingCandidateView) -> int,
    i: int,
)
    requires
        same_candidates(a, b),
        is_least(a, rank, i),
    ensures
        least_instance(b, rank) == a[i].instance_id,
{
    assert(a.contains(a[i]));
    assert(b.contains(a[i]));
    let j = choose|j: int| 0 <= j < b.len() && b[j] == a[i];
    assert forall|k: int| 0 <= k < b.len() implies !ranked_before(
        rank(#[trigger] b[k]),
        b[k].instance_id,
        rank(b[j]),
        b[j].instance_id,
    ) by {
        assert(b.contains(b[k]));
        assert(a.contains(b[k]));
        let m = choose|m: int| 0 <= m < a.len() && a[m] == b[k];
    }
    assert(is_least(b, rank, j));
    lemma_least_instance(b, rank, j);
}

proof fn lemma_heaviest_transfer(
    a: Seq<RoutingCandidateView>,
    b: Seq<RoutingCandidateView>,
    key: u64,
    i: int,
)
    requires
        same_candidates(a, b),
        is_heaviest(a, key, i),
    ensures
        heaviest_instance(b, key) == a[i].instance_id,
{
    assert(a.contains(a[i]));
    assert(b.contains(a[i]));
    let j = choose|j: int| 0 <= j < b.len() && b[j] == a[i];
    assert forall|k: int| 0 <= k < b.len() && (#[trigger] b[k]).weight > 0 implies !outweighs(
        key,
        b[k],
        b[j],
    ) by {
        assert(b.contains(b[k]));
        assert(a.contains(b[k]));
        let m = choose|m: int| 0 <= m < a.len() && a[m] == b[k];
    }
    assert(is_heaviest(b, key, j));
    lemma_heaviest_instance(b, key, j);
}

/// Evaluation depends on the candidate snapshot only as a collection;
/// reordering the candidates never changes the outcome (given valid loads,
/// since the first invalid load is reported in candidate order).
pub proof fn lemma_candidate_order_irrelevant(
    strategy: RoutingStrategy,
    a: PolicyInputView,
    b: PolicyInputView,
)
    requires
        a.candidates.to_multiset() == b.candidates.to_multiset(),
        a.constraints == b.constraints,
        a.round_robin_offset == b.round_robin_offset,
        a.selection_key == b.selection_key,
        loads_valid(a.candidates),
    ensures
        policy_outcome(strategy, a) == policy_outcome(strategy, b),
{
    broadcast use vstd::seq_lib::group_to_multiset_ensures;

    let ca = a.candidates;
    let cb = b.candidates;
    assert(ca.to_multiset().len() == ca.len());
    assert(cb.to_multiset().len() == cb.len());
    assert forall|x: RoutingCandidateView| ca.contains(x) <==> cb.contains(x) by {
        assert(ca.contains(x) <==> ca.to_multiset().count(x) > 0);
        assert(cb.contains(x) <==> cb.to_multiset().count(x) > 0);
    }
    assert(same_candidates(ca, cb));
    assert(same_candidates(cb, ca));
    if ca.len() == 0 {
        return;
    }
    assert(loads_valid(cb)) by {
        assert forall|j: int| 0 <= j < cb.len() implies load_valid(#[trigger] cb[j]) by {
            assert(cb.contains(cb[j]));
            assert(ca.contains(cb[j]));
            let m = choose|m: int| 0 <= m < ca.len() && ca[m] == cb[j];
        }
    }
    assert forall|d: Seq<char>| contains_instance(ca, d) <==> contains_instance(cb, d) by {
        if contains_instance(ca, d) {
            let i = choose|i: int| 0 <= i < ca.len() && (#[trigger] ca[i]).instance_id == d;
            assert(ca.contains(ca[i]));
            let j = choose|j: int| 0 <= j < cb.len() && cb[j] == ca[i];
            assert(cb[j].instance_id == d);
        }
        if contains_instance(cb, d) {
            let i = choose|i: int| 0 <= i < cb.len() && (#[trigger] cb[i]).instance_id == d;
            assert(cb.contains(cb[i]));
            let j = choose|j: int| 0 <= j < ca.len() && ca[j] == cb[i];
            assert(ca[j].instance_id == d);
        }
    }
    let least_agrees = |rank: spec_fn(RoutingCandidateView) -> int|
        least_instance(ca, rank) == least_instance(cb, rank);
    assert forall|rank: spec_fn(RoutingCandidateView) -> int| #[trigger] least_agrees(rank) by {
        lemma_least_exists(ca, rank);
        let i = choose|i: int| is_least(ca, rank, i);
        lemma_least_instance(ca, rank, i);
        lemma_least_transfer(ca, cb, rank, i);
    }
    assert(least_agrees(identity_rank()));
    assert(least_agrees(capacity_rank()));
    match a.constraints.preferred_locality {
        Some(l) => {
            assert(least_agrees(locality_rank(l)));
        },
        None => {},
    }
    assert(has_positive_weight(ca) <==> has_positive_weight(cb)) by {
        if has_positive_weight(ca) {
            let i = choose|i: int| 0 <= i < ca.len() && (#[trigger] ca[i]).weight > 0;
            assert(ca.contains(ca[i]));
            let j = choose|j: int| 0 <= j < cb.len() && cb[j] == ca[i];
            assert(cb[j].weight > 0);
        }
        if has_positive_weight(cb) {
            let i = choose|i: int| 0 <= i < cb.len() && (#[trigger] cb[i]).weight > 0;
            assert(cb.contains(cb[i]));
            let j = choose|j: int| 0 <= j < ca.len() && ca[j] == cb[i];
            assert(ca[j].weight > 0);
        }
    }
    match a.selection_key {
        Some(key) => {
            if has_positive_weight(ca) {
                lemma_heaviest_exists(ca, key);
                let i = choose|i: int| is_heaviest(ca, key, i);
                lemma_heaviest_instance(ca, key, i);
                lemma_heaviest_transfer(ca, cb, key, i);
            }
        },
        None => {},
    }
    assert(instance_ids(ca).sort_by(id_leq()) == instance_ids(cb).sort_by(id_leq())) by {
        let f = |c: RoutingCandidateView| c.instance_id;
        crate::seq_facts::lemma_map_to_multiset(ca, cb, f);
        lemma_id_leq_total_ordering();
        instance_ids(ca).lemma_sort_by_ensures(id_leq());
        instance_ids(cb).lemma_sort_by_ensures(id_leq());
        vstd::seq_lib::lemma_sorted_unique(
            instance_ids(ca).sort_by(id_leq()),
            instance_ids(cb).sort_by(id_leq()),
            id_leq(),
        );
    }
}

} // verus!
