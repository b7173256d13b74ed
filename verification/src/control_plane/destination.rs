//! Destination semantics for the Control Plane.
//!
//! A logical destination identifies a capability requirement; an explicit
//! destination identifies one concrete `EngineInstanceId`. A hard
//! destination never silently falls back to another destination.

use vstd::prelude::*;
use crate::contracts::{compare_contracts, compatibility, ContractDescriptor, ContractView};
use crate::health::{overall_health, HealthStatus, ReadinessState};
use crate::identity::{CapabilityId, EngineId, EngineInstanceId};
use crate::runtime::LifecycleState;
use crate::seq_facts::{lemma_filter_subset, lemma_filter_take_step, lemma_take_full};
use crate::status::Compatibility;
use super::capability::is_advertised;
use super::dependency::{CapabilityRequirement, CapabilityRequirementView};
use super::lifecycle::is_routable;
use super::membership::{owned_record_views, MembershipSnapshot, MembershipView};
use super::observations::{ObservationSnapshot, ObservationsView};
use super::registration::RegistrationView;

verus! {

/// Abstract value of a destination.
pub enum DestinationView {
    Logical(CapabilityRequirementView),
    Explicit(Seq<char>),
}

/// Identifies the kind of destination requested by an operation.
#[derive(Debug, PartialEq, Eq)]
pub enum Destination {
    /// A logical destination resolved through a capability requirement.
    Logical(LogicalDestination),
    /// A concrete runtime destination.
    Explicit(ExplicitDestination),
}

impl View for Destination {
    type V = DestinationView;

    open spec fn view(&self) -> DestinationView {
        match self {
            Destination::Logical(l) => DestinationView::Logical(l@),
            Destination::Explicit(e) => DestinationView::Explicit(e@),
        }
    }
}

impl Clone for Destination {
    fn clone(&self) -> (r: Self)
        ensures
            r@ == self@,
    {
        match self {
            Destination::Logical(l) => Destination::Logical(l.clone()),
            Destination::Explicit(e) => Destination::Explicit(e.clone()),
        }
    }
}

impl Destination {
    /// Creates a logical destination from a capability requirement.
    pub fn logical(requirement: CapabilityRequirement) -> (r: Destination)
        ensures
            r@ == DestinationView::Logical(requirement@),
    {
        Destination::Logical(LogicalDestination::new(requirement))
    }

    /// Creates an explicit destination for one concrete engine instance.
    pub fn explicit(instance_id: EngineInstanceId) -> (r: Destination)
        ensures
            r@ == DestinationView::Explicit(instance_id@),
    {
        Destination::Explicit(ExplicitDestination::new(instance_id))
    }

    /// Returns `true` when this is a logical destination.
    pub fn is_logical(&self) -> (r: bool)
        ensures
            r == (self@ is Logical),
    {
        match self {
            Destination::Logical(_) => true,
            Destination::Explicit(_) => false,
        }
    }

    /// Returns `true` when this is an explicit destination.
    pub fn is_explicit(&self) -> (r: bool)
        ensures
            r == (self@ is Explicit),
    {
        match self {
            Destination::Logical(_) => false,
            Destination::Explicit(_) => true,
        }
    }

    /// Returns the logical destination when applicable.
    pub fn logical_destination(&self) -> (r: Option<&LogicalDestination>)
        ensures
            match r {
                Some(l) => self@ == DestinationView::Logical(l@),
                None => self@ is Explicit,
            },
    {
        match self {
            Destination::Logical(destination) => Some(destination),
            Destination::Explicit(_) => None,
        }
    }

    /// Returns the explicit destination when applicable.
    pub fn explicit_destination(&self) -> (r: Option<&ExplicitDestination>)
        ensures
            match r {
                Some(e) => self@ == DestinationView::Explicit(e@),
                None => self@ is Logical,
            },
    {
        match self {
            Destination::Logical(_) => None,
            Destination::Explicit(destination) => Some(destination),
        }
    }

    /// Returns the concrete instance identifier of an explicit destination.
    pub fn instance_id(&self) -> (r: Option<&EngineInstanceId>)
        ensures
            match r {
                Some(i) => self@ == DestinationView::Explicit(i@),
                None => self@ is Logical,
            },
    {
        match self {
            Destination::Logical(_) => None,
            Destination::Explicit(destination) => Some(destination.instance_id()),
        }
    }
}

/// A logical destination represented by a capability requirement.
#[derive(Debug, PartialEq, Eq)]
pub struct LogicalDestination {
    requirement: CapabilityRequirement,
}

impl View for LogicalDestination {
    type V = CapabilityRequirementView;

    closed spec fn view(&self) -> CapabilityRequirementView {
        self.requirement@
    }
}

impl Clone for LogicalDestination {
    fn clone(&self) -> (r: Self)
        ensures
            r@ == self@,
    {
        LogicalDestination { requirement: self.requirement.clone() }
    }
}

impl LogicalDestination {
    /// Creates a logical destination.
    pub fn new(requirement: CapabilityRequirement) -> (r: LogicalDestination)
        ensures
            r@ == requirement@,
    {
        LogicalDestination { requirement }
    }

    /// Returns the capability requirement.
    pub fn requirement(&self) -> (r: &CapabilityRequirement)
        ensures
            r@ == self@,
    {
        &self.requirement
    }
}

/// A concrete destination identified by one engine instance.
#[derive(Debug, PartialEq, Eq)]
pub struct ExplicitDestination {
    instance_id: EngineInstanceId,
}

impl View for ExplicitDestination {
    type V = Seq<char>;

    closed spec fn view(&self) -> Seq<char> {
        self.instance_id@
    }
}

impl Clone for ExplicitDestination {
    fn clone(&self) -> (r: Self)
        ensures
            r@ == self@,
    {
        ExplicitDestination { instance_id: self.instance_id.clone() }
    }
}

impl ExplicitDestination {
    /// Creates an explicit destination.
    pub fn new(instance_id: EngineInstanceId) -> (r: ExplicitDestination)
        ensures
            r@ == instance_id@,
    {
        ExplicitDestination { instance_id }
    }

    /// Returns the concrete engine instance identifier.
    pub fn instance_id(&self) -> (r: &EngineInstanceId)
        ensures
            r@ == self@,
    {
        &self.instance_id
    }
}

/// Describes how strongly a destination is requested.
#[derive(Clone, Copy, Debug, PartialEq, Eq, Structural)]
pub enum DestinationStrength {
    /// The requested destination is mandatory.
    Hard,
    /// The requested destination is preferred.
    Preferred,
}

impl DestinationStrength {
    /// Returns `true` when the destination is mandatory.
    pub fn is_hard(self) -> (r: bool)
        ensures
            r == (self == DestinationStrength::Hard),
    {
        match self {
            DestinationStrength::Hard => true,
            DestinationStrength::Preferred => false,
        }
    }

    /// Returns `true` when the destination is merely preferred.
    pub fn is_preferred(self) -> (r: bool)
        ensures
            r == (self == DestinationStrength::Preferred),
    {
        match self {
            DestinationStrength::Hard => false,
            DestinationStrength::Preferred => true,
        }
    }
}

/// Whether routing may use another eligible destination.
#[derive(Clone, Copy, Debug, PartialEq, Eq, Structural)]
pub enum FallbackPolicy {
    /// Another destination must not be selected.
    Forbidden,
    /// Another eligible destination may be selected.
    Allowed,
}

impl FallbackPolicy {
    /// Returns `true` when fallback is allowed.
    pub fn is_allowed(self) -> (r: bool)
        ensures
            r == (self == FallbackPolicy::Allowed),
    {
        match self {
            FallbackPolicy::Allowed => true,
            FallbackPolicy::Forbidden => false,
        }
    }

    /// Returns `true` when fallback is forbidden.
    pub fn is_forbidden(self) -> (r: bool)
        ensures
            r == (self == FallbackPolicy::Forbidden),
    {
        match self {
            FallbackPolicy::Allowed => false,
            FallbackPolicy::Forbidden => true,
        }
    }
}

/// Structural errors produced by destination construction or validation.
#[derive(Clone, Copy, Debug, PartialEq, Eq, Structural)]
pub enum DestinationValidationError {
    /// A hard destination was configured with fallback enabled.
    HardDestinationAllowsFallback,
}

impl DestinationValidationError {
    /// Human-readable description of the error.
    pub fn to_string(&self) -> (r: String)
        ensures
            r@ == "a hard destination cannot allow fallback"@,
    {
        "a hard destination cannot allow fallback".to_string()
    }
}

/// Result alias for destination-local operations.
pub type DestinationResult<T> = Result<T, DestinationValidationError>;

/// Abstract value of a destination request.
pub struct DestinationRequestView {
    pub destination: DestinationView,
    pub strength: DestinationStrength,
    pub fallback: FallbackPolicy,
}

/// A destination request is valid unless it is hard and allows fallback.
pub open spec fn request_valid(r: DestinationRequestView) -> bool {
    !(r.strength == DestinationStrength::Hard && r.fallback == FallbackPolicy::Allowed)
}

/// A complete destination requirement for one routing operation.
#[derive(Debug, PartialEq, Eq)]
pub struct DestinationRequest {
    destination: Destination,
    strength: DestinationStrength,
    fallback: FallbackPolicy,
}

impl View for DestinationRequest {
    type V = DestinationRequestView;

    closed spec fn view(&self) -> DestinationRequestView {
        DestinationRequestView {
            destination: self.destination@,
            strength: self.strength,
            fallback: self.fallback,
        }
    }
}

impl Clone for DestinationRequest {
    fn clone(&self) -> (r: Self)
        ensures
            r@ == self@,
    {
        DestinationRequest {
            destination: self.destination.clone(),
            strength: self.strength,
            fallback: self.fallback,
        }
    }
}

impl DestinationRequest {
    /// Creates a destination request; a hard destination that allows
    /// fallback is rejected.
    pub fn new(
        destination: Destination,
        strength: DestinationStrength,
        fallback: FallbackPolicy,
    ) -> (r: Result<DestinationRequest, DestinationValidationError>)
        ensures
            ({
                let v = DestinationRequestView { destination: destination@, strength, fallback };
                &&& r is Ok <==> request_valid(v)
                &&& r matches Ok(x) ==> x@ == v
                &&& r is Err ==> r == Err::<DestinationRequest, _>(
                    DestinationValidationError::HardDestinationAllowsFallback,
                )
            }),
    {
        let request = DestinationRequest { destination, strength, fallback };
        match request.validate() {
            Ok(()) => Ok(request),
            Err(e) => Err(e),
        }
    }

    /// Creates a hard destination request; hard destinations forbid fallback.
    pub fn hard(destination: Destination) -> (r: DestinationRequest)
        ensures
            r@ == (DestinationRequestView {
                destination: destination@,
                strength: DestinationStrength::Hard,
                fallback: FallbackPolicy::Forbidden,
            }),
    {
        DestinationRequest {
            destination,
            strength: DestinationStrength::Hard,
            fallback: FallbackPolicy::Forbidden,
        }
    }

    /// Creates a preferred destination request.
    pub fn preferred(destination: Destination, fallback: FallbackPolicy) -> (r: DestinationRequest)
        ensures
            r@ == (DestinationRequestView {
                destination: destination@,
                strength: DestinationStrength::Preferred,
                fallback,
            }),
    {
        DestinationRequest { destination, strength: DestinationStrength::Preferred, fallback }
    }

    /// Creates a hard logical destination.
    pub fn hard_logical(requirement: CapabilityRequirement) -> (r: DestinationRequest)
        ensures
            r@ == (DestinationRequestView {
                destination: DestinationView::Logical(requirement@),
                strength: DestinationStrength::Hard,
                fallback: FallbackPolicy::Forbidden,
            }),
    {
        Self::hard(Destination::logical(requirement))
    }

    /// Creates a hard explicit destination.
    pub fn hard_explicit(instance_id: EngineInstanceId) -> (r: DestinationRequest)
        ensures
            r@ == (DestinationRequestView {
                destination: DestinationView::Explicit(instance_id@),
                strength: DestinationStrength::Hard,
                fallback: FallbackPolicy::Forbidden,
            }),
    {
        Self::hard(Destination::explicit(instance_id))
    }

    /// Creates a preferred logical destination.
    pub fn preferred_logical(requirement: CapabilityRequirement, fallback: FallbackPolicy) -> (r:
        DestinationRequest)
        ensures
            r@ == (DestinationRequestView {
                destination: DestinationView::Logical(requirement@),
                strength: DestinationStrength::Preferred,
                fallback,
            }),
    {
        Self::preferred(Destination::logical(requirement), fallback)
    }

    /// Creates a preferred explicit destination.
    pub fn preferred_explicit(instance_id: EngineInstanceId, fallback: FallbackPolicy) -> (r:
        DestinationRequest)
        ensures
            r@ == (DestinationRequestView {
                destination: DestinationView::Explicit(instance_id@),
                strength: DestinationStrength::Preferred,
                fallback,
            }),
    {
        Self::preferred(Destination::explicit(instance_id), fallback)
    }

    /// Validates the structural invariants of this destination request.
    pub fn validate(&self) -> (r: Result<(), DestinationValidationError>)
        ensures
            r is Ok <==> request_valid(self@),
            r is Err ==> r == Err::<(), _>(DestinationValidationError::HardDestinationAllowsFallback),
    {
        if self.strength.is_hard() && self.fallback.is_allowed() {
            return Err(DestinationValidationError::HardDestinationAllowsFallback);
        }
        Ok(())
    }

    /// Returns the requested destination.
    pub fn destination(&self) -> (r: &Destination)
        ensures
            r@ == self@.destination,
    {
        &self.destination
    }

    /// Returns the destination strength.
    pub fn strength(&self) -> (r: DestinationStrength)
        ensures
            r == self@.strength,
    {
        self.strength
    }

    /// Returns the fallback policy.
    pub fn fallback(&self) -> (r: FallbackPolicy)
        ensures
            r == self@.fallback,
    {
        self.fallback
    }

    /// Returns `true` when this request requires an exact destination.
    pub fn is_hard(&self) -> (r: bool)
        ensures
            r == (self@.strength == DestinationStrength::Hard),
    {
        self.strength.is_hard()
    }

    /// Returns `true` when another destination may be selected.
    pub fn allows_fallback(&self) -> (r: bool)
        ensures
            r == (self@.fallback == FallbackPolicy::Allowed),
    {
        self.fallback.is_allowed()
    }

    /// Returns the concrete instance identifier of an explicit destination.
    pub fn explicit_instance_id(&self) -> (r: Option<&EngineInstanceId>)
        ensures
            match r {
                Some(i) => self@.destination == DestinationView::Explicit(i@),
                None => self@.destination is Logical,
            },
    {
        self.destination.instance_id()
    }
}

/// Abstract value of a destination candidate.
pub struct CandidateView {
    pub engine_id: Seq<char>,
    pub instance_id: Seq<char>,
}

/// A concrete candidate considered by the routing layer.
#[derive(Debug, PartialEq, Eq)]
pub struct DestinationCandidate {
    engine_id: EngineId,
    instance_id: EngineInstanceId,
}

impl View for DestinationCandidate {
    type V = CandidateView;

    closed spec fn view(&self) -> CandidateView {
        CandidateView { engine_id: self.engine_id@, instance_id: self.instance_id@ }
    }
}

impl Clone for DestinationCandidate {
    fn clone(&self) -> (r: Self)
        ensures
            r@ == self@,
    {
        DestinationCandidate { engine_id: self.engine_id.clone(), instance_id: self.instance_id.clone() }
    }
}

impl DestinationCandidate {
    /// Creates a candidate from logical and concrete engine identities.
    pub fn new(engine_id: EngineId, instance_id: EngineInstanceId) -> (r: DestinationCandidate)
        ensures
            r@ == (CandidateView { engine_id: engine_id@, instance_id: instance_id@ }),
    {
        DestinationCandidate { engine_id, instance_id }
    }

    /// Returns the logical engine identifier.
    pub fn engine_id(&self) -> (r: &EngineId)
        ensures
            r@ == self@.engine_id,
    {
        &self.engine_id
    }

    /// Returns the concrete engine instance identifier.
    pub fn instance_id(&self) -> (r: &EngineInstanceId)
        ensures
            r@ == self@.instance_id,
    {
        &self.instance_id
    }
}

/// Inputs required to evaluate destination eligibility from coherent
/// point-in-time snapshots.
#[derive(Debug)]
pub struct DestinationEligibilityInput<'a> {
    request: &'a DestinationRequest,
    membership: &'a MembershipSnapshot,
    observations: &'a ObservationSnapshot,
    capability: &'a CapabilityId,
    contract: &'a ContractDescriptor,
}

impl<'a> DestinationEligibilityInput<'a> {
    /// Creates eligibility input from one request and coherent snapshots.
    pub fn new(
        request: &'a DestinationRequest,
        membership: &'a MembershipSnapshot,
        observations: &'a ObservationSnapshot,
        capability: &'a CapabilityId,
        contract: &'a ContractDescriptor,
    ) -> (r: Self)
        ensures
            r.request_view() == request@,
            r.membership_view() == membership@,
            r.observations_view() == observations@,
            r.capability_view() == capability@,
            r.contract_view() == contract@,
    {
        DestinationEligibilityInput { request, membership, observations, capability, contract }
    }

    /// The destination request being evaluated.
    pub closed spec fn request_view(&self) -> DestinationRequestView {
        self.request@
    }

    /// The membership snapshot used for this evaluation.
    pub closed spec fn membership_view(&self) -> MembershipView {
        self.membership@
    }

    /// The observation snapshot used for this evaluation.
    pub closed spec fn observations_view(&self) -> ObservationsView {
        self.observations@
    }

    /// The requested capability.
    pub closed spec fn capability_view(&self) -> Seq<char> {
        self.capability@
    }

    /// The required contract.
    pub closed spec fn contract_view(&self) -> ContractView {
        self.contract@
    }

    /// Returns the destination request being evaluated.
    pub fn request(&self) -> (r: &'a DestinationRequest)
        ensures
            r@ == self.request_view(),
    {
        self.request
    }

    /// Returns the membership snapshot used for this evaluation.
    pub fn membership(&self) -> (r: &'a MembershipSnapshot)
        ensures
            r@ == self.membership_view(),
    {
        self.membership
    }

    /// Returns the observation snapshot used for this evaluation.
    pub fn observations(&self) -> (r: &'a ObservationSnapshot)
        ensures
            r@ == self.observations_view(),
    {
        self.observations
    }

    /// Returns the requested capability.
    pub fn capability(&self) -> (r: &'a CapabilityId)
        ensures
            r@ == self.capability_view(),
    {
        self.capability
    }

    /// Returns the required contract.
    pub fn contract(&self) -> (r: &'a ContractDescriptor)
        ensures
            r@ == self.contract_view(),
    {
        self.contract
    }
}

/// A concrete candidate that passed Control Plane destination eligibility.
#[derive(Debug, PartialEq, Eq)]
pub struct EligibleDestination {
    candidate: DestinationCandidate,
}

impl View for EligibleDestination {
    type V = CandidateView;

    closed spec fn view(&self) -> CandidateView {
        self.candidate@
    }
}

impl Clone for EligibleDestination {
    fn clone(&self) -> (r: Self)
        ensures
            r@ == self@,
    {
        EligibleDestination { candidate: self.candidate.clone() }
    }
}

impl EligibleDestination {
    fn new(candidate: DestinationCandidate) -> (r: EligibleDestination)
        ensures
            r@ == candidate@,
    {
        EligibleDestination { candidate }
    }

    /// Returns the eligible logical engine identity.
    pub fn engine_id(&self) -> (r: &EngineId)
        ensures
            r@ == self@.engine_id,
    {
        self.candidate.engine_id()
    }

    /// Returns the eligible concrete engine instance identity.
    pub fn instance_id(&self) -> (r: &EngineInstanceId)
        ensures
            r@ == self@.instance_id,
    {
        self.candidate.instance_id()
    }

    /// Returns the underlying destination candidate.
    pub fn candidate(&self) -> (r: &DestinationCandidate)
        ensures
            r@ == self@,
    {
        &self.candidate
    }
}

/// Errors produced by the destination eligibility stage.
#[derive(Clone, Debug, PartialEq, Eq)]
pub enum DestinationEligibilityError {
    /// The destination request itself is structurally invalid.
    InvalidRequest(DestinationValidationError),
    /// A hard explicit destination is not present in membership.
    HardDestinationNotMember(EngineInstanceId),
    /// No registered member satisfies all eligibility requirements.
    NoEligibleDestination,
}

/// The human-readable description of a destination eligibility error.
pub open spec fn eligibility_error_text(e: DestinationEligibilityError) -> Seq<char> {
    match e {
        DestinationEligibilityError::InvalidRequest(_) => "invalid destination request: "@
            + "a hard destination cannot allow fallback"@,
        DestinationEligibilityError::HardDestinationNotMember(id) => "hard destination "@ + id@
            + " is not present in membership"@,
        DestinationEligibilityError::NoEligibleDestination => "no engine instance satisfied destination eligibility"@,
    }
}

impl DestinationEligibilityError {
    /// Human-readable description of the error.
    pub fn to_string(&self) -> (r: String)
        ensures
            r@ == eligibility_error_text(*self),
    {
        match self {
            DestinationEligibilityError::InvalidRequest(error) => {
                let text = "invalid destination request: ".to_string();
                let detail = error.to_string();
                text.concat(detail.as_str())
            },
            DestinationEligibilityError::HardDestinationNotMember(instance_id) => {
                let text = "hard destination ".to_string();
                let text = text.concat(instance_id.as_str());
                text.concat(" is not present in membership")
            },
            DestinationEligibilityError::NoEligibleDestination => "no engine instance satisfied destination eligibility".to_string(),
        }
    }
}

/// The explicit target that restricts eligibility: the instance of a hard
/// explicit request.
pub open spec fn hard_target(req: DestinationRequestView) -> Option<Seq<char>> {
    match req.destination {
        DestinationView::Explicit(t) => if req.strength == DestinationStrength::Hard {
            Some(t)
        } else {
            None
        },
        DestinationView::Logical(_) => None,
    }
}

/// Whether one member is eligible: it is the hard target when there is one,
/// advertises an endpoint, is `Serving`, reports itself ready, has a
/// healthy observation under the same logical engine, advertises the
/// capability, and offers a contract compatible with the required one.
pub open spec fn member_eligible(
    req: DestinationRequestView,
    obs: ObservationsView,
    capability: Seq<char>,
    contract: ContractView,
    m: RegistrationView,
) -> bool {
    &&& (hard_target(req) matches Some(t) ==> m.engine_instance_id == t)
    &&& m.endpoint is Some
    &&& m.runtime.lifecycle == Some(LifecycleState::Serving)
    &&& (m.runtime.readiness matches Some(r) && r.state == ReadinessState::Ready)
    &&& obs.observations.dom().contains(m.engine_instance_id)
    &&& obs.observations[m.engine_instance_id].engine_id == m.engine_id
    &&& overall_health(
        obs.observations[m.engine_instance_id].liveness,
        obs.observations[m.engine_instance_id].readiness,
    ) == HealthStatus::Healthy
    &&& exists|i: int|
        0 <= i < m.capabilities.len() && (#[trigger] m.capabilities[i]).capability_id == capability
    &&& exists|i: int|
        0 <= i < m.contracts.len() && compatibility(contract, #[trigger] m.contracts[i])
            == Compatibility::Compatible
}

/// Eligibility as a predicate over members.
pub open spec fn eligible_member(
    req: DestinationRequestView,
    obs: ObservationsView,
    capability: Seq<char>,
    contract: ContractView,
) -> spec_fn(RegistrationView) -> bool {
    |m: RegistrationView| member_eligible(req, obs, capability, contract, m)
}

/// The candidate describing one member.
pub open spec fn candidate_of(m: RegistrationView) -> CandidateView {
    CandidateView { engine_id: m.engine_id, instance_id: m.engine_instance_id }
}

/// The eligible candidates, in membership order.
pub open spec fn eligible_candidates(
    req: DestinationRequestView,
    membership: MembershipView,
    obs: ObservationsView,
    capability: Seq<char>,
    contract: ContractView,
) -> Seq<CandidateView> {
    membership.ordered.filter(eligible_member(req, obs, capability, contract)).map_values(
        |m: RegistrationView| candidate_of(m),
    )
}

/// The abstract values of a list of eligible destinations.
pub open spec fn eligible_views(r: Seq<EligibleDestination>) -> Seq<CandidateView> {
    r.map_values(|x: EligibleDestination| x@)
}

#[verifier::loop_isolation(false)]
fn member_satisfies(
    input: &DestinationEligibilityInput<'_>,
    member: &super::membership::MembershipRecord,
) -> (r: bool)
    ensures
        r == member_eligible(
            input.request_view(),
            input.observations_view(),
            input.capability_view(),
            input.contract_view(),
            member@,
        ),
{
    let request = input.request();
    if let Some(target) = request.explicit_instance_id() {
        if request.is_hard() && !member.engine_instance_id().same_as(target) {
            return false;
        }
    }
    let registration = member.registration();
    if registration.endpoint().is_none() {
        return false;
    }
    let lifecycle = match registration.runtime().lifecycle() {
        Some(l) => l,
        None => {
            return false;
        },
    };
    if !is_routable(lifecycle) {
        return false;
    }
    let readiness = match registration.runtime().readiness() {
        Some(r) => r,
        None => {
            return false;
        },
    };
    if !readiness.is_ready() {
        return false;
    }
    let observation = match input.observations().get(member.engine_instance_id()) {
        Some(o) => o,
        None => {
            return false;
        },
    };
    if !observation.engine_id().same_as(member.engine_id()) || observation.health().overall()
        != HealthStatus::Healthy {
        return false;
    }
    let capabilities = registration.capabilities();
    let mut advertised = false;
    let mut i: usize = 0;
    while i < capabilities.len()
        invariant
            i <= capabilities@.len(),
            super::capability::capability_views(capabilities@) == member@.capabilities,
            advertised == exists|j: int|
                0 <= j < i && (#[trigger] member@.capabilities[j]).capability_id
                    == input.capability_view(),
        decreases capabilities@.len() - i,
    {
        assert(member@.capabilities[i as int] == capabilities@[i as int]@);
        if is_advertised(input.capability(), &capabilities[i]) {
            advertised = true;
        }
        i = i + 1;
    }
    if !advertised {
        return false;
    }
    let contracts = registration.contracts();
    let mut j: usize = 0;
    while j < contracts.len()
        invariant
            j <= contracts@.len(),
            super::contract::contract_views(contracts@) == member@.contracts,
            forall|x: int|
                0 <= x < j ==> compatibility(input.contract_view(), #[trigger] member@.contracts[x])
                    != Compatibility::Compatible,
        decreases contracts@.len() - j,
    {
        assert(member@.contracts[j as int] == contracts@[j as int]@);
        if compare_contracts(input.contract(), &contracts[j]) == Compatibility::Compatible {
            assert(compatibility(input.contract_view(), member@.contracts[j as int]) == Compatibility::Compatible);
            return true;
        }
        j = j + 1;
    }
    false
}

/// Evaluates the concrete engine instances eligible for a destination.
///
/// Only `Serving` lifecycle and a ready readiness report admit new normal
/// routing, and a missing health observation is not treated as healthy.
/// Routing policy is not evaluated here.
pub fn eligible_destinations(input: DestinationEligibilityInput<'_>) -> (r: Result<
    Vec<EligibleDestination>,
    DestinationEligibilityError,
>)
    ensures
        ({
            let req = input.request_view();
            let membership = input.membership_view();
            let eligible = eligible_candidates(
                req,
                membership,
                input.observations_view(),
                input.capability_view(),
                input.contract_view(),
            );
            &&& !request_valid(req) ==> r == Err::<Vec<EligibleDestination>, _>(
                DestinationEligibilityError::InvalidRequest(
                    DestinationValidationError::HardDestinationAllowsFallback,
                ),
            )
            &&& request_valid(req) && (hard_target(req) matches Some(t)
                && !membership.members.dom().contains(t)) ==> (r matches Err(
                DestinationEligibilityError::HardDestinationNotMember(x),
            ) && hard_target(req) == Some(x@))
            &&& request_valid(req) && !(hard_target(req) matches Some(t)
                && !membership.members.dom().contains(t)) ==> (if eligible.len() == 0 {
                r == Err::<Vec<EligibleDestination>, _>(
                    DestinationEligibilityError::NoEligibleDestination,
                )
            } else {
                r matches Ok(v) && eligible_views(v@) == eligible
            })
        }),
{
    match input.request().validate() {
        Ok(()) => {},
        Err(e) => {
            return Err(DestinationEligibilityError::InvalidRequest(e));
        },
    }
    if let Some(explicit) = input.request().explicit_instance_id() {
        if input.request().is_hard() && !input.membership().contains(explicit) {
            return Err(DestinationEligibilityError::HardDestinationNotMember(explicit.clone()));
        }
    }
    let members = input.membership().candidates();
    let ghost vs = input.membership_view().ordered;
    let ghost p = eligible_member(
        input.request_view(),
        input.observations_view(),
        input.capability_view(),
        input.contract_view(),
    );
    let ghost f = |m: RegistrationView| candidate_of(m);
    let mut eligible: Vec<EligibleDestination> = Vec::new();
    let mut i: usize = 0;
    while i < members.len()
        invariant
            vs == owned_record_views(members@),
            p == eligible_member(
                input.request_view(),
                input.observations_view(),
                input.capability_view(),
                input.contract_view(),
            ),
            f == (|m: RegistrationView| candidate_of(m)),
            i <= members@.len(),
            eligible_views(eligible@) == vs.take(i as int).filter(p).map_values(f),
        decreases members@.len() - i,
    {
        proof {
            lemma_filter_take_step(vs, p, i as int);
        }
        let member = &members[i];
        assert(vs[i as int] == member@);
        if member_satisfies(&input, member) {
            let candidate = DestinationCandidate::new(
                member.engine_id().clone(),
                member.engine_instance_id().clone(),
            );
            let ghost before = eligible@;
            eligible.push(EligibleDestination::new(candidate));
            assert(eligible_views(eligible@) =~= eligible_views(before).push(candidate_of(member@)));
            assert(vs.take(i as int).filter(p).push(vs[i as int]).map_values(f) =~= vs.take(
                i as int,
            ).filter(p).map_values(f).push(f(vs[i as int])));
        }
        i = i + 1;
    }
    proof {
        lemma_take_full(vs);
    }
    if eligible.len() == 0 {
        return Err(DestinationEligibilityError::NoEligibleDestination);
    }
    Ok(eligible)
}

/// A destination is eligible only when its member has an endpoint,
/// advertises the requested capability and offers at least one contract
/// compatible with the required one: a member none of whose contracts is
/// compatible is never returned.
pub proof fn lemma_eligible_destination_offers_capability_and_contract(
    req: DestinationRequestView,
    membership: MembershipView,
    obs: ObservationsView,
    capability: Seq<char>,
    contract: ContractView,
    i: int,
)
    requires
        0 <= i < eligible_candidates(req, membership, obs, capability, contract).len(),
    ensures
        exists|m: RegistrationView|
            #![trigger membership.ordered.contains(m)]
            {
                &&& membership.ordered.contains(m)
                &&& candidate_of(m) == eligible_candidates(req, membership, obs, capability, contract)[i]
                &&& m.endpoint is Some
                &&& exists|a: int|
                    0 <= a < m.capabilities.len() && (#[trigger] m.capabilities[a]).capability_id
                        == capability
                &&& exists|c: int|
                    0 <= c < m.contracts.len() && compatibility(contract, #[trigger] m.contracts[c])
                        == Compatibility::Compatible
            },
{
    let p = eligible_member(req, obs, capability, contract);
    let kept = membership.ordered.filter(p);
    membership.ordered.lemma_filter_pred(p, i);
    lemma_filter_subset(membership.ordered, p);
    let m = kept[i];
    assert(membership.ordered.contains(m));
    assert(member_eligible(req, obs, capability, contract, m));
}

/// A destination is eligible only when its member is serving, reports
/// ready and has a present, healthy observation under the same engine: a
/// missing health observation is never treated as healthy.
pub proof fn lemma_eligible_destination_is_serving_ready_and_observed(
    req: DestinationRequestView,
    membership: MembershipView,
    obs: ObservationsView,
    capability: Seq<char>,
    contract: ContractView,
    i: int,
)
    requires
        0 <= i < eligible_candidates(req, membership, obs, capability, contract).len(),
    ensures
        exists|m: RegistrationView|
            #![trigger membership.ordered.contains(m)]
            {
                &&& membership.ordered.contains(m)
                &&& candidate_of(m) == eligible_candidates(req, membership, obs, capability, contract)[i]
                &&& m.runtime.lifecycle == Some(LifecycleState::Serving)
                &&& (m.runtime.readiness matches Some(r) && r.state == ReadinessState::Ready)
                &&& obs.observations.dom().contains(m.engine_instance_id)
                &&& obs.observations[m.engine_instance_id].engine_id == m.engine_id
                &&& overall_health(
                    obs.observations[m.engine_instance_id].liveness,
                    obs.observations[m.engine_instance_id].readiness,
                ) == HealthStatus::Healthy
            },
{
    let p = eligible_member(req, obs, capability, contract);
    let kept = membership.ordered.filter(p);
    membership.ordered.lemma_filter_pred(p, i);
    lemma_filter_subset(membership.ordered, p);
    let m = kept[i];
    assert(membership.ordered.contains(m));
    assert(member_eligible(req, obs, capability, contract, m));
}

} // verus!
