use nizaam_core::contracts::{ContractDescriptor, Interaction, PayloadDescriptor, Version};
use nizaam_core::control_plane::dependency::CapabilityRequirement;
use nizaam_core::control_plane::destination::{
    Destination, DestinationCandidate, DestinationRequest, DestinationStrength,
    DestinationValidationError, FallbackPolicy,
};
use nizaam_core::identity::{CapabilityId, ContractId, EngineId, EngineInstanceId};

fn capability_id(value: &str) -> CapabilityId {
    CapabilityId::new(value).expect("valid capability id")
}

fn engine_id(value: &str) -> EngineId {
    EngineId::new(value).expect("valid engine id")
}

fn instance_id(value: &str) -> EngineInstanceId {
    EngineInstanceId::new(value).expect("valid instance id")
}

fn capability_requirement(value: &str) -> CapabilityRequirement {
    CapabilityRequirement::new(capability_id(value))
}

fn contract(capability: &str) -> ContractDescriptor {
    ContractDescriptor::new(
        ContractId::new("test.contract").expect("valid contract id"),
        capability_id(capability),
        Version::new(1, 0, 0),
        Interaction::Request,
        PayloadDescriptor::new("application/json", Version::new(1, 0, 0))
            .expect("valid payload descriptor"),
    )
}

#[test]
fn logical_destination_preserves_capability_requirement() {
    let requirement = capability_requirement("quran.search");
    let destination = Destination::logical(requirement.clone());

    assert!(destination.is_logical());
    assert!(!destination.is_explicit());
    assert_eq!(
        destination
            .logical_destination()
            .expect("logical destination")
            .requirement(),
        &requirement
    );
}

#[test]
fn explicit_destination_preserves_instance_id() {
    let instance = instance_id("quran-02");
    let destination = Destination::explicit(instance.clone());

    assert!(destination.is_explicit());
    assert!(!destination.is_logical());
    assert_eq!(
        destination
            .explicit_destination()
            .expect("explicit destination")
            .instance_id(),
        &instance
    );
}

#[test]
fn explicit_destination_does_not_store_engine_id() {
    let destination = Destination::explicit(instance_id("quran-02"));

    assert_eq!(
        destination.instance_id().expect("instance id").as_str(),
        "quran-02"
    );
}

#[test]
fn hard_destination_forbids_fallback() {
    let destination = Destination::explicit(instance_id("quran-02"));
    let request = DestinationRequest::hard(destination);

    assert!(request.is_hard());
    assert!(!request.allows_fallback());
    assert_eq!(request.fallback(), FallbackPolicy::Forbidden);
    assert!(request.validate().is_ok());
}

#[test]
fn preferred_destination_can_allow_fallback() {
    let destination = Destination::explicit(instance_id("quran-02"));
    let request = DestinationRequest::preferred(destination, FallbackPolicy::Allowed);

    assert!(request.strength().is_preferred());
    assert!(request.allows_fallback());
    assert!(request.validate().is_ok());
}

#[test]
fn preferred_destination_can_forbid_fallback() {
    let destination = Destination::explicit(instance_id("quran-02"));
    let request = DestinationRequest::preferred(destination, FallbackPolicy::Forbidden);

    assert!(request.strength().is_preferred());
    assert!(!request.allows_fallback());
    assert!(request.validate().is_ok());
}

#[test]
fn hard_destination_with_allowed_fallback_is_rejected() {
    let destination = Destination::explicit(instance_id("quran-02"));

    let result = DestinationRequest::new(
        destination,
        DestinationStrength::Hard,
        FallbackPolicy::Allowed,
    );

    assert_eq!(
        result,
        Err(DestinationValidationError::HardDestinationAllowsFallback)
    );
}

#[test]
fn hard_logical_destination_preserves_requirement() {
    let requirement = capability_requirement("quran.search");
    let request = DestinationRequest::hard_logical(requirement.clone());

    assert!(request.is_hard());
    assert!(!request.allows_fallback());

    let logical = request
        .destination()
        .logical_destination()
        .expect("logical destination");

    assert_eq!(logical.requirement(), &requirement);
}

#[test]
fn hard_explicit_destination_targets_exact_instance() {
    let request = DestinationRequest::hard_explicit(instance_id("quran-02"));

    assert_eq!(
        request
            .explicit_instance_id()
            .expect("explicit instance")
            .as_str(),
        "quran-02"
    );
}

#[test]
fn preferred_logical_destination_can_allow_fallback() {
    let requirement = capability_requirement("quran.search");

    let request =
        DestinationRequest::preferred_logical(requirement.clone(), FallbackPolicy::Allowed);

    assert!(request.strength().is_preferred());
    assert!(request.allows_fallback());

    assert_eq!(
        request
            .destination()
            .logical_destination()
            .expect("logical destination")
            .requirement(),
        &requirement
    );
}

#[test]
fn preferred_explicit_destination_can_allow_fallback() {
    let request = DestinationRequest::preferred_explicit(
        instance_id("quran-02"),
        FallbackPolicy::Allowed,
    );

    assert_eq!(
        request
            .explicit_instance_id()
            .expect("explicit instance")
            .as_str(),
        "quran-02"
    );
    assert!(request.allows_fallback());
}

#[test]
fn destination_candidate_preserves_both_engine_identities() {
    let candidate = DestinationCandidate::new(engine_id("quran"), instance_id("quran-02"));

    assert_eq!(candidate.engine_id().as_str(), "quran");
    assert_eq!(candidate.instance_id().as_str(), "quran-02");
}

#[test]
fn destination_request_is_independent_of_membership_state() {
    let request = DestinationRequest::hard_explicit(instance_id("quran-02"));

    // Construction succeeds without consulting membership.
    // Whether quran-02 currently exists or is eligible is intentionally
    // outside this module.
    assert_eq!(
        request
            .explicit_instance_id()
            .expect("explicit instance")
            .as_str(),
        "quran-02"
    );
}

#[test]
fn logical_destination_does_not_resolve_provider_or_instance() {
    let request = DestinationRequest::hard_logical(capability_requirement("quran.search"));

    assert!(request.explicit_instance_id().is_none());
    assert_eq!(
        request
            .destination()
            .logical_destination()
            .expect("logical destination")
            .requirement()
            .capability_id()
            .as_str(),
        "quran.search"
    );
}

#[test]
fn destination_strength_semantics_are_distinct() {
    assert!(DestinationStrength::Hard.is_hard());
    assert!(!DestinationStrength::Hard.is_preferred());

    assert!(!DestinationStrength::Preferred.is_hard());
    assert!(DestinationStrength::Preferred.is_preferred());
}

#[test]
fn fallback_policy_semantics_are_distinct() {
    assert!(FallbackPolicy::Allowed.is_allowed());
    assert!(!FallbackPolicy::Allowed.is_forbidden());

    assert!(!FallbackPolicy::Forbidden.is_allowed());
    assert!(FallbackPolicy::Forbidden.is_forbidden());
}

#[test]
fn capability_requirement_contract_can_be_used_as_logical_destination() {
    let requirement = CapabilityRequirement::new(capability_id("quran.search"))
        .with_contract(contract("quran.search"))
        .expect("compatible contract");

    let destination = Destination::logical(requirement.clone());

    assert_eq!(
        destination
            .logical_destination()
            .expect("logical destination")
            .requirement(),
        &requirement
    );
}

