use nizaam_core::contracts::{
    compare_contracts, ContractDescriptor, Interaction, PayloadDescriptor, Version,
};
use nizaam_core::control_plane::dependency::{
    CapabilityRequirement, Dependency, DependencyTarget, DependencyValidationError,
};
use nizaam_core::control_plane::membership::MembershipError;
use nizaam_core::control_plane::observations::ObservationError;
use nizaam_core::control_plane::plan::{
    InvalidPlanStateTransition, Plan, PlanBuildError, PlanNode, PlanState, PlanVersion,
};
use nizaam_core::control_plane::policy::{
    PolicyError, PolicyInput, RoutingCandidate, RoutingConstraints, RoutingPolicy,
};
use nizaam_core::control_plane::provider::ProviderResolutionError;
use nizaam_core::control_plane::registration::RegistrationValidationError;
use nizaam_core::control_plane::registry::RegistryError;
use nizaam_core::control_plane::replanning::{CoordinationSnapshot, Replanner, ReplanningDelta};
use nizaam_core::control_plane::routing::RoutingError;
use nizaam_core::identity::{
    AttemptId, CapabilityId, ContractId, EngineId, EngineInstanceId, NodeId, OperationId, PlanId,
};
use nizaam_core::status::Compatibility;

fn instance(value: &str) -> EngineInstanceId {
    EngineInstanceId::new(value).unwrap()
}

fn engine(value: &str) -> EngineId {
    EngineId::new(value).unwrap()
}

fn node_id(value: &str) -> NodeId {
    NodeId::new(value).unwrap()
}

fn candidates(weights: &[(&str, u32)]) -> Vec<RoutingCandidate> {
    weights
        .iter()
        .map(|(id, weight)| RoutingCandidate::new(instance(id)).with_weight(*weight))
        .collect()
}

fn weighted(cs: &[RoutingCandidate], key: Option<u64>) -> Result<String, PolicyError> {
    let constraints = RoutingConstraints::new();
    let mut input = PolicyInput::new(cs, &constraints);
    if let Some(key) = key {
        input = input.with_selection_key(key);
    }
    RoutingPolicy::weighted()
        .evaluate(&input)
        .map(|selection| selection.instance_id().as_str().to_owned())
}

fn contract(contract: &str, major: u64, minor: u64) -> ContractDescriptor {
    ContractDescriptor::new(
        ContractId::new(contract).unwrap(),
        CapabilityId::new("quran.search").unwrap(),
        Version::new(major, minor, 0),
        Interaction::Request,
        PayloadDescriptor::new("application/json", Version::new(1, 0, 0)).unwrap(),
    )
}

fn dependency(source: &str, target: &str) -> Dependency {
    Dependency::blocking(node_id(source), DependencyTarget::Node(node_id(target))).unwrap()
}

#[test]
fn weighted_selection_uses_the_stable_hash_of_key_and_identity() {
    let equal = candidates(&[("arabic-01", 1), ("arabic-02", 1), ("arabic-03", 1)]);

    assert_eq!(weighted(&equal, Some(42)), Ok("arabic-01".to_owned()));
    assert_eq!(weighted(&equal, Some(7)), Ok("arabic-02".to_owned()));

    let unequal = candidates(&[("arabic-01", 1), ("arabic-02", 3), ("arabic-03", 0)]);
    assert_eq!(weighted(&unequal, Some(42)), Ok("arabic-02".to_owned()));
}

#[test]
fn weighted_selection_never_picks_zero_weight_and_needs_a_key() {
    let zero = candidates(&[("arabic-01", 0), ("arabic-02", 0)]);

    assert_eq!(weighted(&zero, Some(42)), Err(PolicyError::NoPositiveWeight));
    assert_eq!(
        weighted(&candidates(&[("arabic-01", 1)]), None),
        Err(PolicyError::MissingSelectionKey)
    );
}

#[test]
fn selection_does_not_depend_on_candidate_order() {
    let forward = candidates(&[("arabic-03", 1), ("arabic-01", 1), ("arabic-02", 1)]);
    let backward = candidates(&[("arabic-02", 1), ("arabic-01", 1), ("arabic-03", 1)]);
    let constraints = RoutingConstraints::new();

    for policy in [RoutingPolicy::deterministic(), RoutingPolicy::capacity_aware()] {
        let a = policy.evaluate(&PolicyInput::new(&forward, &constraints)).unwrap();
        let b = policy.evaluate(&PolicyInput::new(&backward, &constraints)).unwrap();
        assert_eq!(a.instance_id(), b.instance_id());
        assert_eq!(a.instance_id().as_str(), "arabic-01");
    }
    assert_eq!(weighted(&forward, Some(7)), weighted(&backward, Some(7)));
}

#[test]
fn round_robin_wraps_over_the_ordered_candidates() {
    let cs = candidates(&[("arabic-03", 1), ("arabic-01", 1), ("arabic-02", 1)]);
    let constraints = RoutingConstraints::new();

    for (offset, expected) in [(0, "arabic-01"), (1, "arabic-02"), (2, "arabic-03"), (4, "arabic-02")] {
        let input = PolicyInput::new(&cs, &constraints).with_round_robin_offset(offset);
        let selection = RoutingPolicy::round_robin().evaluate(&input).unwrap();
        assert_eq!(selection.instance_id().as_str(), expected);
    }
}

#[test]
fn hard_destination_is_selected_or_fails_without_fallback() {
    let cs = candidates(&[("arabic-01", 1), ("arabic-02", 1)]);
    let present = RoutingConstraints::new().with_hard_destination(instance("arabic-02"));
    let absent = RoutingConstraints::new().with_hard_destination(instance("arabic-09"));

    let selection = RoutingPolicy::deterministic()
        .evaluate(&PolicyInput::new(&cs, &present))
        .unwrap();
    assert_eq!(selection.instance_id().as_str(), "arabic-02");
    assert_eq!(
        RoutingPolicy::deterministic().evaluate(&PolicyInput::new(&cs, &absent)),
        Err(PolicyError::HardDestinationUnavailable(instance("arabic-09")))
    );
}

#[test]
fn policy_errors_render_their_texts() {
    assert_eq!(
        PolicyError::InvalidLoad { instance_id: instance("arabic-01"), load_percent: 150 }.to_string(),
        "routing candidate arabic-01 has invalid load percentage 150"
    );
    assert_eq!(
        PolicyError::HardDestinationUnavailable(instance("arabic-09")).to_string(),
        "hard routing destination is not among the eligible candidates: arabic-09"
    );
    assert_eq!(PolicyError::EmptyCandidateSet.to_string(), "routing policy received no eligible candidates");
}

#[test]
fn control_plane_errors_render_their_texts() {
    assert_eq!(
        ObservationError::NotFound(instance("quran-01")).to_string(),
        "no observation exists for engine instance quran-01"
    );
    assert_eq!(
        MembershipError::EngineIdentityMismatch {
            instance_id: instance("quran-01"),
            registered_engine_id: engine("quran"),
            updated_engine_id: engine("hadith"),
        }
        .to_string(),
        "engine instance quran-01 belongs to engine quran, but update specifies engine hadith"
    );
    assert_eq!(
        RegistryError::InvalidRegistration(RegistrationValidationError::EmptyEndpoint).to_string(),
        "invalid engine registration: an engine registration endpoint must not be empty"
    );
    assert_eq!(
        ProviderResolutionError::NoCompatibleProvider {
            capability_id: CapabilityId::new("quran.search").unwrap(),
            contract_id: ContractId::new("quran.contract").unwrap(),
        }
        .to_string(),
        "no compatible provider for capability quran.search and contract quran.contract"
    );
    assert_eq!(
        RoutingError::AttemptMismatch {
            resolution_attempt_id: AttemptId::new("attempt-1").unwrap(),
            routing_attempt_id: AttemptId::new("attempt-2").unwrap(),
        }
        .to_string(),
        "routing attempt mismatch: resolution context belongs to attempt attempt-1, routing was requested for attempt attempt-2"
    );
    assert_eq!(
        DependencyValidationError::ConditionRequired.to_string(),
        "conditional dependency requires a condition reference"
    );
    assert_eq!(
        InvalidPlanStateTransition { from: PlanState::Completed, to: PlanState::Active }.to_string(),
        "invalid plan state transition: Completed -> Active"
    );
}

#[test]
fn dependency_cycle_error_lists_the_cycle() {
    let mut builder = Plan::builder(PlanId::new("plan-1").unwrap(), OperationId::new("op-1").unwrap());
    for name in ["a", "b", "c"] {
        builder = builder
            .add_node(PlanNode::new(node_id(name), CapabilityRequirement::new(CapabilityId::new("cap").unwrap())))
            .unwrap();
    }
    for (source, target) in [("a", "b"), ("b", "c"), ("c", "a")] {
        builder = builder.add_dependency(dependency(source, target)).unwrap();
    }

    let error = builder.build().unwrap_err();

    assert!(matches!(error, PlanBuildError::Validation(_)));
    assert_eq!(error.to_string(), "dependency cycle detected: a -> b -> c -> a");
}

fn cycle_report(nodes: &[&str], edges: &[(&str, &str)]) -> String {
    let mut builder = Plan::builder(PlanId::new("plan-1").unwrap(), OperationId::new("op-1").unwrap());
    for name in nodes {
        builder = builder
            .add_node(PlanNode::new(node_id(name), CapabilityRequirement::new(CapabilityId::new("cap").unwrap())))
            .unwrap();
    }
    for (source, target) in edges {
        builder = builder.add_dependency(dependency(source, target)).unwrap();
    }
    builder.build().unwrap_err().to_string()
}

#[test]
fn cycle_report_does_not_depend_on_insertion_order() {
    let first = cycle_report(&["a", "b", "c", "d"], &[("a", "b"), ("b", "a"), ("c", "d"), ("d", "c")]);
    let second = cycle_report(
        &["d", "c", "b", "a"],
        &[("d", "c"), ("c", "d"), ("b", "a"), ("a", "b"), ("a", "b")],
    );
    assert_eq!(first, "dependency cycle detected: a -> b -> a");
    assert_eq!(second, first);
}

#[test]
fn terminal_plan_states_are_final() {
    for terminal in [PlanState::Superseded, PlanState::Completed, PlanState::Failed] {
        for next in [
            PlanState::Draft,
            PlanState::Validated,
            PlanState::Active,
            PlanState::Superseded,
            PlanState::Completed,
            PlanState::Failed,
        ] {
            assert!(!terminal.can_transition_to(next));
        }
    }
    assert_eq!(PlanVersion::first().to_string(), "1");
    assert_eq!(PlanVersion::new(42).unwrap().to_string(), "42");
}

#[test]
fn contract_compatibility_follows_semantic_versions() {
    let required = contract("quran.contract", 1, 2);

    assert_eq!(compare_contracts(&required, &required), Compatibility::Compatible);
    assert_eq!(compare_contracts(&required, &contract("quran.contract", 1, 3)), Compatibility::Compatible);
    assert_eq!(compare_contracts(&required, &contract("quran.contract", 1, 1)), Compatibility::Unknown);
    assert_eq!(compare_contracts(&required, &contract("quran.contract", 2, 2)), Compatibility::Incompatible);
    assert_eq!(Version::new(1, 2, 3).to_string(), "1.2.3");
}

#[test]
fn replanning_ignores_arrival_order_and_duplicates() {
    let first = CoordinationSnapshot::from_dependencies(vec![
        dependency("a", "b"),
        dependency("b", "c"),
        dependency("a", "b"),
    ]);
    let second = CoordinationSnapshot::from_dependencies(vec![dependency("b", "c"), dependency("a", "b")]);

    assert_eq!(first.len(), 2);
    assert!(first.same_as(&second));
    assert!(!Replanner::evaluate_snapshots(&first, &second).is_required());
    assert!(!ReplanningDelta::between(&first, &second).is_changed());

    let third = CoordinationSnapshot::from_dependencies(vec![dependency("a", "b")]);
    let delta = ReplanningDelta::between(&first, &third);
    assert!(Replanner::evaluate_snapshots(&first, &third).is_required());
    assert_eq!(delta.removed_count(), 1);
    assert_eq!(delta.added_count(), 0);
}
