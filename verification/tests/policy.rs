use nizaam_core::control_plane::policy::{
    PolicyError, PolicyInput, RoutingCandidate, RoutingConstraints, RoutingPolicy,
    RoutingStrategy,
};
use nizaam_core::identity::EngineInstanceId;

fn instance(value: &str) -> EngineInstanceId {
    EngineInstanceId::new(value).unwrap()
}

fn candidate(value: &str) -> RoutingCandidate {
    RoutingCandidate::new(instance(value))
}

fn candidates() -> Vec<RoutingCandidate> {
    vec![
        candidate("engine-c"),
        candidate("engine-a"),
        candidate("engine-b"),
    ]
}

#[test]
fn deterministic_policy_selects_stable_instance_order() {
    let candidates = candidates();
    let constraints = RoutingConstraints::new();
    let input = PolicyInput::new(&candidates, &constraints);

    let selection = RoutingPolicy::deterministic().evaluate(&input).unwrap();

    assert_eq!(selection.instance_id().as_str(), "engine-a");
}

#[test]
fn deterministic_policy_is_independent_of_candidate_insertion_order() {
    let first = vec![
        candidate("engine-c"),
        candidate("engine-a"),
        candidate("engine-b"),
    ];

    let second = vec![
        candidate("engine-b"),
        candidate("engine-c"),
        candidate("engine-a"),
    ];

    let constraints = RoutingConstraints::new();

    let first_selection = RoutingPolicy::deterministic()
        .evaluate(&PolicyInput::new(&first, &constraints))
        .unwrap();

    let second_selection = RoutingPolicy::deterministic()
        .evaluate(&PolicyInput::new(&second, &constraints))
        .unwrap();

    assert_eq!(first_selection, second_selection);
    assert_eq!(first_selection.instance_id().as_str(), "engine-a");
}

#[test]
fn empty_candidate_set_is_rejected() {
    let candidates = [];
    let constraints = RoutingConstraints::new();

    let result =
        RoutingPolicy::deterministic().evaluate(&PolicyInput::new(&candidates, &constraints));

    assert_eq!(result, Err(PolicyError::EmptyCandidateSet));
}

#[test]
fn single_candidate_is_selected() {
    let candidates = [candidate("engine-a")];
    let constraints = RoutingConstraints::new();

    let selection = RoutingPolicy::deterministic()
        .evaluate(&PolicyInput::new(&candidates, &constraints))
        .unwrap();

    assert_eq!(selection.instance_id().as_str(), "engine-a");
}

#[test]
fn hard_destination_selects_required_candidate() {
    let candidates = candidates();

    let constraints = RoutingConstraints::new().with_hard_destination(instance("engine-b"));

    let selection = RoutingPolicy::deterministic()
        .evaluate(&PolicyInput::new(&candidates, &constraints))
        .unwrap();

    assert_eq!(selection.instance_id().as_str(), "engine-b");
}

#[test]
fn unavailable_hard_destination_does_not_fallback() {
    let candidates = candidates();

    let constraints = RoutingConstraints::new().with_hard_destination(instance("engine-x"));

    let result =
        RoutingPolicy::deterministic().evaluate(&PolicyInput::new(&candidates, &constraints));

    assert_eq!(
        result,
        Err(PolicyError::HardDestinationUnavailable(instance(
            "engine-x"
        )))
    );
}

#[test]
fn preferred_destination_is_selected_when_eligible() {
    let candidates = candidates();

    let constraints =
        RoutingConstraints::new().with_preferred_destination(instance("engine-b"));

    let selection = RoutingPolicy::deterministic()
        .evaluate(&PolicyInput::new(&candidates, &constraints))
        .unwrap();

    assert_eq!(selection.instance_id().as_str(), "engine-b");
}

#[test]
fn unavailable_preference_falls_back_to_policy_selection() {
    let candidates = candidates();

    let constraints =
        RoutingConstraints::new().with_preferred_destination(instance("engine-x"));

    let selection = RoutingPolicy::deterministic()
        .evaluate(&PolicyInput::new(&candidates, &constraints))
        .unwrap();

    assert_eq!(selection.instance_id().as_str(), "engine-a");
}

#[test]
fn round_robin_uses_stable_candidate_order() {
    let candidates = candidates();
    let constraints = RoutingConstraints::new();

    let first = RoutingPolicy::round_robin()
        .evaluate(&PolicyInput::new(&candidates, &constraints))
        .unwrap();

    let second = RoutingPolicy::round_robin()
        .evaluate(&PolicyInput::new(&candidates, &constraints).with_round_robin_offset(1))
        .unwrap();

    let third = RoutingPolicy::round_robin()
        .evaluate(&PolicyInput::new(&candidates, &constraints).with_round_robin_offset(2))
        .unwrap();

    assert_eq!(first.instance_id().as_str(), "engine-a");
    assert_eq!(second.instance_id().as_str(), "engine-b");
    assert_eq!(third.instance_id().as_str(), "engine-c");
}

#[test]
fn round_robin_wraps_around() {
    let candidates = candidates();
    let constraints = RoutingConstraints::new();

    let selection = RoutingPolicy::round_robin()
        .evaluate(&PolicyInput::new(&candidates, &constraints).with_round_robin_offset(4))
        .unwrap();

    assert_eq!(selection.instance_id().as_str(), "engine-b");
}

#[test]
fn weighted_policy_requires_selection_key() {
    let candidates = candidates();
    let constraints = RoutingConstraints::new();

    let result =
        RoutingPolicy::weighted().evaluate(&PolicyInput::new(&candidates, &constraints));

    assert_eq!(result, Err(PolicyError::MissingSelectionKey));
}

#[test]
fn weighted_policy_is_deterministic() {
    let candidates = vec![
        candidate("engine-a").with_weight(1),
        candidate("engine-b").with_weight(2),
        candidate("engine-c").with_weight(4),
    ];

    let constraints = RoutingConstraints::new();

    let input = PolicyInput::new(&candidates, &constraints).with_selection_key(42);

    let first = RoutingPolicy::weighted().evaluate(&input).unwrap();
    let second = RoutingPolicy::weighted().evaluate(&input).unwrap();

    assert_eq!(first, second);
}

#[test]
fn zero_weight_candidates_are_not_selected() {
    let candidates = vec![
        candidate("engine-a").with_weight(0),
        candidate("engine-b").with_weight(1),
    ];

    let constraints = RoutingConstraints::new();

    let input = PolicyInput::new(&candidates, &constraints).with_selection_key(42);

    let selection = RoutingPolicy::weighted().evaluate(&input).unwrap();

    assert_eq!(selection.instance_id().as_str(), "engine-b");
}

#[test]
fn all_zero_weights_are_rejected() {
    let candidates = vec![
        candidate("engine-a").with_weight(0),
        candidate("engine-b").with_weight(0),
    ];

    let constraints = RoutingConstraints::new();

    let input = PolicyInput::new(&candidates, &constraints).with_selection_key(42);

    let result = RoutingPolicy::weighted().evaluate(&input);

    assert_eq!(result, Err(PolicyError::NoPositiveWeight));
}

#[test]
fn capacity_aware_policy_prefers_lower_load() {
    let candidates = vec![
        candidate("engine-a").with_load_percent(90),
        candidate("engine-b").with_load_percent(30),
        candidate("engine-c").with_load_percent(60),
    ];

    let constraints = RoutingConstraints::new();

    let selection = RoutingPolicy::capacity_aware()
        .evaluate(&PolicyInput::new(&candidates, &constraints))
        .unwrap();

    assert_eq!(selection.instance_id().as_str(), "engine-b");
}

#[test]
fn capacity_aware_policy_uses_stable_tie_breaking() {
    let candidates = vec![
        candidate("engine-c").with_load_percent(50),
        candidate("engine-a").with_load_percent(50),
        candidate("engine-b").with_load_percent(50),
    ];

    let constraints = RoutingConstraints::new();

    let selection = RoutingPolicy::capacity_aware()
        .evaluate(&PolicyInput::new(&candidates, &constraints))
        .unwrap();

    assert_eq!(selection.instance_id().as_str(), "engine-a");
}

#[test]
fn capacity_aware_policy_prefers_known_load_over_unknown_load() {
    let candidates = vec![
        candidate("engine-a"),
        candidate("engine-b").with_load_percent(70),
    ];

    let constraints = RoutingConstraints::new();

    let selection = RoutingPolicy::capacity_aware()
        .evaluate(&PolicyInput::new(&candidates, &constraints))
        .unwrap();

    assert_eq!(selection.instance_id().as_str(), "engine-b");
}

#[test]
fn locality_aware_policy_prefers_matching_locality() {
    let candidates = vec![
        candidate("engine-a").with_locality("eu-west"),
        candidate("engine-b").with_locality("asia-south"),
        candidate("engine-c").with_locality("us-east"),
    ];

    let constraints = RoutingConstraints::new().with_preferred_locality("asia-south");

    let selection = RoutingPolicy::locality_aware()
        .evaluate(&PolicyInput::new(&candidates, &constraints))
        .unwrap();

    assert_eq!(selection.instance_id().as_str(), "engine-b");
}

#[test]
fn locality_aware_policy_uses_deterministic_fallback() {
    let candidates = vec![
        candidate("engine-c").with_locality("eu-west"),
        candidate("engine-a").with_locality("us-east"),
        candidate("engine-b").with_locality("eu-west"),
    ];

    let constraints = RoutingConstraints::new().with_preferred_locality("asia-south");

    let selection = RoutingPolicy::locality_aware()
        .evaluate(&PolicyInput::new(&candidates, &constraints))
        .unwrap();

    assert_eq!(selection.instance_id().as_str(), "engine-a");
}

#[test]
fn locality_aware_policy_without_locality_is_deterministic() {
    let candidates = candidates();
    let constraints = RoutingConstraints::new();

    let selection = RoutingPolicy::locality_aware()
        .evaluate(&PolicyInput::new(&candidates, &constraints))
        .unwrap();

    assert_eq!(selection.instance_id().as_str(), "engine-a");
}

#[test]
fn policy_does_not_mutate_candidates() {
    let candidates = vec![
        candidate("engine-a").with_load_percent(20),
        candidate("engine-b").with_load_percent(80),
    ];

    let before = candidates.clone();
    let constraints = RoutingConstraints::new();

    let _ = RoutingPolicy::capacity_aware()
        .evaluate(&PolicyInput::new(&candidates, &constraints))
        .unwrap();

    assert_eq!(candidates, before);
}

#[test]
fn policy_evaluation_does_not_change_policy() {
    let policy = RoutingPolicy::capacity_aware();
    let candidates = vec![
        candidate("engine-a").with_load_percent(20),
        candidate("engine-b").with_load_percent(80),
    ];
    let constraints = RoutingConstraints::new();

    let _ = policy
        .evaluate(&PolicyInput::new(&candidates, &constraints))
        .unwrap();

    assert_eq!(policy.strategy(), RoutingStrategy::CapacityAware);
}

#[test]
fn policy_does_not_create_or_manage_attempts() {
    // The policy API has no attempt-construction operation. A caller may
    // provide an externally-derived selection key, but policy evaluation
    // itself remains independent of retry/attempt ownership.
    let candidates = candidates();
    let constraints = RoutingConstraints::new();

    let input = PolicyInput::new(&candidates, &constraints).with_selection_key(7);

    let selection = RoutingPolicy::weighted().evaluate(&input).unwrap();

    assert!(!selection.instance_id().as_str().is_empty());
}

#[test]
fn invalid_load_is_rejected() {
    let candidates = vec![
        candidate("engine-a").with_load_percent(101),
        candidate("engine-b").with_load_percent(20),
    ];

    let constraints = RoutingConstraints::new();

    let result =
        RoutingPolicy::deterministic().evaluate(&PolicyInput::new(&candidates, &constraints));

    assert_eq!(
        result,
        Err(PolicyError::InvalidLoad {
            instance_id: instance("engine-a"),
            load_percent: 101,
        })
    );
}

#[test]
fn explicit_preference_is_not_an_authorization_bypass() {
    // The policy only searches the already-eligible candidate set. A
    // preferred instance that is absent cannot be manufactured or selected
    // merely because the caller requested it.
    let candidates = vec![candidate("engine-a")];

    let constraints =
        RoutingConstraints::new().with_preferred_destination(instance("engine-x"));

    let selection = RoutingPolicy::deterministic()
        .evaluate(&PolicyInput::new(&candidates, &constraints))
        .unwrap();

    assert_eq!(selection.instance_id().as_str(), "engine-a");
}


