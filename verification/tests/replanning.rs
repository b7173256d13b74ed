use nizaam_core::contracts::{ContractDescriptor, Interaction, PayloadDescriptor, Version};
use nizaam_core::control_plane::dependency::{
    CapabilityRequirement, ConditionReference, Dependency, DependencyKind, DependencyTarget,
};
use nizaam_core::control_plane::replanning::{
    CoordinationSnapshot, Replanner, ReplanningDecision, ReplanningDelta, ReplanningReason,
};
use nizaam_core::identity::{CapabilityId, ContractId, NodeId};

fn capability(value: &str) -> CapabilityRequirement {
    CapabilityRequirement::new(CapabilityId::new(value).unwrap())
}

fn contract_descriptor(capability: &str, contract: &str) -> ContractDescriptor {
    ContractDescriptor::new(
        ContractId::new(contract).unwrap(),
        CapabilityId::new(capability).unwrap(),
        Version::new(1, 0, 0),
        Interaction::Request,
        PayloadDescriptor::new("application/octet-stream", Version::new(1, 0, 0)).unwrap(),
    )
}

fn dependency(source: &str, capability_name: &str, kind: DependencyKind) -> Dependency {
    let source = NodeId::new(source).unwrap();
    let target = DependencyTarget::Capability(capability(capability_name));

    match kind {
        DependencyKind::Blocking => Dependency::blocking(source, target).unwrap(),
        DependencyKind::NonBlocking => Dependency::non_blocking(source, target).unwrap(),
        DependencyKind::Conditional => Dependency::conditional(
            source,
            target,
            ConditionReference::new("condition").unwrap(),
        )
        .unwrap(),
    }
}

fn contract_requirement(source: &str, capability_name: &str, contract_id: &str) -> Dependency {
    let requirement = CapabilityRequirement::new(CapabilityId::new(capability_name).unwrap())
        .with_contract(contract_descriptor(capability_name, contract_id))
        .unwrap();

    Dependency::blocking(
        NodeId::new(source).unwrap(),
        DependencyTarget::Capability(requirement),
    )
    .unwrap()
}

#[test]
fn identical_snapshots_do_not_require_replanning() {
    let dependency = dependency("hadith", "quran.search", DependencyKind::Blocking);

    let current = CoordinationSnapshot::from_dependencies(vec![dependency.clone()]);

    let proposed = CoordinationSnapshot::from_dependencies(vec![dependency]);

    let decision = Replanner::evaluate_snapshots(&current, &proposed);

    assert_eq!(decision, ReplanningDecision::NotRequired);
    assert!(!decision.is_required());
    assert_eq!(decision.reason(), None);
}

#[test]
fn newly_added_global_requirement_requires_replanning() {
    let existing = dependency("hadith", "quran.search", DependencyKind::Blocking);

    let added = dependency("hadith", "arabic.analyze", DependencyKind::Blocking);

    let current = CoordinationSnapshot::from_dependencies(vec![existing.clone()]);

    let proposed = CoordinationSnapshot::from_dependencies(vec![existing, added]);

    let decision = Replanner::evaluate_snapshots(&current, &proposed);

    assert_eq!(
        decision,
        ReplanningDecision::Required(ReplanningReason::CoordinationRequirementsChanged)
    );
    assert!(decision.is_required());
}

#[test]
fn removed_global_requirement_requires_replanning() {
    let retained = dependency("hadith", "quran.search", DependencyKind::Blocking);

    let removed = dependency("hadith", "arabic.analyze", DependencyKind::NonBlocking);

    let current = CoordinationSnapshot::from_dependencies(vec![retained.clone(), removed.clone()]);

    let proposed = CoordinationSnapshot::from_dependencies(vec![retained]);

    let decision = Replanner::evaluate_snapshots(&current, &proposed);

    assert_eq!(
        decision,
        ReplanningDecision::Required(ReplanningReason::CoordinationRequirementsChanged)
    );
}

#[test]
fn changing_dependency_kind_requires_replanning() {
    let current_dependency = dependency("hadith", "quran.search", DependencyKind::Blocking);

    let proposed_dependency = dependency("hadith", "quran.search", DependencyKind::NonBlocking);

    let current = CoordinationSnapshot::from_dependencies(vec![current_dependency]);

    let proposed = CoordinationSnapshot::from_dependencies(vec![proposed_dependency]);

    let decision = Replanner::evaluate_snapshots(&current, &proposed);

    assert!(decision.is_required());
    assert_eq!(
        decision.reason(),
        Some(ReplanningReason::CoordinationRequirementsChanged)
    );
}

#[test]
fn changing_contract_requirement_requires_replanning() {
    let current_dependency = contract_requirement("hadith", "quran.search", "quran.search.v1");

    let proposed_dependency = contract_requirement("hadith", "quran.search", "quran.search.v2");

    let current = CoordinationSnapshot::from_dependencies(vec![current_dependency]);

    let proposed = CoordinationSnapshot::from_dependencies(vec![proposed_dependency]);

    assert_eq!(
        Replanner::evaluate_snapshots(&current, &proposed),
        ReplanningDecision::Required(ReplanningReason::CoordinationRequirementsChanged)
    );
}

#[test]
fn requirement_arrival_order_does_not_change_replanning_result() {
    let first = dependency("hadith", "quran.search", DependencyKind::Blocking);

    let second = dependency("hadith", "arabic.analyze", DependencyKind::NonBlocking);

    let third = dependency("hadith", "hadith.lookup", DependencyKind::Conditional);

    let current =
        CoordinationSnapshot::from_dependencies(vec![first.clone(), second.clone(), third.clone()]);

    let reordered = CoordinationSnapshot::from_dependencies(vec![third, first, second]);

    assert_eq!(
        Replanner::evaluate_snapshots(&current, &reordered,),
        ReplanningDecision::NotRequired
    );
}

#[test]
fn duplicate_identical_requirements_do_not_create_a_false_change() {
    let dependency = dependency("hadith", "quran.search", DependencyKind::Blocking);

    let current = CoordinationSnapshot::from_dependencies(vec![dependency.clone()]);

    let proposed = CoordinationSnapshot::from_dependencies(vec![dependency.clone(), dependency]);

    assert_eq!(current, proposed,);

    assert_eq!(
        Replanner::evaluate_snapshots(&current, &proposed),
        ReplanningDecision::NotRequired
    );
}

#[test]
fn empty_snapshots_do_not_require_replanning() {
    let current = CoordinationSnapshot::new();
    let proposed = CoordinationSnapshot::new();

    assert_eq!(
        Replanner::evaluate_snapshots(&current, &proposed),
        ReplanningDecision::NotRequired
    );
}

#[test]
fn adding_first_global_requirement_requires_replanning() {
    let current = CoordinationSnapshot::new();

    let proposed = CoordinationSnapshot::from_dependencies(vec![dependency(
        "hadith",
        "quran.search",
        DependencyKind::Blocking,
    )]);

    assert_eq!(
        Replanner::evaluate_snapshots(&current, &proposed),
        ReplanningDecision::Required(ReplanningReason::CoordinationRequirementsChanged)
    );
}

#[test]
fn removing_last_global_requirement_requires_replanning() {
    let current = CoordinationSnapshot::from_dependencies(vec![dependency(
        "hadith",
        "quran.search",
        DependencyKind::Blocking,
    )]);

    let proposed = CoordinationSnapshot::new();

    assert_eq!(
        Replanner::evaluate_snapshots(&current, &proposed),
        ReplanningDecision::Required(ReplanningReason::CoordinationRequirementsChanged)
    );
}

#[test]
fn delta_reports_added_and_removed_dependencies() {
    let retained = dependency("hadith", "quran.search", DependencyKind::Blocking);

    let removed = dependency("hadith", "arabic.analyze", DependencyKind::NonBlocking);

    let added = dependency("hadith", "aqeedah.governance", DependencyKind::Conditional);

    let current = CoordinationSnapshot::from_dependencies(vec![retained.clone(), removed.clone()]);

    let proposed = CoordinationSnapshot::from_dependencies(vec![retained.clone(), added.clone()]);

    let delta = ReplanningDelta::between(&current, &proposed);

    assert_eq!(delta.added_count(), 1);
    assert_eq!(delta.removed_count(), 1);
    assert_eq!(delta.added(), &[added]);
    assert_eq!(delta.removed(), &[removed]);
    assert!(delta.is_changed());
}

#[test]
fn identical_snapshots_have_empty_delta() {
    let dependency = dependency("hadith", "quran.search", DependencyKind::Blocking);

    let current = CoordinationSnapshot::from_dependencies(vec![dependency.clone()]);

    let proposed = CoordinationSnapshot::from_dependencies(vec![dependency]);

    let delta = ReplanningDelta::between(&current, &proposed);

    assert!(!delta.is_changed());
    assert!(delta.added().is_empty());
    assert!(delta.removed().is_empty());
}

#[test]
fn adding_and_removing_requirements_are_both_material_changes() {
    let removed = dependency("hadith", "quran.search", DependencyKind::Blocking);

    let added = dependency("hadith", "arabic.analyze", DependencyKind::Blocking);

    let current = CoordinationSnapshot::from_dependencies(vec![removed.clone()]);

    let proposed = CoordinationSnapshot::from_dependencies(vec![added.clone()]);

    let decision = Replanner::evaluate_snapshots(&current, &proposed);

    assert!(decision.is_required());

    let delta = ReplanningDelta::between(&current, &proposed);

    assert_eq!(delta.added(), &[added]);
    assert_eq!(delta.removed(), &[removed]);
}

#[test]
fn snapshots_are_immutable_values() {
    let existing_dependency = dependency("hadith", "quran.search", DependencyKind::Blocking);

    let current = CoordinationSnapshot::from_dependencies(vec![existing_dependency.clone()]);

    let proposed = current.with_dependency(dependency(
        "hadith",
        "arabic.analyze",
        DependencyKind::Blocking,
    ));

    assert_eq!(current.len(), 1);
    assert_eq!(proposed.len(), 2);
}

#[test]
fn removing_from_snapshot_does_not_mutate_original() {
    let first = dependency("hadith", "quran.search", DependencyKind::Blocking);

    let second = dependency("hadith", "arabic.analyze", DependencyKind::Blocking);

    let current = CoordinationSnapshot::from_dependencies(vec![first.clone(), second.clone()]);

    let proposed = current.without_dependency(&second);

    assert_eq!(current.len(), 2);
    assert_eq!(proposed.len(), 1);
    assert!(current.contains(&second));
    assert!(!proposed.contains(&second));
}

#[test]
fn replanning_does_not_select_provider_or_destination() {
    let dependency = dependency("hadith", "quran.search", DependencyKind::Blocking);

    let current = CoordinationSnapshot::new();

    let proposed = CoordinationSnapshot::from_dependencies(vec![dependency]);

    let decision = Replanner::evaluate_snapshots(&current, &proposed);

    assert_eq!(
        decision,
        ReplanningDecision::Required(ReplanningReason::CoordinationRequirementsChanged)
    );
}

#[test]
fn replanning_is_deterministic_for_same_inputs() {
    let first = dependency("hadith", "quran.search", DependencyKind::Blocking);

    let second = dependency("hadith", "arabic.analyze", DependencyKind::NonBlocking);

    let current = CoordinationSnapshot::from_dependencies(vec![first.clone()]);

    let proposed = CoordinationSnapshot::from_dependencies(vec![first, second]);

    let first_result = Replanner::evaluate_snapshots(&current, &proposed);

    let second_result = Replanner::evaluate_snapshots(&current, &proposed);

    assert_eq!(first_result, second_result);
}

#[test]
fn replanning_decision_does_not_create_plan_identity() {
    let current = CoordinationSnapshot::new();

    let proposed = CoordinationSnapshot::from_dependencies(vec![dependency(
        "hadith",
        "quran.search",
        DependencyKind::Blocking,
    )]);

    let decision = Replanner::evaluate_snapshots(&current, &proposed);

    // The decision only says that a new plan version is necessary.
    // PlanId/PlanVersion creation remains the responsibility of plan.rs.
    assert!(decision.is_required());
    assert_eq!(
        decision.reason(),
        Some(ReplanningReason::CoordinationRequirementsChanged)
    );
}


