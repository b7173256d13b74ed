use nizaam_core::control_plane::dependency::{
    CapabilityRequirement, Dependency, DependencyKind, DependencyTarget,
};
use nizaam_core::control_plane::plan::{
    InvalidPlanStateTransition, Plan, PlanBuildError, PlanNode, PlanState, PlanValidationError,
    PlanVersion,
};
use nizaam_core::identity::{CapabilityId, NodeId, OperationId, PlanId};

fn plan_id(value: &str) -> PlanId {
    PlanId::new(value).unwrap()
}

fn operation_id(value: &str) -> OperationId {
    OperationId::new(value).unwrap()
}

fn node_id(value: &str) -> NodeId {
    NodeId::new(value).unwrap()
}

fn capability(value: &str) -> CapabilityId {
    CapabilityId::new(value).unwrap()
}

fn node(id: &str, capability_id: &str) -> PlanNode {
    PlanNode::new(
        node_id(id),
        CapabilityRequirement::new(capability(capability_id)),
    )
}

// -------------------------------------------------------------------------
// PlanVersion
// -------------------------------------------------------------------------

#[test]
fn plan_version_starts_at_one() {
    assert_eq!(PlanVersion::first().value(), 1);
    assert_eq!(PlanVersion::default(), PlanVersion::first());
}

#[test]
fn plan_version_rejects_zero() {
    assert_eq!(PlanVersion::new(0), None);
}

#[test]
fn plan_version_preserves_numeric_value() {
    let version = PlanVersion::new(42).unwrap();

    assert_eq!(version.value(), 42);
    assert_eq!(version.to_string(), "42");
}

#[test]
fn plan_version_next_does_not_mutate_previous_version() {
    let version = PlanVersion::first();

    let next = version.next().unwrap();

    assert_eq!(version.value(), 1);
    assert_eq!(next.value(), 2);
}

// -------------------------------------------------------------------------
// Construction
// -------------------------------------------------------------------------

#[test]
fn builder_constructs_draft_plan() {
    let plan = Plan::builder(plan_id("plan-1"), operation_id("op-1"))
        .add_node(node("n1", "quran.search"))
        .unwrap()
        .build()
        .unwrap();

    assert_eq!(plan.plan_id().as_str(), "plan-1");
    assert_eq!(plan.operation_id().as_str(), "op-1");
    assert_eq!(plan.version(), PlanVersion::first());
    assert_eq!(plan.state(), PlanState::Draft);
    assert_eq!(plan.nodes().len(), 1);
    assert!(plan.dependencies().is_empty());
}

#[test]
fn duplicate_node_ids_are_rejected() {
    let result = Plan::builder(plan_id("plan-1"), operation_id("op-1"))
        .add_node(node("n1", "quran.search"))
        .unwrap()
        .add_node(node("n1", "quran.retrieve"));

    assert!(matches!(
        result,
        Err(PlanBuildError::DuplicateNodeId { .. })
    ));
}

#[test]
fn explicit_plan_version_is_preserved() {
    let version = PlanVersion::new(7).unwrap();

    let plan = Plan::builder(plan_id("plan-1"), operation_id("op-1"))
        .version(version)
        .build()
        .unwrap();

    assert_eq!(plan.version(), version);
}

// -------------------------------------------------------------------------
// Dependency validation
// -------------------------------------------------------------------------

#[test]
fn missing_dependency_source_is_rejected() {
    let dependency = Dependency::blocking(
        node_id("missing"),
        DependencyTarget::Node(node_id("target")),
    )
    .unwrap();

    let result = Plan::builder(plan_id("plan-1"), operation_id("op-1"))
        .add_node(node("target", "quran.search"))
        .unwrap()
        .add_dependency(dependency)
        .unwrap()
        .build();

    assert!(matches!(
        result,
        Err(PlanBuildError::Validation(
            PlanValidationError::MissingSourceNode { .. }
        ))
    ));
}

#[test]
fn missing_node_target_is_rejected() {
    let dependency = Dependency::blocking(
        node_id("source"),
        DependencyTarget::Node(node_id("missing")),
    )
    .unwrap();

    let result = Plan::builder(plan_id("plan-1"), operation_id("op-1"))
        .add_node(node("source", "hadith.search"))
        .unwrap()
        .add_dependency(dependency)
        .unwrap()
        .build();

    assert!(matches!(
        result,
        Err(PlanBuildError::Validation(
            PlanValidationError::MissingTargetNode { .. }
        ))
    ));
}

#[test]
fn capability_target_does_not_require_concrete_node() {
    let dependency = Dependency::blocking(
        node_id("source"),
        DependencyTarget::Capability(CapabilityRequirement::new(capability("quran.search"))),
    )
    .unwrap();

    let plan = Plan::builder(plan_id("plan-1"), operation_id("op-1"))
        .add_node(node("source", "hadith.search"))
        .unwrap()
        .add_dependency(dependency)
        .unwrap()
        .build()
        .unwrap();

    assert!(plan.validate().is_ok());
}

// -------------------------------------------------------------------------
// Cycle detection
// -------------------------------------------------------------------------

#[test]
fn node_to_node_cycle_is_rejected() {
    let a_to_b =
        Dependency::blocking(node_id("a"), DependencyTarget::Node(node_id("b"))).unwrap();

    let b_to_c =
        Dependency::blocking(node_id("b"), DependencyTarget::Node(node_id("c"))).unwrap();

    let c_to_a =
        Dependency::blocking(node_id("c"), DependencyTarget::Node(node_id("a"))).unwrap();

    let result = Plan::builder(plan_id("plan-1"), operation_id("op-1"))
        .add_node(node("a", "cap.a"))
        .unwrap()
        .add_node(node("b", "cap.b"))
        .unwrap()
        .add_node(node("c", "cap.c"))
        .unwrap()
        .add_dependency(a_to_b)
        .unwrap()
        .add_dependency(b_to_c)
        .unwrap()
        .add_dependency(c_to_a)
        .unwrap()
        .build();

    assert!(matches!(
        result,
        Err(PlanBuildError::Validation(
            PlanValidationError::DependencyCycle { .. }
        ))
    ));
}

#[test]
fn acyclic_node_graph_is_accepted() {
    let a_to_b =
        Dependency::blocking(node_id("a"), DependencyTarget::Node(node_id("b"))).unwrap();

    let b_to_c =
        Dependency::blocking(node_id("b"), DependencyTarget::Node(node_id("c"))).unwrap();

    let plan = Plan::builder(plan_id("plan-1"), operation_id("op-1"))
        .add_node(node("a", "cap.a"))
        .unwrap()
        .add_node(node("b", "cap.b"))
        .unwrap()
        .add_node(node("c", "cap.c"))
        .unwrap()
        .add_dependency(a_to_b)
        .unwrap()
        .add_dependency(b_to_c)
        .unwrap()
        .build()
        .unwrap();

    assert!(plan.validate().is_ok());
    assert_eq!(plan.dependencies_from(&node_id("a")).len(), 1);
}

#[test]
fn cycle_detection_is_deterministic() {
    let dependencies = [
        Dependency::blocking(node_id("b"), DependencyTarget::Node(node_id("c"))).unwrap(),
        Dependency::blocking(node_id("a"), DependencyTarget::Node(node_id("b"))).unwrap(),
        Dependency::blocking(node_id("c"), DependencyTarget::Node(node_id("a"))).unwrap(),
    ];

    let mut builder = Plan::builder(plan_id("plan-1"), operation_id("op-1"));

    for node_name in ["c", "a", "b"] {
        builder = builder.add_node(node(node_name, "cap")).unwrap();
    }

    for dependency in dependencies {
        builder = builder.add_dependency(dependency).unwrap();
    }

    let error = builder.build().unwrap_err();

    match error {
        PlanBuildError::Validation(PlanValidationError::DependencyCycle { nodes }) => {
            assert_eq!(nodes.len(), 4);
            assert_eq!(nodes[0].as_str(), "a");
            assert_eq!(nodes[1].as_str(), "b");
            assert_eq!(nodes[2].as_str(), "c");
            assert_eq!(nodes[3].as_str(), "a");
        }

        other => panic!("unexpected error: {other:?}"),
    }
}

// -------------------------------------------------------------------------
// Accessors
// -------------------------------------------------------------------------

#[test]
fn node_lookup_returns_expected_node() {
    let plan = Plan::builder(plan_id("plan-1"), operation_id("op-1"))
        .add_node(node("n1", "quran.search"))
        .unwrap()
        .build()
        .unwrap();

    let found = plan.node(&node_id("n1")).unwrap();

    assert_eq!(found.node_id().as_str(), "n1");
    assert_eq!(found.capability_id().as_str(), "quran.search");
}

#[test]
fn dependency_lookup_filters_by_source() {
    let dependency =
        Dependency::blocking(node_id("a"), DependencyTarget::Node(node_id("b"))).unwrap();

    let plan = Plan::builder(plan_id("plan-1"), operation_id("op-1"))
        .add_node(node("a", "cap.a"))
        .unwrap()
        .add_node(node("b", "cap.b"))
        .unwrap()
        .add_dependency(dependency)
        .unwrap()
        .build()
        .unwrap();

    assert_eq!(plan.dependencies_from(&node_id("a")).len(), 1);

    assert_eq!(plan.dependencies_from(&node_id("b")).len(), 0);
}

// -------------------------------------------------------------------------
// Lifecycle
// -------------------------------------------------------------------------

#[test]
fn draft_can_transition_to_validated() {
    let mut plan = Plan::builder(plan_id("plan-1"), operation_id("op-1"))
        .build()
        .unwrap();

    assert!(plan.transition_state(PlanState::Validated).is_ok());

    assert_eq!(plan.state(), PlanState::Validated);
}

#[test]
fn validated_can_transition_to_active() {
    let mut plan = Plan::builder(plan_id("plan-1"), operation_id("op-1"))
        .build()
        .unwrap();

    plan.transition_state(PlanState::Validated).unwrap();

    plan.transition_state(PlanState::Active).unwrap();

    assert_eq!(plan.state(), PlanState::Active);
}

#[test]
fn draft_cannot_transition_directly_to_active() {
    let mut plan = Plan::builder(plan_id("plan-1"), operation_id("op-1"))
        .build()
        .unwrap();

    assert_eq!(
        plan.transition_state(PlanState::Active),
        Err(InvalidPlanStateTransition {
            from: PlanState::Draft,
            to: PlanState::Active,
        })
    );
}

#[test]
fn active_can_complete() {
    let mut plan = Plan::builder(plan_id("plan-1"), operation_id("op-1"))
        .build()
        .unwrap();

    plan.transition_state(PlanState::Validated).unwrap();

    plan.transition_state(PlanState::Active).unwrap();

    plan.transition_state(PlanState::Completed).unwrap();

    assert_eq!(plan.state(), PlanState::Completed);
}

#[test]
fn active_can_fail() {
    let mut plan = Plan::builder(plan_id("plan-1"), operation_id("op-1"))
        .build()
        .unwrap();

    plan.transition_state(PlanState::Validated).unwrap();

    plan.transition_state(PlanState::Active).unwrap();

    plan.transition_state(PlanState::Failed).unwrap();

    assert_eq!(plan.state(), PlanState::Failed);
}

#[test]
fn active_can_be_superseded() {
    let mut plan = Plan::builder(plan_id("plan-1"), operation_id("op-1"))
        .build()
        .unwrap();

    plan.transition_state(PlanState::Validated).unwrap();

    plan.transition_state(PlanState::Active).unwrap();

    plan.transition_state(PlanState::Superseded).unwrap();

    assert_eq!(plan.state(), PlanState::Superseded);
}

#[test]
fn plan_terminal_state_cannot_be_reactivated() {
    let mut plan = Plan::builder(plan_id("plan-1"), operation_id("op-1"))
        .build()
        .unwrap();

    plan.transition_state(PlanState::Validated).unwrap();

    plan.transition_state(PlanState::Active).unwrap();

    plan.transition_state(PlanState::Completed).unwrap();

    assert!(plan.transition_state(PlanState::Active).is_err());
}

#[test]
fn state_transition_does_not_change_plan_version() {
    let mut plan = Plan::builder(plan_id("plan-1"), operation_id("op-1"))
        .build()
        .unwrap();

    let version = plan.version();

    plan.transition_state(PlanState::Validated).unwrap();

    plan.transition_state(PlanState::Active).unwrap();

    assert_eq!(plan.version(), version);
}

// -------------------------------------------------------------------------
// Architectural boundaries
// -------------------------------------------------------------------------

#[test]
fn plan_keeps_dependencies_at_plan_level() {
    let dependency =
        Dependency::blocking(node_id("a"), DependencyTarget::Node(node_id("b"))).unwrap();

    let plan = Plan::builder(plan_id("plan-1"), operation_id("op-1"))
        .add_node(node("a", "cap.a"))
        .unwrap()
        .add_node(node("b", "cap.b"))
        .unwrap()
        .add_dependency(dependency)
        .unwrap()
        .build()
        .unwrap();

    assert_eq!(plan.dependencies()[0].kind(), DependencyKind::Blocking);

    assert_eq!(plan.nodes()[0].capability_id().as_str(), "cap.a");
}

#[test]
fn capability_requirement_remains_unresolved_at_plan_level() {
    let node = node("n1", "quran.search");

    assert_eq!(node.capability_id().as_str(), "quran.search");

    assert!(node.requirement().contract().is_none());
}

#[test]
fn plan_has_no_runtime_attempt_state() {
    let plan = Plan::builder(plan_id("plan-1"), operation_id("op-1"))
        .build()
        .unwrap();

    assert!(plan.nodes().is_empty());
    assert!(plan.dependencies().is_empty());
}

// -------------------------------------------------------------------------
// State semantics
// -------------------------------------------------------------------------

#[test]
fn terminal_state_semantics_are_correct() {
    assert!(!PlanState::Draft.is_terminal());
    assert!(!PlanState::Validated.is_terminal());
    assert!(!PlanState::Active.is_terminal());

    assert!(PlanState::Superseded.is_terminal());
    assert!(PlanState::Completed.is_terminal());
    assert!(PlanState::Failed.is_terminal());
}

#[test]
fn only_draft_is_structurally_mutable() {
    assert!(PlanState::Draft.is_mutable());
    assert!(!PlanState::Validated.is_mutable());
    assert!(!PlanState::Active.is_mutable());
    assert!(!PlanState::Superseded.is_mutable());
    assert!(!PlanState::Completed.is_mutable());
    assert!(!PlanState::Failed.is_mutable());
}

// -------------------------------------------------------------------------
// Identity separation
// -------------------------------------------------------------------------

#[test]
fn plan_identity_and_operation_identity_are_distinct_values() {
    let plan = Plan::builder(plan_id("plan-1"), operation_id("op-1"))
        .build()
        .unwrap();

    assert_eq!(plan.plan_id().as_str(), "plan-1");
    assert_eq!(plan.operation_id().as_str(), "op-1");
    assert_ne!(plan.plan_id().as_str(), plan.operation_id().as_str());
}

#[test]
fn changing_plan_version_does_not_change_operation_identity() {
    let plan = Plan::builder(plan_id("plan-1"), operation_id("op-1"))
        .version(PlanVersion::new(2).unwrap())
        .build()
        .unwrap();

    assert_eq!(plan.operation_id().as_str(), "op-1");
    assert_eq!(plan.version().value(), 2);
}


