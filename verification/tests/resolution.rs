use nizaam_core::control_plane::policy::RoutingStrategy;
use nizaam_core::control_plane::resolution::{
    Resolution, ResolutionInput, ResolvedCapability, ResolvedContract, ResolvedProvider,
    ResolvedRouting,
};
use nizaam_core::identity::{
    AttemptId, CapabilityId, ContractId, CorrelationId, EngineId, EngineInstanceId, NodeId,
    OperationId,
};
use nizaam_core::operation::{Operation, OperationContext};

fn operation_id() -> OperationId {
    OperationId::new("operation-1").unwrap()
}

fn contract() -> ResolvedContract {
    ResolvedContract::new(ContractId::new("quran.analyze").unwrap(), "1.0")
}

fn capability() -> ResolvedCapability {
    ResolvedCapability::new(CapabilityId::new("quran.analyze").unwrap())
}

fn destination() -> EngineInstanceId {
    EngineInstanceId::new("quran-01").unwrap()
}

fn routing() -> ResolvedRouting {
    ResolvedRouting::new(destination(), RoutingStrategy::Deterministic)
}

fn operation_context() -> OperationContext {
    let operation =
        Operation::new(operation_id(), CorrelationId::new("correlation-1").unwrap());

    OperationContext::new(operation)
}

fn input() -> ResolutionInput {
    ResolutionInput::new(operation_id(), contract(), capability(), routing())
}

#[test]
fn creates_resolution_from_resolved_input() {
    let resolution = Resolution::resolve(input());

    assert_eq!(resolution.operation_id().as_str(), "operation-1");
    assert_eq!(
        resolution.contract().contract_id().as_str(),
        "quran.analyze"
    );
    assert_eq!(resolution.contract().version(), "1.0");
    assert_eq!(
        resolution.capability().capability_id().as_str(),
        "quran.analyze"
    );
    assert_eq!(resolution.destination().as_str(), "quran-01");
    assert_eq!(
        resolution.routing_strategy(),
        RoutingStrategy::Deterministic
    );
    assert!(resolution.provider().is_none());
    assert!(resolution.context().is_none());
}

#[test]
fn provider_is_preserved_when_present() {
    let provider = ResolvedProvider::new(EngineId::new("quran-engine").unwrap());

    let resolution = Resolution::resolve(input().with_provider(provider.clone()));

    assert_eq!(resolution.provider(), Some(&provider));
    assert_eq!(
        resolution.provider().unwrap().engine_id().as_str(),
        "quran-engine"
    );
}

#[test]
fn context_is_preserved_without_creating_attempt_identity() {
    let context = operation_context();

    let resolution = Resolution::resolve(input().with_context(context.clone()));

    assert_eq!(resolution.context(), Some(&context));
    assert!(resolution.context().unwrap().attempt_id.is_none());
    assert!(resolution.context().unwrap().node_id.is_none());
}

#[test]
fn attempt_specific_context_can_be_preserved_without_resolution_owning_attempt() {
    let operation = Operation::new(
        operation_id(),
        CorrelationId::new("correlation-attempt").unwrap(),
    );

    let context = OperationContext::new(operation).for_attempt(
        NodeId::new("node-1").unwrap(),
        AttemptId::new("attempt-1").unwrap(),
    );

    let resolution = Resolution::resolve(input().with_context(context.clone()));

    assert_eq!(resolution.context(), Some(&context));
    assert_eq!(
        resolution
            .context()
            .unwrap()
            .attempt_id
            .as_ref()
            .unwrap()
            .as_str(),
        "attempt-1"
    );
}

#[test]
fn routing_destination_is_preserved_exactly() {
    let selected = EngineInstanceId::new("arabic-02").unwrap();

    let routing = ResolvedRouting::new(selected.clone(), RoutingStrategy::RoundRobin);

    let resolution = Resolution::resolve(ResolutionInput::new(
        operation_id(),
        contract(),
        capability(),
        routing,
    ));

    assert_eq!(resolution.destination(), &selected);
    assert_eq!(resolution.routing_strategy(), RoutingStrategy::RoundRobin);
}

#[test]
fn later_external_state_changes_cannot_mutate_resolution() {
    let resolution = Resolution::resolve(input());

    let original_destination = resolution.destination().clone();
    let original_strategy = resolution.routing_strategy();

    let later_routing = ResolvedRouting::new(
        EngineInstanceId::new("quran-02").unwrap(),
        RoutingStrategy::CapacityAware,
    );

    let later_resolution = Resolution::resolve(ResolutionInput::new(
        operation_id(),
        contract(),
        capability(),
        later_routing,
    ));

    assert_eq!(resolution.destination(), &original_destination);
    assert_eq!(resolution.routing_strategy(), original_strategy);

    assert_eq!(later_resolution.destination().as_str(), "quran-02");
    assert_eq!(
        later_resolution.routing_strategy(),
        RoutingStrategy::CapacityAware
    );
}

#[test]
fn same_input_produces_equivalent_resolution() {
    let first = Resolution::resolve(input());
    let second = Resolution::resolve(input());

    assert_eq!(first, second);
}

#[test]
fn resolution_clone_is_equal_to_original() {
    let original = Resolution::resolve(input().with_provider(ResolvedProvider::new(
        EngineId::new("quran-engine").unwrap(),
    )));

    let cloned = original.clone();

    assert_eq!(original, cloned);
}

#[test]
fn input_builder_preserves_all_components() {
    let provider = ResolvedProvider::new(EngineId::new("provider-engine").unwrap());
    let context = operation_context();

    let input = input()
        .with_provider(provider.clone())
        .with_context(context.clone());

    assert_eq!(input.operation_id().as_str(), "operation-1");
    assert_eq!(input.contract(), &contract());
    assert_eq!(input.capability(), &capability());
    assert_eq!(input.provider(), Some(&provider));
    assert_eq!(input.routing(), &routing());
    assert_eq!(input.context(), Some(&context));
}

#[test]
fn into_parts_preserves_every_resolution_component() {
    let provider = ResolvedProvider::new(EngineId::new("provider-engine").unwrap());
    let context = operation_context();

    let resolution = Resolution::resolve(
        input()
            .with_provider(provider.clone())
            .with_context(context.clone()),
    );

    let (
        operation,
        resolved_contract,
        resolved_capability,
        resolved_provider,
        resolved_routing,
        resolved_context,
    ) = resolution.into_parts();

    assert_eq!(operation, operation_id());
    assert_eq!(resolved_contract, contract());
    assert_eq!(resolved_capability, capability());
    assert_eq!(resolved_provider, Some(provider));
    assert_eq!(resolved_routing, routing());
    assert_eq!(resolved_context, Some(context));
}

#[test]
fn resolution_does_not_change_when_a_new_resolution_is_created() {
    let first = Resolution::resolve(input());

    let second = Resolution::resolve(ResolutionInput::new(
        operation_id(),
        ResolvedContract::new(ContractId::new("quran.analyze").unwrap(), "2.0"),
        capability(),
        ResolvedRouting::new(
            EngineInstanceId::new("quran-02").unwrap(),
            RoutingStrategy::Weighted,
        ),
    ));

    assert_eq!(first.contract().version(), "1.0");
    assert_eq!(first.destination().as_str(), "quran-01");

    assert_eq!(second.contract().version(), "2.0");
    assert_eq!(second.destination().as_str(), "quran-02");
}

