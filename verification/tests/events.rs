use std::collections::HashMap;
use std::str::FromStr;

use nizaam_core::events::delivery::{
    DeliveryConfig, DeliveryDispatcher, DeliveryError, DeliveryOutcome,
};
use nizaam_core::events::event::{Event, EventContext, EventCreationError, EventName, InvalidEventName};
use nizaam_core::events::lifecycle::{EventLifecycle, EventLifecycleState};
use nizaam_core::events::publisher::{
    EventPublisher, PublisherError, PublisherLifecycleError, PublisherLifecycleState,
};
use nizaam_core::events::scope::{InvalidScope, Scope};
use nizaam_core::events::subscriber::{
    EventSubscription, SubscriptionCreationError, SubscriptionLifecycleError,
    SubscriptionLifecycleState,
};
use nizaam_core::identity::{CapabilityId, CorrelationId, EventId, OperationId};
use nizaam_core::operation::{Operation, OperationContext};
use nizaam_core::security::{
    AuthorizationDecision, AuthorizationError, PrincipalId, PrincipalIdentity, PrincipalType,
    SecurityContext,
};

fn scope() -> Scope {
    Scope::new("engine:test").unwrap()
}

fn event_named(id: &str, name: &str) -> Event {
    Event::new(EventId::new(id).unwrap(), EventName::new(name).unwrap(), name, scope()).unwrap()
}

fn event(id: &str) -> Event {
    event_named(id, "test.event")
}

fn subscription(name: &str) -> EventSubscription {
    EventSubscription::new(EventName::new(name).unwrap(), name, scope(), false).unwrap()
}

fn active_publisher() -> EventPublisher {
    let mut publisher = EventPublisher::new(false);
    publisher.activate().unwrap();
    publisher
}

fn config(queue_capacity: usize, worker_count: usize, max_subscriptions: usize) -> DeliveryConfig {
    DeliveryConfig::new(queue_capacity, worker_count, max_subscriptions).unwrap()
}

fn security_context() -> SecurityContext {
    SecurityContext::new(
        PrincipalIdentity::new(PrincipalType::Engine, PrincipalId::new("subscriber").unwrap()),
        None,
    )
}

#[test]
fn scope_constructs_with_valid_value() {
    let scope = Scope::new("engine-a").unwrap();

    assert_eq!(scope.as_str(), "engine-a");
    assert_eq!(scope.to_string(), "engine-a");
}

#[test]
fn scope_rejects_empty_and_whitespace_values() {
    assert_eq!(Scope::new(""), Err(InvalidScope));
    assert_eq!(Scope::new("   "), Err(InvalidScope));
    assert_eq!(Scope::new("\t\n"), Err(InvalidScope));
}

#[test]
fn scope_uses_exact_equality_without_hierarchy_or_wildcards() {
    assert_eq!(Scope::new("engine-a").unwrap(), Scope::new("engine-a").unwrap());
    assert_ne!(Scope::new("engine-a").unwrap(), Scope::new("engine-a/instance-1").unwrap());
    assert_ne!(Scope::new("*").unwrap(), Scope::new("engine-a").unwrap());
}

#[test]
fn scope_can_be_used_as_hash_map_key() {
    let mut scopes = HashMap::new();
    scopes.insert(Scope::new("engine-a").unwrap(), "value");

    assert_eq!(scopes.get(&Scope::new("engine-a").unwrap()), Some(&"value"));
}

#[test]
fn invalid_scope_error_has_expected_message() {
    assert_eq!(InvalidScope.to_string(), "an event scope must not be empty");
}

#[test]
fn event_name_constructs_and_rejects_empty_values() {
    let name = EventName::new("engine.started").unwrap();

    assert_eq!(name.as_str(), "engine.started");
    assert_eq!(name.to_string(), "engine.started");
    assert_eq!(EventName::from_str("engine.started").unwrap(), name);
    assert_eq!(EventName::new(""), Err(InvalidEventName));
    assert_eq!(EventName::new("   "), Err(InvalidEventName));
    assert_eq!(InvalidEventName.to_string(), "an event name must not be empty");
}

#[test]
fn event_constructs_with_identity_name_type_and_scope() {
    let event = Event::new(
        EventId::new("event-1").unwrap(),
        EventName::new("engine.started").unwrap(),
        "lifecycle",
        scope(),
    )
    .unwrap();

    assert_eq!(event.event_id().as_str(), "event-1");
    assert_eq!(event.event_name().as_str(), "engine.started");
    assert_eq!(event.event_type(), "lifecycle");
    assert_eq!(event.scope().as_str(), "engine:test");
    assert!(event.context().operation_context().is_none());
    assert!(event.context().security_context().is_none());
}

#[test]
fn event_rejects_blank_type() {
    let result = Event::new(
        EventId::new("event-1").unwrap(),
        EventName::new("engine.started").unwrap(),
        "  ",
        scope(),
    );

    assert_eq!(result, Err(EventCreationError::EmptyEventType));
    assert_eq!(EventCreationError::EmptyEventType.to_string(), "event type must not be empty");
    assert_eq!(EventCreationError::EmptyEventName.to_string(), "event name must not be empty");
}

#[test]
fn event_context_carries_operation_and_security_contexts() {
    let operation = OperationContext::new(Operation::new(
        OperationId::new("operation-1").unwrap(),
        CorrelationId::new("correlation-1").unwrap(),
    ));
    let context = EventContext::empty()
        .with_operation_context(operation.clone())
        .with_security_context(security_context());

    let event = Event::new_with_context(
        EventId::new("event-1").unwrap(),
        EventName::new("engine.started").unwrap(),
        "lifecycle",
        scope(),
        context.clone(),
    )
    .unwrap();

    assert_eq!(event.context(), &context);
    assert_eq!(event.context().operation_context(), Some(&operation));
    assert_eq!(EventContext::default(), EventContext::empty());
}

#[test]
fn event_lifecycle_moves_only_forward() {
    let mut lifecycle = EventLifecycle::new();

    assert_eq!(lifecycle.state(), EventLifecycleState::Serving);
    assert!(lifecycle.allows_publication());

    lifecycle.begin_draining();
    assert_eq!(lifecycle.state(), EventLifecycleState::Draining);
    assert!(!lifecycle.allows_publication());

    lifecycle.stop();
    lifecycle.begin_draining();
    assert_eq!(lifecycle.state(), EventLifecycleState::Stopped);
    assert!(!lifecycle.allows_publication());
    assert!(lifecycle.state().is_stopped());
    assert!(lifecycle.state().is_shutting_down());
    assert_eq!(lifecycle.state().to_string(), "stopped");
}

#[test]
fn subscription_constructs_in_created_state() {
    let subscription = subscription("operation.completed");

    assert_eq!(subscription.state(), SubscriptionLifecycleState::Created);
    assert_eq!(subscription.event_name().as_str(), "operation.completed");
    assert_eq!(subscription.event_type(), "operation.completed");
    assert_eq!(subscription.scope().as_str(), "engine:test");
}

#[test]
fn subscription_rejects_empty_event_type() {
    for event_type in ["", "   "] {
        let result = EventSubscription::new(
            EventName::new("operation.completed").unwrap(),
            event_type,
            scope(),
            false,
        );
        assert!(matches!(result, Err(SubscriptionCreationError::EmptyEventType)));
    }
    assert_eq!(
        SubscriptionCreationError::EmptyEventType.to_string(),
        "event subscription type must not be empty"
    );
}

#[test]
fn matching_requires_active_state_name_type_and_scope() {
    let mut subscription = subscription("operation.completed");
    let name = EventName::new("operation.completed").unwrap();

    assert!(!subscription.matches(&name, "operation.completed", &scope()));

    subscription.activate().unwrap();

    assert!(subscription.matches(&name, "operation.completed", &scope()));
    assert!(!subscription.matches(
        &EventName::new("operation.failed").unwrap(),
        "operation.completed",
        &scope()
    ));
    assert!(!subscription.matches(&name, "operation.failed", &scope()));
    assert!(!subscription.matches(&name, "operation.completed", &Scope::new("engine:other").unwrap()));
}

#[test]
fn cancelled_subscription_cannot_be_closed_or_reactivated() {
    let mut subscription = subscription("operation.completed");
    subscription.activate().unwrap();

    assert_eq!(subscription.cancel(), Ok(()));
    assert_eq!(subscription.cancel(), Ok(()));
    assert!(subscription.is_cancelled());
    assert_eq!(
        subscription.close(),
        Err(SubscriptionLifecycleError::new(
            SubscriptionLifecycleState::Cancelled,
            SubscriptionLifecycleState::Closed
        ))
    );
    assert!(subscription.activate().is_err());
    assert_eq!(subscription.state(), SubscriptionLifecycleState::Cancelled);
}

#[test]
fn closed_subscription_cannot_be_cancelled() {
    let mut subscription = subscription("operation.completed");
    subscription.activate().unwrap();
    subscription.close().unwrap();

    let error = subscription.cancel().unwrap_err();

    assert_eq!(error.from(), SubscriptionLifecycleState::Closed);
    assert_eq!(error.to(), SubscriptionLifecycleState::Cancelled);
    assert_eq!(
        error.to_string(),
        "invalid event subscription lifecycle transition from Closed to Cancelled"
    );
    assert!(subscription.is_closed());
}

#[test]
fn signalled_cancellation_turns_an_active_subscription_cancelled() {
    let mut subscription = subscription("operation.completed");
    subscription.activate().unwrap();
    subscription.signal_cancellation();

    assert_eq!(subscription.state(), SubscriptionLifecycleState::Cancelled);
    assert!(subscription.is_terminal());
}

#[test]
fn authorization_defaults_to_allow_when_not_configured() {
    let subscription = subscription("operation.completed");

    assert!(subscription.authorization_request().is_none());
    assert_eq!(
        subscription.authorization_decision(Ok(AuthorizationDecision::Deny)),
        Ok(AuthorizationDecision::Allow)
    );
}

#[test]
fn partial_authorization_configuration_fails_closed() {
    let subscription = subscription("operation.completed").with_security_context(security_context());

    assert!(subscription.authorization_request().is_none());
    assert_eq!(
        subscription.authorization_decision(Ok(AuthorizationDecision::Allow)),
        Ok(AuthorizationDecision::Deny)
    );
}

#[test]
fn complete_authorization_configuration_uses_the_verdict() {
    let subscription = subscription("operation.completed")
        .with_security_context(security_context())
        .with_authorizer()
        .requiring_capability(CapabilityId::new("events.read").unwrap());

    let request = subscription.authorization_request().unwrap();
    assert_eq!(request.capability().as_str(), "events.read");
    assert_eq!(request.principal().principal_id().as_str(), "subscriber");
    assert_eq!(
        subscription.authorization_decision(Err(AuthorizationError::Failed)),
        Err(AuthorizationError::Failed)
    );
    assert_eq!(
        subscription.authorization_decision(Ok(AuthorizationDecision::Deny)),
        Ok(AuthorizationDecision::Deny)
    );
}

#[test]
fn publisher_starts_created_and_activates_idempotently() {
    let mut publisher = EventPublisher::new(false);

    assert_eq!(publisher.state(), PublisherLifecycleState::Created);
    assert!(!publisher.is_active());

    publisher.activate().unwrap();
    publisher.activate().unwrap();

    assert_eq!(publisher.state(), PublisherLifecycleState::Active);
}

#[test]
fn created_publisher_cannot_publish() {
    let mut publisher = EventPublisher::new(false);
    let lifecycle = EventLifecycle::new();

    assert!(matches!(publisher.publish(&lifecycle, event("event-1")), Err(PublisherError::NotActive)));
}

#[test]
fn publication_selects_matching_active_subscriptions_in_order() {
    let mut publisher = active_publisher();
    let lifecycle = EventLifecycle::new();

    let first = publisher.subscribe(&lifecycle, subscription("test.event")).unwrap();
    let other = publisher.subscribe(&lifecycle, subscription("other.event")).unwrap();
    let second = publisher.subscribe(&lifecycle, subscription("test.event")).unwrap();

    let publication = publisher.publish(&lifecycle, event("event-1")).unwrap();

    assert_eq!(publication.event().event_id().as_str(), "event-1");
    assert_eq!(publication.subscriptions(), &[first, second]);
    assert_eq!(publication.subscription_count(), 2);
    assert!(!publication.subscriptions().contains(&other));
    assert_eq!(
        publisher.subscription(first).unwrap().state(),
        SubscriptionLifecycleState::Active
    );
}

#[test]
fn publication_with_no_matching_subscriptions_is_unobserved() {
    let mut publisher = active_publisher();
    let lifecycle = EventLifecycle::new();

    let publication = publisher.publish(&lifecycle, event("event-1")).unwrap();

    assert!(publication.is_unobserved());
    assert_eq!(publication.subscription_count(), 0);
}

#[test]
fn cancelled_registered_subscription_is_not_selected() {
    let mut publisher = active_publisher();
    let lifecycle = EventLifecycle::new();

    let handle = publisher.subscribe(&lifecycle, subscription("test.event")).unwrap();
    assert_eq!(publisher.cancel_subscription(handle), Some(Ok(())));

    let publication = publisher.publish(&lifecycle, event("event-1")).unwrap();

    assert!(publication.is_unobserved());
    assert_eq!(publisher.subscription_count(), 1);
}

#[test]
fn unsubscribe_removes_and_closes_the_subscription() {
    let mut publisher = active_publisher();
    let lifecycle = EventLifecycle::new();

    let handle = publisher.subscribe(&lifecycle, subscription("test.event")).unwrap();
    let removed = publisher.unsubscribe(handle).unwrap();

    assert_eq!(removed.state(), SubscriptionLifecycleState::Closed);
    assert_eq!(publisher.subscription_count(), 0);
    assert!(publisher.unsubscribe(handle).is_none());
    assert!(publisher.subscription(handle).is_none());
}

#[test]
fn subscription_that_is_not_newly_created_is_refused() {
    let mut publisher = active_publisher();
    let lifecycle = EventLifecycle::new();

    let mut active = subscription("test.event");
    active.activate().unwrap();
    let cancelled =
        EventSubscription::new(EventName::new("test.event").unwrap(), "test.event", scope(), true)
            .unwrap();

    assert_eq!(
        publisher.subscribe(&lifecycle, active),
        Err(PublisherError::SubscriptionAlreadyTerminated)
    );
    assert_eq!(
        publisher.subscribe(&lifecycle, cancelled),
        Err(PublisherError::SubscriptionAlreadyTerminated)
    );
    assert_eq!(publisher.subscription_count(), 0);
}

#[test]
fn closing_publisher_cancels_registered_subscriptions() {
    let mut publisher = active_publisher();
    let lifecycle = EventLifecycle::new();

    publisher.subscribe(&lifecycle, subscription("test.event")).unwrap();

    let released = publisher.close();

    assert_eq!(released.len(), 1);
    assert!(released[0].is_cancelled());
    assert_eq!(publisher.subscription_count(), 0);
    assert!(publisher.close().is_empty());
    assert!(publisher.is_closed());
    assert!(matches!(publisher.publish(&lifecycle, event("event-1")), Err(PublisherError::Closed)));
    assert_eq!(
        publisher.activate(),
        Err(PublisherLifecycleError::new(
            PublisherLifecycleState::Closed,
            PublisherLifecycleState::Active
        ))
    );
}

#[test]
fn publisher_owner_cancellation_closes_publisher() {
    let mut publisher = active_publisher();
    let lifecycle = EventLifecycle::new();

    publisher.signal_owner_cancellation();

    assert!(matches!(publisher.publish(&lifecycle, event("event-1")), Err(PublisherError::Closed)));
    assert!(publisher.is_closed());
}

#[test]
fn publisher_rejects_work_when_event_subsystem_is_draining() {
    let mut publisher = active_publisher();
    let mut lifecycle = EventLifecycle::new();

    lifecycle.begin_draining();

    assert!(matches!(
        publisher.publish(&lifecycle, event("event-1")),
        Err(PublisherError::EventSubsystemUnavailable)
    ));
    assert_eq!(
        publisher.subscribe(&lifecycle, subscription("test.event")),
        Err(PublisherError::EventSubsystemUnavailable)
    );
    assert_eq!(
        PublisherError::EventSubsystemUnavailable.to_string(),
        "event subsystem is not accepting publications"
    );
}

#[test]
fn delivery_configuration_rejects_zero_limits() {
    assert_eq!(DeliveryConfig::new(0, 1, 1), Err(DeliveryError::ZeroLimit));
    assert_eq!(DeliveryConfig::new(1, 0, 1), Err(DeliveryError::ZeroLimit));
    assert_eq!(DeliveryConfig::new(1, 1, 0), Err(DeliveryError::ZeroLimit));

    let config = config(8, 3, 20);
    assert_eq!(config.queue_capacity(), 8);
    assert_eq!(config.worker_count(), 3);
    assert_eq!(config.max_subscriptions(), 20);
}

#[test]
fn accepted_events_are_taken_in_fifo_order() {
    let mut publisher = active_publisher();
    let lifecycle = EventLifecycle::new();
    let handle = publisher.subscribe(&lifecycle, subscription("test.event")).unwrap();
    let mut dispatcher = DeliveryDispatcher::new(config(4, 1, 4));
    let path = dispatcher.register(handle, SubscriptionLifecycleState::Active).unwrap();
    let allow = Ok(AuthorizationDecision::Allow);
    let active = SubscriptionLifecycleState::Active;

    for id in ["e1", "e2", "e3"] {
        assert_eq!(dispatcher.enqueue(path, active, allow, event(id)), Ok(DeliveryOutcome::Accepted));
    }

    assert_eq!(dispatcher.next_ready(), Some(path));
    assert_eq!(dispatcher.next_ready(), None);
    let mut delivered = Vec::new();
    while let Some(next) = dispatcher.take_next(path, active) {
        delivered.push(next.event_id().as_str().to_owned());
    }
    dispatcher.complete_delivery(path, active);

    assert_eq!(delivered, vec!["e1", "e2", "e3"]);
    assert_eq!(dispatcher.next_ready(), None);
}

#[test]
fn queued_events_are_discarded_once_the_subscription_is_cancelled() {
    let mut publisher = active_publisher();
    let lifecycle = EventLifecycle::new();
    let handle = publisher.subscribe(&lifecycle, subscription("test.event")).unwrap();
    let mut dispatcher = DeliveryDispatcher::new(config(4, 1, 4));
    let path = dispatcher.register(handle, SubscriptionLifecycleState::Active).unwrap();
    let allow = Ok(AuthorizationDecision::Allow);
    let active = SubscriptionLifecycleState::Active;
    assert_eq!(dispatcher.enqueue(path, active, allow, event("e1")), Ok(DeliveryOutcome::Accepted));

    assert_eq!(dispatcher.next_ready(), Some(path));
    assert!(dispatcher.begin_delivery(path, SubscriptionLifecycleState::Cancelled).is_none());
    assert_eq!(dispatcher.queued(path), Some(0));
    assert_eq!(dispatcher.registered_count(), 0);
    assert_eq!(dispatcher.enqueue(path, active, allow, event("e2")), Ok(DeliveryOutcome::Closed));
}

#[test]
fn cancelled_dispatcher_closes_a_path_instead_of_delivering() {
    let mut publisher = active_publisher();
    let lifecycle = EventLifecycle::new();
    let handle = publisher.subscribe(&lifecycle, subscription("test.event")).unwrap();
    let mut dispatcher = DeliveryDispatcher::new(config(4, 1, 4));
    let path = dispatcher.register(handle, SubscriptionLifecycleState::Active).unwrap();
    let allow = Ok(AuthorizationDecision::Allow);
    let active = SubscriptionLifecycleState::Active;
    assert_eq!(dispatcher.enqueue(path, active, allow, event("e1")), Ok(DeliveryOutcome::Accepted));
    assert_eq!(dispatcher.next_ready(), Some(path));

    dispatcher.signal_cancellation();

    assert!(dispatcher.begin_delivery(path, active).is_none());
    assert_eq!(dispatcher.queued(path), Some(0));
    assert_eq!(dispatcher.registered_count(), 0);
}

#[test]
fn begin_delivery_takes_the_oldest_event_of_an_open_path() {
    let mut publisher = active_publisher();
    let lifecycle = EventLifecycle::new();
    let handle = publisher.subscribe(&lifecycle, subscription("test.event")).unwrap();
    let mut dispatcher = DeliveryDispatcher::new(config(4, 1, 4));
    let path = dispatcher.register(handle, SubscriptionLifecycleState::Active).unwrap();
    let allow = Ok(AuthorizationDecision::Allow);
    let active = SubscriptionLifecycleState::Active;
    for id in ["e1", "e2"] {
        assert_eq!(dispatcher.enqueue(path, active, allow, event(id)), Ok(DeliveryOutcome::Accepted));
    }
    assert_eq!(dispatcher.next_ready(), Some(path));

    let first = dispatcher.begin_delivery(path, active).unwrap();

    assert_eq!(first.event_id().as_str(), "e1");
    assert_eq!(dispatcher.queued(path), Some(1));
    assert_eq!(dispatcher.registered_count(), 1);
}

#[test]
fn full_queue_drops_the_newest_event() {
    let mut dispatcher = DeliveryDispatcher::new(config(1, 1, 2));
    let mut publisher = active_publisher();
    let lifecycle = EventLifecycle::new();
    let handle = publisher.subscribe(&lifecycle, subscription("test.event")).unwrap();
    let path = dispatcher.register(handle, SubscriptionLifecycleState::Active).unwrap();
    let active = SubscriptionLifecycleState::Active;
    let allow = Ok(AuthorizationDecision::Allow);

    assert_eq!(dispatcher.enqueue(path, active, allow, event("e1")), Ok(DeliveryOutcome::Accepted));
    assert_eq!(dispatcher.enqueue(path, active, allow, event("e2")), Ok(DeliveryOutcome::Dropped));
    assert_eq!(dispatcher.queued(path), Some(1));
}

#[test]
fn registration_limits_and_duplicates_are_refused() {
    let mut dispatcher = DeliveryDispatcher::new(config(2, 1, 1));
    let mut publisher = active_publisher();
    let lifecycle = EventLifecycle::new();
    let first = publisher.subscribe(&lifecycle, subscription("test.event")).unwrap();
    let second = publisher.subscribe(&lifecycle, subscription("test.event")).unwrap();
    let active = SubscriptionLifecycleState::Active;

    dispatcher.register(first, active).unwrap();

    assert_eq!(
        dispatcher.register(first, active),
        Err(DeliveryError::SubscriptionAlreadyRegistered)
    );
    assert_eq!(dispatcher.register(second, active), Err(DeliveryError::SubscriptionLimitReached));
    assert_eq!(
        DeliveryDispatcher::new(config(2, 1, 1)).register(second, SubscriptionLifecycleState::Created),
        Err(DeliveryError::SubscriptionNotActive)
    );
}

#[test]
fn closing_a_path_releases_its_registration() {
    let mut dispatcher = DeliveryDispatcher::new(config(2, 1, 1));
    let mut publisher = active_publisher();
    let lifecycle = EventLifecycle::new();
    let handle = publisher.subscribe(&lifecycle, subscription("test.event")).unwrap();
    let active = SubscriptionLifecycleState::Active;

    let path = dispatcher.register(handle, active).unwrap();
    dispatcher.close(path);

    assert_eq!(dispatcher.registered_count(), 0);
    assert_eq!(
        dispatcher.enqueue(path, active, Ok(AuthorizationDecision::Allow), event("e1")),
        Ok(DeliveryOutcome::Closed)
    );
    assert!(dispatcher.register(handle, active).is_ok());
}

#[test]
fn cancelled_subscription_outcome_closes_the_path() {
    let mut dispatcher = DeliveryDispatcher::new(config(2, 1, 2));
    let mut publisher = active_publisher();
    let lifecycle = EventLifecycle::new();
    let handle = publisher.subscribe(&lifecycle, subscription("test.event")).unwrap();
    let path = dispatcher.register(handle, SubscriptionLifecycleState::Active).unwrap();

    assert_eq!(
        dispatcher.enqueue(
            path,
            SubscriptionLifecycleState::Cancelled,
            Ok(AuthorizationDecision::Allow),
            event("e1")
        ),
        Ok(DeliveryOutcome::Cancelled)
    );
    assert_eq!(dispatcher.registered_count(), 0);
}

#[test]
fn unauthorized_subscription_does_not_queue_event() {
    let mut dispatcher = DeliveryDispatcher::new(config(2, 1, 2));
    let mut publisher = active_publisher();
    let lifecycle = EventLifecycle::new();
    let handle = publisher.subscribe(&lifecycle, subscription("test.event")).unwrap();
    let path = dispatcher.register(handle, SubscriptionLifecycleState::Active).unwrap();
    let active = SubscriptionLifecycleState::Active;

    assert_eq!(
        dispatcher.enqueue(path, active, Ok(AuthorizationDecision::Deny), event("secure-1")),
        Ok(DeliveryOutcome::Unauthorized)
    );
    assert_eq!(
        dispatcher.enqueue(path, active, Err(AuthorizationError::Failed), event("secure-2")),
        Err(DeliveryError::AuthorizationFailed(AuthorizationError::Failed))
    );
    assert_eq!(dispatcher.queued(path), Some(0));
}

#[test]
fn authorization_failure_has_explicit_error_text() {
    let error = DeliveryError::AuthorizationFailed(AuthorizationError::Failed);

    assert_eq!(
        error.to_string(),
        "event delivery authorization failed: authorization evaluation failed"
    );
}

#[test]
fn shutdown_closes_dispatcher_and_refuses_work() {
    let mut dispatcher = DeliveryDispatcher::new(config(2, 1, 2));
    let mut publisher = active_publisher();
    let lifecycle = EventLifecycle::new();
    let handle = publisher.subscribe(&lifecycle, subscription("test.event")).unwrap();
    let active = SubscriptionLifecycleState::Active;
    let path = dispatcher.register(handle, active).unwrap();

    dispatcher.shutdown();
    dispatcher.shutdown();

    assert!(dispatcher.is_closed());
    assert_eq!(
        dispatcher.enqueue(path, active, Ok(AuthorizationDecision::Allow), event("e1")),
        Ok(DeliveryOutcome::Closed)
    );
    assert_eq!(dispatcher.register(handle, active), Err(DeliveryError::DispatcherClosed));
    assert_eq!(dispatcher.next_ready(), None);
}

#[test]
fn closed_path_leaves_the_ready_queue() {
    let mut dispatcher = DeliveryDispatcher::new(config(2, 1, 1));
    let mut publisher = active_publisher();
    let lifecycle = EventLifecycle::new();
    let first = publisher.subscribe(&lifecycle, subscription("test.event")).unwrap();
    let active = SubscriptionLifecycleState::Active;
    let allow = Ok(AuthorizationDecision::Allow);
    let first_path = dispatcher.register(first, active).unwrap();

    assert_eq!(dispatcher.enqueue(first_path, active, allow, event("e1")), Ok(DeliveryOutcome::Accepted));
    dispatcher.close(first_path);

    let second = publisher.subscribe(&lifecycle, subscription("test.event")).unwrap();
    let second_path = dispatcher.register(second, active).unwrap();
    assert_eq!(
        dispatcher.enqueue(second_path, active, allow, event("e2")),
        Ok(DeliveryOutcome::Accepted)
    );
    assert_eq!(dispatcher.next_ready(), Some(second_path));
    assert_eq!(dispatcher.next_ready(), None);
}
