//! The internal event vocabulary of Core: event occurrences and their
//! scopes, the event subsystem lifecycle, subscriptions, publishers and the
//! bounded delivery bookkeeping.

pub mod scope;
pub mod event;
pub mod lifecycle;
pub mod subscriber;
pub mod publisher;
pub mod delivery;

pub use event::{Event, EventContext, EventCreationError, EventName, InvalidEventName};
pub use lifecycle::{EventLifecycle, EventLifecycleState};
pub use scope::{InvalidScope, Scope};
pub use subscriber::{
    EventSubscription, SubscriptionCreationError, SubscriptionLifecycleError,
    SubscriptionLifecycleState,
};
pub use publisher::{
    EventPublisher, Publication, PublisherError, PublisherLifecycleError, PublisherLifecycleState,
    SubscriptionHandle,
};
pub use delivery::{
    DeliveryConfig, DeliveryDispatcher, DeliveryError, DeliveryHandle, DeliveryOutcome,
};
