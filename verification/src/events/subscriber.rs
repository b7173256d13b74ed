//! Subscriptions to internal events.
//!
//! A subscription declares interest in one event name, event type and scope,
//! and carries its own lifecycle: created, active, cancelled or closed. It
//! matches an event only while active and only when all three of name, type
//! and scope are equal. Handlers and the cancellation signal of the owner
//! live with the runtime that drives delivery; the subscription records
//! whether its cancellation has been signalled.
//!
//! Optional authorization reuses the Core security vocabulary: with nothing
//! configured delivery is allowed, with everything configured the authority's
//! verdict decides, and with a partial configuration delivery is denied.

use vstd::prelude::*;
use crate::identity::CapabilityId;
use crate::security::{
    AuthorizationDecision, AuthorizationError, AuthorizationRequest, AuthorizationRequestView,
    SecurityContext, SecurityContextView,
};
use crate::text::{is_blank, str_equal, str_is_blank};
use super::event::EventName;
use super::scope::Scope;

verus! {

/// Lifecycle state of one subscription.
#[derive(Clone, Copy, Debug, PartialEq, Eq, Structural)]
pub enum SubscriptionLifecycleState {
    /// Constructed but not yet registered.
    Created,
    /// Registered; may receive matching events.
    Active,
    /// Cancelled.
    Cancelled,
    /// Explicitly closed.
    Closed,
}

/// Whether a subscription state is terminal.
pub open spec fn subscription_state_terminal(s: SubscriptionLifecycleState) -> bool {
    s == SubscriptionLifecycleState::Cancelled || s == SubscriptionLifecycleState::Closed
}

/// The allowed subscription transitions: staying in a state, and moving
/// forward from created to active and from a live state to a terminal one.
pub open spec fn subscription_transition_allowed(
    from: SubscriptionLifecycleState,
    to: SubscriptionLifecycleState,
) -> bool {
    from == to || (from == SubscriptionLifecycleState::Created && to
        != SubscriptionLifecycleState::Created) || (from == SubscriptionLifecycleState::Active
        && subscription_state_terminal(to))
}

/// The name of a subscription state.
pub open spec fn subscription_state_name(s: SubscriptionLifecycleState) -> Seq<char> {
    match s {
        SubscriptionLifecycleState::Created => "Created"@,
        SubscriptionLifecycleState::Active => "Active"@,
        SubscriptionLifecycleState::Cancelled => "Cancelled"@,
        SubscriptionLifecycleState::Closed => "Closed"@,
    }
}

impl SubscriptionLifecycleState {
    /// Whether the state is terminal.
    pub fn is_terminal(self) -> (r: bool)
        ensures
            r == subscription_state_terminal(self),
    {
        match self {
            SubscriptionLifecycleState::Cancelled | SubscriptionLifecycleState::Closed => true,
            _ => false,
        }
    }

    /// Whether the state may move to `next`. Repeating a state is allowed;
    /// a terminal state never moves to another state.
    pub fn can_transition_to(self, next: SubscriptionLifecycleState) -> (r: bool)
        ensures
            r == subscription_transition_allowed(self, next),
    {
        match (self, next) {
            (SubscriptionLifecycleState::Created, SubscriptionLifecycleState::Created)
            | (SubscriptionLifecycleState::Active, SubscriptionLifecycleState::Active)
            | (SubscriptionLifecycleState::Cancelled, SubscriptionLifecycleState::Cancelled)
            | (SubscriptionLifecycleState::Closed, SubscriptionLifecycleState::Closed)
            | (SubscriptionLifecycleState::Created, SubscriptionLifecycleState::Active)
            | (SubscriptionLifecycleState::Created, SubscriptionLifecycleState::Cancelled)
            | (SubscriptionLifecycleState::Created, SubscriptionLifecycleState::Closed)
            | (SubscriptionLifecycleState::Active, SubscriptionLifecycleState::Cancelled)
            | (SubscriptionLifecycleState::Active, SubscriptionLifecycleState::Closed) => true,
            _ => false,
        }
    }

    /// Returns the name of the state.
    pub fn name(&self) -> (r: &'static str)
        ensures
            r@ == subscription_state_name(*self),
    {
        match self {
            SubscriptionLifecycleState::Created => "Created",
            SubscriptionLifecycleState::Active => "Active",
            SubscriptionLifecycleState::Cancelled => "Cancelled",
            SubscriptionLifecycleState::Closed => "Closed",
        }
    }
}

/// Error describing a refused subscription lifecycle transition.
#[derive(Clone, Copy, Debug, PartialEq, Eq, Structural)]
pub struct SubscriptionLifecycleError {
    /// The state the subscription was in.
    pub from: SubscriptionLifecycleState,
    /// The requested state.
    pub to: SubscriptionLifecycleState,
}

impl SubscriptionLifecycleError {
    /// Creates the error for a refused transition.
    pub fn new(from: SubscriptionLifecycleState, to: SubscriptionLifecycleState) -> (r:
        SubscriptionLifecycleError)
        ensures
            r.from == from && r.to == to,
    {
        SubscriptionLifecycleError { from, to }
    }

    /// The state the subscription was in.
    pub fn from(self) -> (r: SubscriptionLifecycleState)
        ensures
            r == self.from,
    {
        self.from
    }

    /// The state that was requested.
    pub fn to(self) -> (r: SubscriptionLifecycleState)
        ensures
            r == self.to,
    {
        self.to
    }

    /// Human-readable description of the refused transition.
    pub fn to_string(&self) -> (r: String)
        ensures
            r@ == "invalid event subscription lifecycle transition from "@
                + subscription_state_name(self.from) + " to "@ + subscription_state_name(self.to),
    {
        let text = "invalid event subscription lifecycle transition from ".to_string();
        let text = text.concat(self.from.name());
        let text = text.concat(" to ");
        text.concat(self.to.name())
    }
}

/// Errors returned when a subscription cannot be created.
#[derive(Clone, Copy, Debug, PartialEq, Eq, Structural)]
pub enum SubscriptionCreationError {
    /// A blank event type would make the subscription non-specific.
    EmptyEventType,
}

impl SubscriptionCreationError {
    /// Human-readable description of the error.
    pub fn to_string(&self) -> (r: String)
        ensures
            r@ == "event subscription type must not be empty"@,
    {
        "event subscription type must not be empty".to_string()
    }
}

/// Abstract value of a subscription.
pub struct SubscriptionView {
    pub event_name: Seq<char>,
    pub event_type: Seq<char>,
    pub scope: Seq<char>,
    /// The lifecycle state last recorded by a transition.
    pub recorded: SubscriptionLifecycleState,
    /// Whether the subscription's cancellation has been signalled.
    pub cancellation_signalled: bool,
    pub security_context: Option<SecurityContextView>,
    pub authorizer_configured: bool,
    pub authorization_capability: Option<Seq<char>>,
}

/// The effective state: an active subscription whose cancellation has been
/// signalled is cancelled.
pub open spec fn effective_state(v: SubscriptionView) -> SubscriptionLifecycleState {
    if v.recorded == SubscriptionLifecycleState::Active && v.cancellation_signalled {
        SubscriptionLifecycleState::Cancelled
    } else {
        v.recorded
    }
}

/// The outcome of a requested transition: nothing changes when the
/// effective state already is `next`; a disallowed move is refused; an
/// allowed one is recorded.
pub open spec fn transition_outcome(v: SubscriptionView, next: SubscriptionLifecycleState) -> (
    SubscriptionView,
    Result<(), SubscriptionLifecycleError>,
) {
    let current = effective_state(v);
    if current == next {
        (v, Ok(()))
    } else if !subscription_transition_allowed(current, next) {
        (v, Err(SubscriptionLifecycleError { from: current, to: next }))
    } else {
        (SubscriptionView { recorded: next, ..v }, Ok(()))
    }
}

/// Whether a subscription in this state accepts an event with the given
/// name, type and scope.
pub open spec fn subscription_matches(
    v: SubscriptionView,
    event_name: Seq<char>,
    event_type: Seq<char>,
    scope: Seq<char>,
) -> bool {
    effective_state(v) == SubscriptionLifecycleState::Active && v.event_name == event_name
        && v.event_type == event_type && v.scope == scope
}

/// The authorization request a fully configured subscription would make.
pub open spec fn authorization_request_of(v: SubscriptionView) -> AuthorizationRequestView {
    AuthorizationRequestView {
        principal: v.security_context->Some_0.principal,
        calling_service: v.security_context->Some_0.calling_service,
        capability: v.authorization_capability->Some_0,
    }
}

/// Whether no authorization component is configured.
pub open spec fn authorization_unconfigured(v: SubscriptionView) -> bool {
    v.security_context is None && !v.authorizer_configured && v.authorization_capability is None
}

/// Whether every authorization component is configured.
pub open spec fn authorization_complete(v: SubscriptionView) -> bool {
    v.security_context is Some && v.authorizer_configured && v.authorization_capability is Some
}

/// One explicit subscription to a class of internal events.
#[derive(Debug)]
pub struct EventSubscription {
    event_name: EventName,
    event_type: String,
    scope: Scope,
    recorded: SubscriptionLifecycleState,
    cancellation_signalled: bool,
    security_context: Option<SecurityContext>,
    authorizer_configured: bool,
    authorization_capability: Option<CapabilityId>,
}

impl View for EventSubscription {
    type V = SubscriptionView;

    closed spec fn view(&self) -> SubscriptionView {
        SubscriptionView {
            event_name: self.event_name@,
            event_type: self.event_type@,
            scope: self.scope@,
            recorded: self.recorded,
            cancellation_signalled: self.cancellation_signalled,
            security_context: match self.security_context {
                Some(s) => Some(s@),
                None => None,
            },
            authorizer_configured: self.authorizer_configured,
            authorization_capability: match self.authorization_capability {
                Some(c) => Some(c@),
                None => None,
            },
        }
    }
}

impl EventSubscription {
    /// Creates an unregistered subscription; the event type must not be
    /// blank. `cancelled` records whether the owner's cancellation has
    /// already been signalled.
    pub fn new(event_name: EventName, event_type: &str, scope: Scope, cancelled: bool) -> (r:
        Result<EventSubscription, SubscriptionCreationError>)
        ensures
            r is Ok <==> !is_blank(event_type@),
            r matches Ok(s) ==> s@ == (SubscriptionView {
                event_name: event_name@,
                event_type: event_type@,
                scope: scope@,
                recorded: SubscriptionLifecycleState::Created,
                cancellation_signalled: cancelled,
                security_context: None,
                authorizer_configured: false,
                authorization_capability: None,
            }),
            r is Err ==> r == Err::<EventSubscription, _>(SubscriptionCreationError::EmptyEventType),
    {
        if str_is_blank(event_type) {
            return Err(SubscriptionCreationError::EmptyEventType);
        }
        Ok(
            EventSubscription {
                event_name,
                event_type: event_type.to_owned(),
                scope,
                recorded: SubscriptionLifecycleState::Created,
                cancellation_signalled: cancelled,
                security_context: None,
                authorizer_configured: false,
                authorization_capability: None,
            },
        )
    }

    /// Returns the selected event name.
    pub fn event_name(&self) -> (r: &EventName)
        ensures
            r@ == self@.event_name,
    {
        &self.event_name
    }

    /// Returns the selected event type.
    pub fn event_type(&self) -> (r: &str)
        ensures
            r@ == self@.event_type,
    {
        self.event_type.as_str()
    }

    /// Returns the selected scope.
    pub fn scope(&self) -> (r: &Scope)
        ensures
            r@ == self@.scope,
    {
        &self.scope
    }

    /// Whether the subscription's cancellation has been signalled.
    pub fn is_cancellation_signalled(&self) -> (r: bool)
        ensures
            r == self@.cancellation_signalled,
    {
        self.cancellation_signalled
    }

    /// Attaches the subscriber's trusted security identity.
    pub fn with_security_context(self, security_context: SecurityContext) -> (r:
        EventSubscription)
        ensures
            r@ == (SubscriptionView { security_context: Some(security_context@), ..self@ }),
    {
        EventSubscription { security_context: Some(security_context), ..self }
    }

    /// Records that an authorization authority is attached; the authority
    /// itself is held by the runtime that evaluates it.
    pub fn with_authorizer(self) -> (r: EventSubscription)
        ensures
            r@ == (SubscriptionView { authorizer_configured: true, ..self@ }),
    {
        EventSubscription { authorizer_configured: true, ..self }
    }

    /// Requires a capability for this subscription to receive events.
    pub fn requiring_capability(self, capability: CapabilityId) -> (r: EventSubscription)
        ensures
            r@ == (SubscriptionView { authorization_capability: Some(capability@), ..self@ }),
    {
        EventSubscription { authorization_capability: Some(capability), ..self }
    }

    /// Returns the subscriber's security context, when configured.
    pub fn security_context(&self) -> (r: Option<&SecurityContext>)
        ensures
            match r {
                Some(s) => self@.security_context == Some(s@),
                None => self@.security_context is None,
            },
    {
        self.security_context.as_ref()
    }

    /// Returns the required capability, when configured.
    pub fn authorization_capability(&self) -> (r: Option<&CapabilityId>)
        ensures
            match r {
                Some(c) => self@.authorization_capability == Some(c@),
                None => self@.authorization_capability is None,
            },
    {
        self.authorization_capability.as_ref()
    }

    /// The request to hand to the authorization authority: present exactly
    /// when every authorization component is configured.
    pub fn authorization_request(&self) -> (r: Option<AuthorizationRequest>)
        ensures
            r is Some <==> authorization_complete(self@),
            r matches Some(q) ==> q@ == authorization_request_of(self@),
    {
        match (&self.security_context, &self.authorization_capability) {
            (Some(context), Some(capability)) => {
                if self.authorizer_configured {
                    Some(AuthorizationRequest::new(context, capability))
                } else {
                    None
                }
            },
            _ => None,
        }
    }

    /// The authorization decision for delivery, given the authority's
    /// verdict on `authorization_request`: allowed when nothing is
    /// configured, the verdict when everything is, denied otherwise.
    pub fn authorization_decision(
        &self,
        verdict: Result<AuthorizationDecision, AuthorizationError>,
    ) -> (r: Result<AuthorizationDecision, AuthorizationError>)
        ensures
            r == (if authorization_unconfigured(self@) {
                Ok(AuthorizationDecision::Allow)
            } else if authorization_complete(self@) {
                verdict
            } else {
                Ok(AuthorizationDecision::Deny)
            }),
    {
        match (&self.security_context, self.authorizer_configured, &self.authorization_capability) {
            (None, false, None) => Ok(AuthorizationDecision::Allow),
            (Some(_), true, Some(_)) => verdict,
            _ => Ok(AuthorizationDecision::Deny),
        }
    }

    /// Returns the effective lifecycle state.
    pub fn state(&self) -> (r: SubscriptionLifecycleState)
        ensures
            r == effective_state(self@),
    {
        if self.recorded == SubscriptionLifecycleState::Active && self.cancellation_signalled {
            SubscriptionLifecycleState::Cancelled
        } else {
            self.recorded
        }
    }

    /// Whether the subscription is active.
    pub fn is_active(&self) -> (r: bool)
        ensures
            r == (effective_state(self@) == SubscriptionLifecycleState::Active),
    {
        self.state() == SubscriptionLifecycleState::Active
    }

    /// Whether the subscription has terminated.
    pub fn is_terminal(&self) -> (r: bool)
        ensures
            r == subscription_state_terminal(effective_state(self@)),
    {
        self.state().is_terminal()
    }

    /// Whether cancellation terminated the subscription.
    pub fn is_cancelled(&self) -> (r: bool)
        ensures
            r == (effective_state(self@) == SubscriptionLifecycleState::Cancelled),
    {
        self.state() == SubscriptionLifecycleState::Cancelled
    }

    /// Whether the subscription was explicitly closed.
    pub fn is_closed(&self) -> (r: bool)
        ensures
            r == (effective_state(self@) == SubscriptionLifecycleState::Closed),
    {
        self.state() == SubscriptionLifecycleState::Closed
    }

    fn transition_to(&mut self, next: SubscriptionLifecycleState) -> (r: Result<
        (),
        SubscriptionLifecycleError,
    >)
        ensures
            (final(self)@, r) == transition_outcome(old(self)@, next),
    {
        let current = self.state();
        if current == next {
            return Ok(());
        }
        if !current.can_transition_to(next) {
            return Err(SubscriptionLifecycleError::new(current, next));
        }
        self.recorded = next;
        Ok(())
    }

    /// Activates a newly created subscription; a subscription whose
    /// cancellation was signalled is refused as cancelled.
    pub fn activate(&mut self) -> (r: Result<(), SubscriptionLifecycleError>)
        ensures
            old(self)@.cancellation_signalled ==> final(self)@ == old(self)@ && r == Err::<
                (),
                _,
            >(
                SubscriptionLifecycleError {
                    from: SubscriptionLifecycleState::Cancelled,
                    to: SubscriptionLifecycleState::Active,
                },
            ),
            !old(self)@.cancellation_signalled ==> (final(self)@, r) == transition_outcome(
                old(self)@,
                SubscriptionLifecycleState::Active,
            ),
    {
        if self.cancellation_signalled {
            return Err(
                SubscriptionLifecycleError::new(
                    SubscriptionLifecycleState::Cancelled,
                    SubscriptionLifecycleState::Active,
                ),
            );
        }
        self.transition_to(SubscriptionLifecycleState::Active)
    }

    /// Signals the subscription's cancellation without recording a
    /// transition, as when its owner is cancelled.
    pub fn signal_cancellation(&mut self)
        ensures
            final(self)@ == (SubscriptionView { cancellation_signalled: true, ..old(self)@ }),
    {
        self.cancellation_signalled = true;
    }

    /// Cancels the subscription: signals its cancellation and records the
    /// cancelled state. Cancelling again changes nothing; a closed
    /// subscription is not turned into a cancelled one.
    pub fn cancel(&mut self) -> (r: Result<(), SubscriptionLifecycleError>)
        ensures
            (final(self)@, r) == transition_outcome(
                SubscriptionView { cancellation_signalled: true, ..old(self)@ },
                SubscriptionLifecycleState::Cancelled,
            ),
    {
        self.cancellation_signalled = true;
        if self.state() == SubscriptionLifecycleState::Cancelled {
            return Ok(());
        }
        self.transition_to(SubscriptionLifecycleState::Cancelled)
    }

    /// Closes the subscription; a cancelled subscription stays cancelled.
    pub fn close(&mut self) -> (r: Result<(), SubscriptionLifecycleError>)
        ensures
            (final(self)@, r) == transition_outcome(old(self)@, SubscriptionLifecycleState::Closed),
    {
        self.transition_to(SubscriptionLifecycleState::Closed)
    }

    /// Whether the subscription accepts an event with this name, type and
    /// scope: it must be active and all three must be equal.
    pub fn matches(&self, event_name: &EventName, event_type: &str, scope: &Scope) -> (r: bool)
        ensures
            r == subscription_matches(self@, event_name@, event_type@, scope@),
    {
        self.is_active() && self.event_name.same_as(event_name) && str_equal(
            self.event_type.as_str(),
            event_type,
        ) && self.scope.same_as(scope)
    }
}

/// A terminal subscription stays where it is: every requested transition
/// either leaves its effective state unchanged or is refused.
pub proof fn lemma_terminal_subscription_is_final(
    v: SubscriptionView,
    next: SubscriptionLifecycleState,
)
    requires
        subscription_state_terminal(effective_state(v)),
    ensures
        effective_state(transition_outcome(v, next).0) == effective_state(v),
        transition_outcome(v, next).1 is Ok <==> next == effective_state(v),
{
}

/// Only an active subscription matches: a created, cancelled or closed one
/// never receives an event.
pub proof fn lemma_only_active_subscriptions_match(
    v: SubscriptionView,
    event_name: Seq<char>,
    event_type: Seq<char>,
    scope: Seq<char>,
)
    requires
        effective_state(v) != SubscriptionLifecycleState::Active,
    ensures
        !subscription_matches(v, event_name, event_type, scope),
{
}

} // verus!
