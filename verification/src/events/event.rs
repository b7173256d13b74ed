//! Immutable internal event occurrences.
//!
//! An `Event` carries its occurrence identity, its semantic name, the type
//! used for subscription matching, its scope and the trusted context that was
//! propagated with it. Event semantics belong to the producer.

use vstd::prelude::*;
use crate::identity::EventId;
use crate::operation::{OperationContext, OperationContextView};
use crate::security::{SecurityContext, SecurityContextView};
use crate::text::{is_blank, str_equal, str_is_blank};
use super::scope::Scope;

verus! {

/// Error returned when an event name is empty or whitespace-only.
#[derive(Clone, Copy, Debug, PartialEq, Eq, Structural)]
pub struct InvalidEventName;

impl InvalidEventName {
    /// Human-readable description of the error.
    pub fn to_string(&self) -> (r: String)
        ensures
            r@ == "an event name must not be empty"@,
    {
        "an event name must not be empty".to_string()
    }
}

/// The semantic name of an event occurrence: what happened. Distinct
/// occurrences may share a name.
#[derive(Debug, Hash, PartialOrd, Ord)]
pub struct EventName {
    value: String,
}

impl View for EventName {
    type V = Seq<char>;

    closed spec fn view(&self) -> Seq<char> {
        self.value@
    }
}

impl Clone for EventName {
    fn clone(&self) -> (r: Self)
        ensures
            r@ == self@,
    {
        EventName { value: self.value.clone() }
    }
}

impl PartialEq for EventName {
    fn eq(&self, other: &Self) -> (r: bool) {
        self.value == other.value
    }
}

impl Eq for EventName {}

impl vstd::std_specs::cmp::PartialEqSpecImpl for EventName {
    open spec fn obeys_eq_spec() -> bool {
        true
    }

    open spec fn eq_spec(&self, other: &Self) -> bool {
        self@ == other@
    }
}

impl EventName {
    /// Creates an event name from a non-blank value, kept as given.
    pub fn new(value: &str) -> (r: Result<EventName, InvalidEventName>)
        ensures
            r is Ok <==> !is_blank(value@),
            r matches Ok(n) ==> n@ == value@,
    {
        if str_is_blank(value) {
            Err(InvalidEventName)
        } else {
            Ok(EventName { value: value.to_owned() })
        }
    }

    /// Returns the name text.
    pub fn as_str(&self) -> (r: &str)
        ensures
            r@ == self@,
    {
        self.value.as_str()
    }

    /// Renders the name as its text.
    pub fn to_string(&self) -> (r: String)
        ensures
            r@ == self@,
    {
        self.value.clone()
    }

    /// Whether both names carry the same text.
    pub fn same_as(&self, other: &EventName) -> (r: bool)
        ensures
            r == (self@ == other@),
    {
        str_equal(self.value.as_str(), other.value.as_str())
    }
}

impl std::str::FromStr for EventName {
    type Err = InvalidEventName;

    fn from_str(value: &str) -> Result<EventName, InvalidEventName> {
        EventName::new(value)
    }
}

/// Abstract value of an event context.
pub struct EventContextView {
    pub operation_context: Option<OperationContextView>,
    pub security_context: Option<SecurityContextView>,
}

/// Minimal trusted context propagated with an event: the operation it
/// belongs to and the producer's security identity, when known.
#[derive(Debug, PartialEq, Eq)]
pub struct EventContext {
    operation_context: Option<OperationContext>,
    security_context: Option<SecurityContext>,
}

impl View for EventContext {
    type V = EventContextView;

    closed spec fn view(&self) -> EventContextView {
        EventContextView {
            operation_context: match self.operation_context {
                Some(o) => Some(o@),
                None => None,
            },
            security_context: match self.security_context {
                Some(s) => Some(s@),
                None => None,
            },
        }
    }
}

impl Clone for EventContext {
    fn clone(&self) -> (r: Self)
        ensures
            r@ == self@,
    {
        let operation_context = match &self.operation_context {
            Some(o) => Some(o.clone()),
            None => None,
        };
        let security_context = match &self.security_context {
            Some(s) => Some(s.clone()),
            None => None,
        };
        EventContext { operation_context, security_context }
    }
}

impl Default for EventContext {
    fn default() -> (r: Self)
        ensures
            r@ == (EventContextView { operation_context: None, security_context: None }),
    {
        EventContext::empty()
    }
}

impl EventContext {
    /// Creates an empty context.
    pub fn empty() -> (r: EventContext)
        ensures
            r@ == (EventContextView { operation_context: None, security_context: None }),
    {
        EventContext { operation_context: None, security_context: None }
    }

    /// Creates a context from optional operation and security contexts.
    pub fn new(
        operation_context: Option<OperationContext>,
        security_context: Option<SecurityContext>,
    ) -> (r: EventContext)
        ensures
            r@ == (EventContextView {
                operation_context: match operation_context {
                    Some(o) => Some(o@),
                    None => None,
                },
                security_context: match security_context {
                    Some(s) => Some(s@),
                    None => None,
                },
            }),
    {
        EventContext { operation_context, security_context }
    }

    /// Returns the propagated operation context, when present.
    pub fn operation_context(&self) -> (r: Option<&OperationContext>)
        ensures
            match r {
                Some(o) => self@.operation_context == Some(o@),
                None => self@.operation_context is None,
            },
    {
        self.operation_context.as_ref()
    }

    /// Returns the propagated security context, when present.
    pub fn security_context(&self) -> (r: Option<&SecurityContext>)
        ensures
            match r {
                Some(s) => self@.security_context == Some(s@),
                None => self@.security_context is None,
            },
    {
        self.security_context.as_ref()
    }

    /// Returns this context with the given operation context.
    pub fn with_operation_context(self, operation_context: OperationContext) -> (r: EventContext)
        ensures
            r@ == (EventContextView { operation_context: Some(operation_context@), ..self@ }),
    {
        EventContext { operation_context: Some(operation_context), ..self }
    }

    /// Returns this context with the given security context.
    pub fn with_security_context(self, security_context: SecurityContext) -> (r: EventContext)
        ensures
            r@ == (EventContextView { security_context: Some(security_context@), ..self@ }),
    {
        EventContext { security_context: Some(security_context), ..self }
    }
}

/// Errors returned when an event cannot be created.
#[derive(Clone, Copy, Debug, PartialEq, Eq, Structural)]
pub enum EventCreationError {
    /// The event name is blank.
    EmptyEventName,
    /// The event type is blank.
    EmptyEventType,
}

impl EventCreationError {
    /// Human-readable description of the error.
    pub fn to_string(&self) -> (r: String)
        ensures
            r@ == match self {
                EventCreationError::EmptyEventName => "event name must not be empty"@,
                EventCreationError::EmptyEventType => "event type must not be empty"@,
            },
    {
        match self {
            EventCreationError::EmptyEventName => "event name must not be empty".to_string(),
            EventCreationError::EmptyEventType => "event type must not be empty".to_string(),
        }
    }
}

/// Abstract value of an event.
pub struct EventView {
    pub event_id: Seq<char>,
    pub event_name: Seq<char>,
    pub event_type: Seq<char>,
    pub scope: Seq<char>,
    pub context: EventContextView,
}

/// One immutable internal event occurrence.
#[derive(Debug, PartialEq, Eq)]
pub struct Event {
    event_id: EventId,
    event_name: EventName,
    event_type: String,
    scope: Scope,
    context: EventContext,
}

impl View for Event {
    type V = EventView;

    closed spec fn view(&self) -> EventView {
        EventView {
            event_id: self.event_id@,
            event_name: self.event_name@,
            event_type: self.event_type@,
            scope: self.scope@,
            context: self.context@,
        }
    }
}

impl Clone for Event {
    fn clone(&self) -> (r: Self)
        ensures
            r@ == self@,
    {
        Event {
            event_id: self.event_id.clone(),
            event_name: self.event_name.clone(),
            event_type: self.event_type.clone(),
            scope: self.scope.clone(),
            context: self.context.clone(),
        }
    }
}

impl Event {
    /// Creates an event with an empty context; the type must not be blank.
    pub fn new(event_id: EventId, event_name: EventName, event_type: &str, scope: Scope) -> (r:
        Result<Event, EventCreationError>)
        ensures
            r is Ok <==> !is_blank(event_type@),
            r matches Ok(e) ==> e@ == (EventView {
                event_id: event_id@,
                event_name: event_name@,
                event_type: event_type@,
                scope: scope@,
                context: EventContextView { operation_context: None, security_context: None },
            }),
            r is Err ==> r == Err::<Event, _>(EventCreationError::EmptyEventType),
    {
        Event::new_with_context(event_id, event_name, event_type, scope, EventContext::empty())
    }

    /// Creates an event carrying a propagated context; the type must not be
    /// blank.
    pub fn new_with_context(
        event_id: EventId,
        event_name: EventName,
        event_type: &str,
        scope: Scope,
        context: EventContext,
    ) -> (r: Result<Event, EventCreationError>)
        ensures
            r is Ok <==> !is_blank(event_type@),
            r matches Ok(e) ==> e@ == (EventView {
                event_id: event_id@,
                event_name: event_name@,
                event_type: event_type@,
                scope: scope@,
                context: context@,
            }),
            r is Err ==> r == Err::<Event, _>(EventCreationError::EmptyEventType),
    {
        if str_is_blank(event_type) {
            return Err(EventCreationError::EmptyEventType);
        }
        Ok(Event { event_id, event_name, event_type: event_type.to_owned(), scope, context })
    }

    /// Returns the occurrence identity.
    pub fn event_id(&self) -> (r: &EventId)
        ensures
            r@ == self@.event_id,
    {
        &self.event_id
    }

    /// Returns the semantic name.
    pub fn event_name(&self) -> (r: &EventName)
        ensures
            r@ == self@.event_name,
    {
        &self.event_name
    }

    /// Returns the type used for subscription matching.
    pub fn event_type(&self) -> (r: &str)
        ensures
            r@ == self@.event_type,
    {
        self.event_type.as_str()
    }

    /// Returns the scope.
    pub fn scope(&self) -> (r: &Scope)
        ensures
            r@ == self@.scope,
    {
        &self.scope
    }

    /// Returns the propagated context.
    pub fn context(&self) -> (r: &EventContext)
        ensures
            r@ == self@.context,
    {
        &self.context
    }
}

} // verus!
