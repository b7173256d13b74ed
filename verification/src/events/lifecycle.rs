//! Lifecycle of the internal event subsystem.
//!
//! This is the event infrastructure's own admission boundary, not a second
//! runtime lifecycle: it records whether new publications are admitted and
//! whether event-owned infrastructure is draining or stopped. It only ever
//! moves forward, from serving to draining to stopped.

use vstd::prelude::*;

verus! {

/// Lifecycle state of the event subsystem.
#[derive(Clone, Copy, Debug, PartialEq, Eq, Structural)]
pub enum EventLifecycleState {
    /// Publication and delivery are operational.
    Serving,
    /// New publication is closed while accepted work drains.
    Draining,
    /// Publication and event-owned processing have stopped.
    Stopped,
}

/// Whether a state admits new publications.
pub open spec fn admits_publication(s: EventLifecycleState) -> bool {
    s == EventLifecycleState::Serving
}

/// The position of a state in the forward-only order
/// serving, draining, stopped.
pub open spec fn lifecycle_rank(s: EventLifecycleState) -> int {
    match s {
        EventLifecycleState::Serving => 0,
        EventLifecycleState::Draining => 1,
        EventLifecycleState::Stopped => 2,
    }
}

/// The state after draining begins.
pub open spec fn after_begin_draining(s: EventLifecycleState) -> EventLifecycleState {
    if s == EventLifecycleState::Serving {
        EventLifecycleState::Draining
    } else {
        s
    }
}

impl EventLifecycleState {
    /// Whether new publications may be admitted.
    pub fn allows_publication(self) -> (r: bool)
        ensures
            r == admits_publication(self),
    {
        if self.is_stopped() {
            return false;
        }
        !self.is_shutting_down()
    }

    /// Whether the subsystem has entered shutdown.
    pub fn is_shutting_down(self) -> (r: bool)
        ensures
            r == (self == EventLifecycleState::Draining || self == EventLifecycleState::Stopped),
    {
        match self {
            EventLifecycleState::Draining | EventLifecycleState::Stopped => true,
            EventLifecycleState::Serving => false,
        }
    }

    /// Whether the subsystem has completely stopped.
    pub fn is_stopped(self) -> (r: bool)
        ensures
            r == (self == EventLifecycleState::Stopped),
    {
        match self {
            EventLifecycleState::Stopped => true,
            _ => false,
        }
    }

    /// Renders the state in lower case.
    pub fn to_string(&self) -> (r: String)
        ensures
            r@ == match self {
                EventLifecycleState::Serving => "serving"@,
                EventLifecycleState::Draining => "draining"@,
                EventLifecycleState::Stopped => "stopped"@,
            },
    {
        match self {
            EventLifecycleState::Serving => "serving".to_string(),
            EventLifecycleState::Draining => "draining".to_string(),
            EventLifecycleState::Stopped => "stopped".to_string(),
        }
    }
}

/// The admission boundary of the event subsystem.
#[derive(Debug)]
pub struct EventLifecycle {
    state: EventLifecycleState,
}

impl View for EventLifecycle {
    type V = EventLifecycleState;

    closed spec fn view(&self) -> EventLifecycleState {
        self.state
    }
}

impl Default for EventLifecycle {
    fn default() -> (r: Self)
        ensures
            r@ == EventLifecycleState::Serving,
    {
        EventLifecycle::new()
    }
}

impl EventLifecycle {
    /// Creates a lifecycle in the serving state.
    pub fn new() -> (r: EventLifecycle)
        ensures
            r@ == EventLifecycleState::Serving,
    {
        EventLifecycle { state: EventLifecycleState::Serving }
    }

    /// Returns the current state.
    pub fn state(&self) -> (r: EventLifecycleState)
        ensures
            r == self@,
    {
        self.state
    }

    /// Whether a new publication may be admitted.
    pub fn allows_publication(&self) -> (r: bool)
        ensures
            r == admits_publication(self@),
    {
        self.state.allows_publication()
    }

    /// Begins draining: a serving subsystem stops admitting publications; a
    /// draining or stopped one is left as it is.
    pub fn begin_draining(&mut self)
        ensures
            final(self)@ == after_begin_draining(old(self)@),
    {
        if self.state == EventLifecycleState::Serving {
            self.state = EventLifecycleState::Draining;
        }
    }

    /// Marks the subsystem stopped; stopping again changes nothing.
    pub fn stop(&mut self)
        ensures
            final(self)@ == EventLifecycleState::Stopped,
    {
        self.state = EventLifecycleState::Stopped;
    }
}

/// The lifecycle only moves forward: neither operation moves a state back
/// towards serving, so once publication is refused it stays refused, and a
/// stopped subsystem stays stopped.
pub proof fn lemma_event_lifecycle_forward_only(s: EventLifecycleState)
    ensures
        lifecycle_rank(s) <= lifecycle_rank(after_begin_draining(s)),
        lifecycle_rank(s) <= lifecycle_rank(EventLifecycleState::Stopped),
        !admits_publication(after_begin_draining(s)),
        !admits_publication(EventLifecycleState::Stopped),
        s == EventLifecycleState::Stopped ==> after_begin_draining(s) == s,
{
}

} // verus!
