//! Publishers of internal events.
//!
//! A publisher owns the registration relationship with its subscriptions,
//! admits publications, selects the subscriptions that match each event and
//! hands the selection to delivery. Its own lifecycle (created, active,
//! closed) is separate from the lifecycle of the event subsystem, which it
//! consults on every registration and publication.
//!
//! Before registering or publishing, a publisher whose owner has been
//! cancelled closes itself; closing cancels and releases every registered
//! subscription.

use vstd::prelude::*;
use super::event::{Event, EventView};
use super::lifecycle::{admits_publication, EventLifecycle, EventLifecycleState};
use super::subscriber::{
    effective_state, subscription_matches, transition_outcome, EventSubscription,
    SubscriptionLifecycleError, SubscriptionLifecycleState, SubscriptionView,
};

verus! {

/// Lifecycle state of one publisher.
#[derive(Clone, Copy, Debug, PartialEq, Eq, Structural)]
pub enum PublisherLifecycleState {
    /// Exists but has not been activated.
    Created,
    /// Accepts subscriptions and publications.
    Active,
    /// Permanently closed.
    Closed,
}

/// The allowed publisher transitions: staying in a state, activating a
/// created publisher, and closing a created or active one.
pub open spec fn publisher_transition_allowed(
    from: PublisherLifecycleState,
    to: PublisherLifecycleState,
) -> bool {
    from == to || (from == PublisherLifecycleState::Created && to != PublisherLifecycleState::Created)
        || (from == PublisherLifecycleState::Active && to == PublisherLifecycleState::Closed)
}

/// The name of a publisher state.
pub open spec fn publisher_state_name(s: PublisherLifecycleState) -> Seq<char> {
    match s {
        PublisherLifecycleState::Created => "Created"@,
        PublisherLifecycleState::Active => "Active"@,
        PublisherLifecycleState::Closed => "Closed"@,
    }
}

impl PublisherLifecycleState {
    /// Whether the publisher is active.
    pub fn is_active(self) -> (r: bool)
        ensures
            r == (self == PublisherLifecycleState::Active),
    {
        match self {
            PublisherLifecycleState::Active => true,
            _ => false,
        }
    }

    /// Whether the state is terminal.
    pub fn is_terminal(self) -> (r: bool)
        ensures
            r == (self == PublisherLifecycleState::Closed),
    {
        match self {
            PublisherLifecycleState::Closed => true,
            _ => false,
        }
    }

    /// Whether the state may move to `next`.
    pub fn can_transition_to(self, next: PublisherLifecycleState) -> (r: bool)
        ensures
            r == publisher_transition_allowed(self, next),
    {
        match (self, next) {
            (PublisherLifecycleState::Created, PublisherLifecycleState::Created)
            | (PublisherLifecycleState::Active, PublisherLifecycleState::Active)
            | (PublisherLifecycleState::Closed, PublisherLifecycleState::Closed)
            | (PublisherLifecycleState::Created, PublisherLifecycleState::Active)
            | (PublisherLifecycleState::Created, PublisherLifecycleState::Closed)
            | (PublisherLifecycleState::Active, PublisherLifecycleState::Closed) => true,
            _ => false,
        }
    }

    /// Returns the name of the state.
    pub fn name(&self) -> (r: &'static str)
        ensures
            r@ == publisher_state_name(*self),
    {
        match self {
            PublisherLifecycleState::Created => "Created",
            PublisherLifecycleState::Active => "Active",
            PublisherLifecycleState::Closed => "Closed",
        }
    }
}

/// Error describing a refused publisher lifecycle transition.
#[derive(Clone, Copy, Debug, PartialEq, Eq, Structural)]
pub struct PublisherLifecycleError {
    /// The state the publisher was in.
    pub from: PublisherLifecycleState,
    /// The requested state.
    pub to: PublisherLifecycleState,
}

impl PublisherLifecycleError {
    /// Creates the error for a refused transition.
    pub fn new(from: PublisherLifecycleState, to: PublisherLifecycleState) -> (r:
        PublisherLifecycleError)
        ensures
            r.from == from && r.to == to,
    {
        PublisherLifecycleError { from, to }
    }

    /// The state the publisher was in.
    pub fn from(self) -> (r: PublisherLifecycleState)
        ensures
            r == self.from,
    {
        self.from
    }

    /// The requested state.
    pub fn to(self) -> (r: PublisherLifecycleState)
        ensures
            r == self.to,
    {
        self.to
    }

    /// Human-readable description of the refused transition.
    pub fn to_string(&self) -> (r: String)
        ensures
            r@ == "invalid event publisher lifecycle transition from "@ + publisher_state_name(
                self.from,
            ) + " to "@ + publisher_state_name(self.to),
    {
        let text = "invalid event publisher lifecycle transition from ".to_string();
        let text = text.concat(self.from.name());
        let text = text.concat(" to ");
        text.concat(self.to.name())
    }
}

/// Errors returned by publisher operations.
#[derive(Clone, Copy, Debug, PartialEq, Eq, Structural)]
pub enum PublisherError {
    /// The publisher has not been activated.
    NotActive,
    /// The publisher is closed.
    Closed,
    /// The event subsystem no longer admits publications.
    EventSubsystemUnavailable,
    /// The owner of the publisher has been cancelled.
    OwnerCancelled,
    /// The subscription is not a newly created one.
    SubscriptionAlreadyTerminated,
    /// The subscription is already registered with this publisher.
    SubscriptionAlreadyRegistered,
}

/// The human-readable description of a publisher error.
pub open spec fn publisher_error_text(e: PublisherError) -> Seq<char> {
    match e {
        PublisherError::NotActive => "event publisher is not active"@,
        PublisherError::Closed => "event publisher is closed"@,
        PublisherError::EventSubsystemUnavailable => "event subsystem is not accepting publications"@,
        PublisherError::OwnerCancelled => "event publisher owner has been cancelled"@,
        PublisherError::SubscriptionAlreadyTerminated => "event subscription is already terminated"@,
        PublisherError::SubscriptionAlreadyRegistered => "event subscription is already registered"@,
    }
}

impl PublisherError {
    /// Human-readable description of the error.
    pub fn to_string(&self) -> (r: String)
        ensures
            r@ == publisher_error_text(*self),
    {
        match self {
            PublisherError::NotActive => "event publisher is not active".to_string(),
            PublisherError::Closed => "event publisher is closed".to_string(),
            PublisherError::EventSubsystemUnavailable => "event subsystem is not accepting publications".to_string(),
            PublisherError::OwnerCancelled => "event publisher owner has been cancelled".to_string(),
            PublisherError::SubscriptionAlreadyTerminated => "event subscription is already terminated".to_string(),
            PublisherError::SubscriptionAlreadyRegistered => "event subscription is already registered".to_string(),
        }
    }
}

/// The handle by which a publisher knows one registered subscription.
#[derive(Clone, Copy, Debug, PartialEq, Eq, Structural, Hash)]
pub struct SubscriptionHandle {
    id: u64,
}

impl View for SubscriptionHandle {
    type V = u64;

    closed spec fn view(&self) -> u64 {
        self.id
    }
}

impl SubscriptionHandle {
    /// Returns the handle's number, unique within its publisher.
    pub fn id(&self) -> (r: u64)
        ensures
            r == self@,
    {
        self.id
    }
}

/// The abstract values of a list of handles.
pub open spec fn handle_ids(handles: Seq<SubscriptionHandle>) -> Seq<u64> {
    handles.map_values(|h: SubscriptionHandle| h@)
}

/// Abstract value of a publication.
pub struct PublicationView {
    pub event: EventView,
    pub subscriptions: Seq<u64>,
}

/// The hand-off from a publisher to delivery: one event and the
/// subscriptions it matched at publication time, in registration order.
#[derive(Debug)]
pub struct Publication {
    event: Event,
    subscriptions: Vec<SubscriptionHandle>,
}

impl View for Publication {
    type V = PublicationView;

    closed spec fn view(&self) -> PublicationView {
        PublicationView { event: self.event@, subscriptions: handle_ids(self.subscriptions@) }
    }
}

impl Publication {
    /// Returns the published event.
    pub fn event(&self) -> (r: &Event)
        ensures
            r@ == self@.event,
    {
        &self.event
    }

    /// Returns the matching subscriptions.
    pub fn subscriptions(&self) -> (r: &[SubscriptionHandle])
        ensures
            handle_ids(r@) == self@.subscriptions,
    {
        self.subscriptions.as_slice()
    }

    /// Returns the number of matching subscriptions.
    pub fn subscription_count(&self) -> (r: usize)
        ensures
            r == self@.subscriptions.len(),
    {
        self.subscriptions.len()
    }

    /// Whether no subscription matched.
    pub fn is_unobserved(&self) -> (r: bool)
        ensures
            r == (self@.subscriptions.len() == 0),
    {
        self.subscriptions.len() == 0
    }
}

/// Abstract value of a publisher.
pub struct PublisherView {
    pub state: PublisherLifecycleState,
    pub owner_cancelled: bool,
    /// The registered subscriptions with their handle numbers, in
    /// registration order.
    pub registered: Seq<(u64, SubscriptionView)>,
    /// The handle number the next registration receives.
    pub next_id: u64,
}

/// The abstract values of a list of registrations.
pub open spec fn registration_views(entries: Seq<(u64, EventSubscription)>) -> Seq<(u64, SubscriptionView)> {
    entries.map_values(|e: (u64, EventSubscription)| (e.0, e.1@))
}

/// The state after closing: a closed publisher holds no subscription.
pub open spec fn after_close(v: PublisherView) -> PublisherView {
    if v.state == PublisherLifecycleState::Closed {
        v
    } else {
        PublisherView { state: PublisherLifecycleState::Closed, registered: Seq::empty(), ..v }
    }
}

/// The state after the owner's cancellation has been taken into account.
pub open spec fn after_refresh(v: PublisherView) -> PublisherView {
    if v.owner_cancelled {
        after_close(v)
    } else {
        v
    }
}

/// Why a publisher in this state refuses a registration or a publication,
/// if it does.
pub open spec fn admission_error(v: PublisherView, subsystem: EventLifecycleState) -> Option<
    PublisherError,
> {
    match v.state {
        PublisherLifecycleState::Created => Some(PublisherError::NotActive),
        PublisherLifecycleState::Closed => Some(PublisherError::Closed),
        PublisherLifecycleState::Active => if admits_publication(subsystem) {
            None
        } else {
            Some(PublisherError::EventSubsystemUnavailable)
        },
    }
}

/// A subscription after cancellation.
pub open spec fn cancelled_view(s: SubscriptionView) -> SubscriptionView {
    transition_outcome(
        SubscriptionView { cancellation_signalled: true, ..s },
        SubscriptionLifecycleState::Cancelled,
    ).0
}

/// Whether a registration matches an event.
pub open spec fn registration_matches(e: EventView) -> spec_fn((u64, SubscriptionView)) -> bool {
    |entry: (u64, SubscriptionView)|
        subscription_matches(entry.1, e.event_name, e.event_type, e.scope)
}

/// The handle numbers of the registrations that match an event, in
/// registration order.
pub open spec fn selected_ids(registered: Seq<(u64, SubscriptionView)>, e: EventView) -> Seq<u64> {
    registered.filter(registration_matches(e)).map_values(|entry: (u64, SubscriptionView)| entry.0)
}

/// Whether a registration carries the given handle number.
pub open spec fn has_id(id: u64) -> spec_fn((u64, SubscriptionView)) -> bool {
    |entry: (u64, SubscriptionView)| entry.0 == id
}

/// Handle numbers strictly increase in registration order and stay below
/// the next number to hand out.
pub open spec fn ids_ordered(registered: Seq<(u64, SubscriptionView)>, next_id: u64) -> bool {
    &&& forall|i: int, j: int| 0 <= i < j < registered.len() ==> registered[i].0 < registered[j].0
    &&& forall|i: int| 0 <= i < registered.len() ==> registered[i].0 < next_id
}

/// One explicitly owned event publisher.
#[derive(Debug)]
pub struct EventPublisher {
    lifecycle: PublisherLifecycleState,
    owner_cancelled: bool,
    subscriptions: Vec<(u64, EventSubscription)>,
    next_id: u64,
}

impl View for EventPublisher {
    type V = PublisherView;

    closed spec fn view(&self) -> PublisherView {
        PublisherView {
            state: self.lifecycle,
            owner_cancelled: self.owner_cancelled,
            registered: registration_views(self.subscriptions@),
            next_id: self.next_id,
        }
    }
}

impl EventPublisher {
    #[verifier::type_invariant]
    spec fn well_formed(self) -> bool {
        &&& ids_ordered(registration_views(self.subscriptions@), self.next_id)
        &&& self.lifecycle == PublisherLifecycleState::Closed ==> self.subscriptions@.len() == 0
    }

    /// Creates a publisher in the created state; `owner_cancelled` records
    /// whether its owner has already been cancelled.
    pub fn new(owner_cancelled: bool) -> (r: EventPublisher)
        ensures
            r@ == (PublisherView {
                state: PublisherLifecycleState::Created,
                owner_cancelled,
                registered: Seq::empty(),
                next_id: 0,
            }),
    {
        let r = EventPublisher {
            lifecycle: PublisherLifecycleState::Created,
            owner_cancelled,
            subscriptions: Vec::new(),
            next_id: 0,
        };
        assert(registration_views(r.subscriptions@) =~= Seq::<(u64, SubscriptionView)>::empty());
        r
    }

    /// Returns the current lifecycle state.
    pub fn state(&self) -> (r: PublisherLifecycleState)
        ensures
            r == self@.state,
    {
        self.lifecycle
    }

    /// Whether the publisher is active.
    pub fn is_active(&self) -> (r: bool)
        ensures
            r == (self@.state == PublisherLifecycleState::Active),
    {
        self.lifecycle.is_active()
    }

    /// Whether the publisher is closed.
    pub fn is_closed(&self) -> (r: bool)
        ensures
            r == (self@.state == PublisherLifecycleState::Closed),
    {
        self.lifecycle.is_terminal()
    }

    /// Whether the owner's cancellation has been signalled.
    pub fn is_owner_cancelled(&self) -> (r: bool)
        ensures
            r == self@.owner_cancelled,
    {
        self.owner_cancelled
    }

    /// Returns the number of registered subscriptions.
    pub fn subscription_count(&self) -> (r: usize)
        ensures
            r == self@.registered.len(),
    {
        self.subscriptions.len()
    }

    /// Records that the owner has been cancelled; the publisher closes at
    /// its next registration or publication.
    pub fn signal_owner_cancellation(&mut self)
        ensures
            final(self)@ == (PublisherView { owner_cancelled: true, ..old(self)@ }),
    {
        proof {
            use_type_invariant(&*self);
        }
        self.owner_cancelled = true;
    }

    /// Activates a created publisher. A publisher whose owner is cancelled
    /// is refused as if closing; a closed one cannot be reopened.
    pub fn activate(&mut self) -> (r: Result<(), PublisherLifecycleError>)
        ensures
            old(self)@.owner_cancelled ==> final(self)@ == old(self)@ && r == Err::<(), _>(
                PublisherLifecycleError {
                    from: PublisherLifecycleState::Created,
                    to: PublisherLifecycleState::Closed,
                },
            ),
            !old(self)@.owner_cancelled && old(self)@.state == PublisherLifecycleState::Closed
                ==> final(self)@ == old(self)@ && r == Err::<(), _>(
                PublisherLifecycleError {
                    from: PublisherLifecycleState::Closed,
                    to: PublisherLifecycleState::Active,
                },
            ),
            !old(self)@.owner_cancelled && old(self)@.state != PublisherLifecycleState::Closed
                ==> r is Ok && final(self)@ == (PublisherView {
                state: PublisherLifecycleState::Active,
                ..old(self)@
            }),
    {
        proof {
            use_type_invariant(&*self);
        }
        if self.owner_cancelled {
            return Err(
                PublisherLifecycleError::new(
                    PublisherLifecycleState::Created,
                    PublisherLifecycleState::Closed,
                ),
            );
        }
        let current = self.lifecycle;
        if current == PublisherLifecycleState::Active {
            return Ok(());
        }
        if !current.can_transition_to(PublisherLifecycleState::Active) {
            return Err(PublisherLifecycleError::new(current, PublisherLifecycleState::Active));
        }
        self.lifecycle = PublisherLifecycleState::Active;
        Ok(())
    }

    /// Returns the subscription registered under a handle, if any.
    pub fn subscription(&self, handle: SubscriptionHandle) -> (r: Option<&EventSubscription>)
        ensures
            r is Some <==> self@.registered.filter(has_id(handle@)).len() > 0,
            r matches Some(s) ==> self@.registered.filter(has_id(handle@)) == seq![
                (handle@, s@),
            ],
    {
        proof {
            use_type_invariant(self);
        }
        match self.position(handle) {
            Some(i) => {
                proof {
                    self.lemma_single_match(i as int);
                }
                Some(&self.subscriptions[i].1)
            },
            None => {
                proof {
                    self.lemma_no_match(handle@);
                }
                None
            },
        }
    }

    /// The position of the registration with the given handle.
    fn position(&self, handle: SubscriptionHandle) -> (r: Option<usize>)
        ensures
            r matches Some(i) ==> i < self.subscriptions@.len() && self.subscriptions@[i as int].0
                == handle@,
            r is None ==> forall|j: int|
                0 <= j < self.subscriptions@.len() ==> self.subscriptions@[j].0 != handle@,
    {
        let mut i: usize = 0;
        while i < self.subscriptions.len()
            invariant
                i <= self.subscriptions@.len(),
                forall|j: int| 0 <= j < i ==> self.subscriptions@[j].0 != handle@,
            decreases self.subscriptions@.len() - i,
        {
            if self.subscriptions[i].0 == handle.id {
                return Some(i);
            }
            i = i + 1;
        }
        None
    }

    proof fn lemma_single_match(&self, i: int)
        requires
            ids_ordered(registration_views(self.subscriptions@), self.next_id),
            0 <= i < self.subscriptions@.len(),
        ensures
            ({
                let rs = registration_views(self.subscriptions@);
                rs.filter(has_id(rs[i].0)) == seq![rs[i]]
            }),
    {
        let rs = registration_views(self.subscriptions@);
        lemma_filter_single(rs, i);
    }

    proof fn lemma_no_match(&self, id: u64)
        requires
            forall|j: int| 0 <= j < self.subscriptions@.len() ==> self.subscriptions@[j].0 != id,
        ensures
            registration_views(self.subscriptions@).filter(has_id(id)).len() == 0,
    {
        let rs = registration_views(self.subscriptions@);
        assert forall|j: int| 0 <= j < rs.len() implies !has_id(id)(#[trigger] rs[j]) by {
            assert(rs[j].0 == self.subscriptions@[j].0);
        }
        crate::seq_facts::lemma_filter_empty(rs, has_id(id));
    }

    /// Closes the publisher permanently and returns its subscriptions,
    /// cancelled, in registration order. Closing a closed publisher changes
    /// nothing and returns none.
    pub fn close(&mut self) -> (r: Vec<EventSubscription>)
        ensures
            final(self)@ == after_close(old(self)@),
            old(self)@.state == PublisherLifecycleState::Closed ==> r@.len() == 0,
            old(self)@.state != PublisherLifecycleState::Closed ==> r@.map_values(
                |s: EventSubscription| s@,
            ) == old(self)@.registered.map_values(
                |e: (u64, SubscriptionView)| cancelled_view(e.1),
            ),
    {
        proof {
            use_type_invariant(&*self);
        }
        if self.lifecycle == PublisherLifecycleState::Closed {
            assert(self.subscriptions@.len() == 0);
            return Vec::new();
        }
        let ghost before = registration_views(self.subscriptions@);
        let mut taken: Vec<(u64, EventSubscription)> = Vec::new();
        std::mem::swap(&mut taken, &mut self.subscriptions);
        self.lifecycle = PublisherLifecycleState::Closed;
        proof {
            assert(registration_views(self.subscriptions@) =~= Seq::<(u64, SubscriptionView)>::empty());
        }
        let ghost target = before.map_values(|e: (u64, SubscriptionView)| cancelled_view(e.1));
        let mut result: Vec<EventSubscription> = Vec::new();
        let mut k: usize = 0;
        let n = taken.len();
        while taken.len() > 0
            invariant
                n == before.len(),
                k + taken@.len() == n,
                registration_views(taken@) == before.skip(k as int),
                target == before.map_values(|e: (u64, SubscriptionView)| cancelled_view(e.1)),
                result@.map_values(|s: EventSubscription| s@) == target.take(k as int),
            decreases taken@.len(),
        {
            let ghost t0 = taken@;
            let (_, mut subscription) = taken.remove(0);
            let ghost original = subscription@;
            proof {
                assert(registration_views(t0)[0] == before[k as int]);
                assert(original == before[k as int].1);
                assert(taken@ =~= t0.skip(1));
                assert(registration_views(taken@) =~= registration_views(t0).skip(1));
                assert(registration_views(t0).skip(1) =~= before.skip(k + 1));
            }
            let _ = subscription.cancel();
            proof {
                assert(subscription@ == cancelled_view(original));
                assert(target[k as int] == cancelled_view(before[k as int].1));
            }
            let ghost rv = result@;
            result.push(subscription);
            proof {
                assert(result@ == rv.push(subscription));
                assert(result@.map_values(|s: EventSubscription| s@) =~= rv.map_values(
                    |s: EventSubscription| s@,
                ).push(subscription@));
                assert(result@.map_values(|s: EventSubscription| s@) =~= target.take(k + 1));
            }
            k = k + 1;
        }
        proof {
            assert(target.take(n as int) =~= target);
        }
        result
    }

    /// Registers a newly created subscription and activates it.
    ///
    /// The owner's cancellation is taken into account first. The publisher
    /// must be active and the event subsystem must admit publications; the
    /// subscription must be newly created and not cancelled.
    pub fn subscribe(&mut self, subsystem: &EventLifecycle, subscription: EventSubscription) -> (r:
        Result<SubscriptionHandle, PublisherError>)
        requires
            old(self)@.next_id < u64::MAX,
        ensures
            ({
                let v = after_refresh(old(self)@);
                match admission_error(v, subsystem@) {
                    Some(e) => r == Err::<SubscriptionHandle, _>(e) && final(self)@ == v,
                    None => if effective_state(subscription@) != SubscriptionLifecycleState::Created
                        || subscription@.cancellation_signalled {
                        r == Err::<SubscriptionHandle, _>(
                            PublisherError::SubscriptionAlreadyTerminated,
                        ) && final(self)@ == v
                    } else {
                        r matches Ok(h) && h@ == v.next_id && final(self)@ == (PublisherView {
                            registered: v.registered.push(
                                (
                                    v.next_id,
                                    SubscriptionView {
                                        recorded: SubscriptionLifecycleState::Active,
                                        ..subscription@
                                    },
                                ),
                            ),
                            next_id: (v.next_id + 1) as u64,
                            ..v
                        })
                    },
                }
            }),
    {
        self.refresh_owner_state();
        match self.admission(subsystem) {
            Some(e) => {
                return Err(e);
            },
            None => {},
        }
        let mut subscription = subscription;
        if subscription.state() != SubscriptionLifecycleState::Created {
            return Err(PublisherError::SubscriptionAlreadyTerminated);
        }
        if subscription.activate().is_err() {
            return Err(PublisherError::SubscriptionAlreadyTerminated);
        }
        proof {
            use_type_invariant(&*self);
        }
        let id = self.next_id;
        let ghost before = registration_views(self.subscriptions@);
        let mut registered: Vec<(u64, EventSubscription)> = Vec::new();
        std::mem::swap(&mut registered, &mut self.subscriptions);
        self.next_id = id + 1;
        registered.push((id, subscription));
        proof {
            assert(registration_views(registered@) =~= before.push((id, subscription@)));
        }
        self.subscriptions = registered;
        Ok(SubscriptionHandle { id })
    }

    /// Why the publisher refuses work in its current state, given the
    /// subsystem.
    fn admission(&self, subsystem: &EventLifecycle) -> (r: Option<PublisherError>)
        ensures
            r == admission_error(self@, subsystem@),
    {
        match self.lifecycle {
            PublisherLifecycleState::Created => Some(PublisherError::NotActive),
            PublisherLifecycleState::Closed => Some(PublisherError::Closed),
            PublisherLifecycleState::Active => if subsystem.allows_publication() {
                None
            } else {
                Some(PublisherError::EventSubsystemUnavailable)
            },
        }
    }

    /// Publishes an event and returns the hand-off for delivery: the event
    /// and the handles of the registered subscriptions that match it, in
    /// registration order. No handler is invoked.
    ///
    /// The owner's cancellation is taken into account first; the publisher
    /// must be active and the event subsystem must admit publications.
    pub fn publish(&mut self, subsystem: &EventLifecycle, event: Event) -> (r: Result<
        Publication,
        PublisherError,
    >)
        ensures
            final(self)@ == after_refresh(old(self)@),
            match admission_error(after_refresh(old(self)@), subsystem@) {
                Some(e) => r == Err::<Publication, _>(e),
                None => r matches Ok(p) && p@ == (PublicationView {
                    event: event@,
                    subscriptions: selected_ids(after_refresh(old(self)@).registered, event@),
                }),
            },
    {
        self.refresh_owner_state();
        match self.admission(subsystem) {
            Some(e) => {
                return Err(e);
            },
            None => {},
        }
        let ghost rs = registration_views(self.subscriptions@);
        let ghost p = registration_matches(event@);
        let ghost fst = |entry: (u64, SubscriptionView)| entry.0;
        let mut selected: Vec<SubscriptionHandle> = Vec::new();
        let mut i: usize = 0;
        while i < self.subscriptions.len()
            invariant
                rs == registration_views(self.subscriptions@),
                p == registration_matches(event@),
                fst == (|entry: (u64, SubscriptionView)| entry.0),
                i <= self.subscriptions@.len(),
                handle_ids(selected@) == rs.take(i as int).filter(p).map_values(fst),
            decreases self.subscriptions@.len() - i,
        {
            proof {
                crate::seq_facts::lemma_filter_take_step(rs, p, i as int);
            }
            let entry = &self.subscriptions[i];
            if entry.1.matches(event.event_name(), event.event_type(), event.scope()) {
                let ghost before = rs.take(i as int).filter(p);
                selected.push(SubscriptionHandle { id: entry.0 });
                proof {
                    assert(before.push(rs[i as int]).map_values(fst) =~= before.map_values(fst).push(
                        rs[i as int].0,
                    ));
                    assert(handle_ids(selected@) =~= before.map_values(fst).push(entry.0));
                }
            }
            i = i + 1;
        }
        proof {
            crate::seq_facts::lemma_take_full(rs);
        }
        Ok(Publication { event, subscriptions: selected })
    }

    /// Removes a registered subscription so that no later publication
    /// selects it, and returns it closed. An unknown handle changes nothing.
    pub fn unsubscribe(&mut self, handle: SubscriptionHandle) -> (r: Option<EventSubscription>)
        ensures
            r is None <==> (forall|j: int|
                0 <= j < old(self)@.registered.len() ==> old(self)@.registered[j].0 != handle@),
            r is None ==> final(self)@ == old(self)@,
            r matches Some(s) ==> exists|i: int|
                0 <= i < old(self)@.registered.len() && old(self)@.registered[i].0 == handle@
                    && s@ == transition_outcome(
                    old(self)@.registered[i].1,
                    SubscriptionLifecycleState::Closed,
                ).0 && final(self)@ == (PublisherView {
                    registered: old(self)@.registered.remove(i),
                    ..old(self)@
                }),
    {
        proof {
            use_type_invariant(&*self);
        }
        match self.position(handle) {
            None => {
                proof {
                    assert forall|j: int| 0 <= j < self@.registered.len() implies self@.registered[j].0
                        != handle@ by {
                        assert(self@.registered[j].0 == self.subscriptions@[j].0);
                    }
                }
                None
            },
            Some(i) => {
                let ghost before = registration_views(self.subscriptions@);
                proof {
                    assert(before == old(self)@.registered);
                    assert(old(self)@.registered[i as int].0 == handle@);
                }
                let mut registered: Vec<(u64, EventSubscription)> = Vec::new();
                std::mem::swap(&mut registered, &mut self.subscriptions);
                let ghost all = registered@;
                let (_, mut subscription) = registered.remove(i);
                let ghost original = subscription@;
                proof {
                    assert(before[i as int].0 == handle@);
                    assert(subscription@ == before[i as int].1);
                    assert(registration_views(registered@) =~= before.remove(i as int));
                    assert forall|a: int, b: int|
                        0 <= a < b < before.remove(i as int).len() implies before.remove(
                        i as int,
                    )[a].0 < before.remove(i as int)[b].0 by {
                        let a2 = if a < i { a } else { a + 1 };
                        let b2 = if b < i { b } else { b + 1 };
                        assert(before.remove(i as int)[a] == before[a2]);
                        assert(before.remove(i as int)[b] == before[b2]);
                    }
                    assert forall|a: int| 0 <= a < before.remove(i as int).len() implies before.remove(
                        i as int,
                    )[a].0 < self.next_id by {
                        let a2 = if a < i { a } else { a + 1 };
                        assert(before.remove(i as int)[a] == before[a2]);
                    }
                }
                self.subscriptions = registered;
                let _ = subscription.close();
                proof {
                    assert(self@.registered == before.remove(i as int));
                    assert(0 <= i < before.len() && before[i as int].0 == handle@ && subscription@
                        == transition_outcome(original, SubscriptionLifecycleState::Closed).0);
                }
                Some(subscription)
            },
        }
    }

    /// Cancels a registered subscription in place; it stays registered but
    /// no longer matches. Returns the outcome of the cancellation, or `None`
    /// for an unknown handle, which changes nothing.
    pub fn cancel_subscription(&mut self, handle: SubscriptionHandle) -> (r: Option<
        Result<(), SubscriptionLifecycleError>,
    >)
        ensures
            r is None <==> (forall|j: int|
                0 <= j < old(self)@.registered.len() ==> old(self)@.registered[j].0 != handle@),
            r is None ==> final(self)@ == old(self)@,
            r matches Some(x) ==> exists|i: int|
                0 <= i < old(self)@.registered.len() && old(self)@.registered[i].0 == handle@ && ({
                    let outcome = transition_outcome(
                        SubscriptionView { cancellation_signalled: true, ..old(self)@.registered[i].1 },
                        SubscriptionLifecycleState::Cancelled,
                    );
                    x == outcome.1 && final(self)@ == (PublisherView {
                        registered: old(self)@.registered.update(i, (handle@, outcome.0)),
                        ..old(self)@
                    })
                }),
    {
        proof {
            use_type_invariant(&*self);
        }
        match self.position(handle) {
            None => {
                proof {
                    assert forall|j: int| 0 <= j < self@.registered.len() implies self@.registered[j].0
                        != handle@ by {
                        assert(self@.registered[j].0 == self.subscriptions@[j].0);
                    }
                }
                None
            },
            Some(i) => {
                let ghost before = registration_views(self.subscriptions@);
                proof {
                    assert(before == old(self)@.registered);
                    assert(old(self)@.registered[i as int].0 == handle@);
                }
                let mut registered: Vec<(u64, EventSubscription)> = Vec::new();
                std::mem::swap(&mut registered, &mut self.subscriptions);
                let ghost all = registered@;
                let (id, mut subscription) = registered.remove(i);
                let ghost original = subscription@;
                proof {
                    assert(before[i as int].0 == handle@);
                    assert(all[i as int] == (id, subscription));
                    assert(original == before[i as int].1);
                }
                let result = subscription.cancel();
                registered.insert(i, (id, subscription));
                proof {
                    assert(registration_views(registered@) =~= before.update(
                        i as int,
                        (id, subscription@),
                    ));
                    assert forall|a: int| 0 <= a < before.len() implies before.update(
                        i as int,
                        (id, subscription@),
                    )[a].0 == before[a].0 by {}
                }
                self.subscriptions = registered;
                proof {
                    assert(self@.registered == before.update(i as int, (handle@, subscription@)));
                }
                Some(result)
            },
        }
    }

    /// Closes a registered subscription in place; it stays registered but
    /// no longer matches. Returns the outcome of closing, or `None` for an
    /// unknown handle, which changes nothing.
    pub fn close_subscription(&mut self, handle: SubscriptionHandle) -> (r: Option<
        Result<(), SubscriptionLifecycleError>,
    >)
        ensures
            r is None <==> (forall|j: int|
                0 <= j < old(self)@.registered.len() ==> old(self)@.registered[j].0 != handle@),
            r is None ==> final(self)@ == old(self)@,
            r matches Some(x) ==> exists|i: int|
                0 <= i < old(self)@.registered.len() && old(self)@.registered[i].0 == handle@ && ({
                    let outcome = transition_outcome(
                        old(self)@.registered[i].1,
                        SubscriptionLifecycleState::Closed,
                    );
                    x == outcome.1 && final(self)@ == (PublisherView {
                        registered: old(self)@.registered.update(i, (handle@, outcome.0)),
                        ..old(self)@
                    })
                }),
    {
        proof {
            use_type_invariant(&*self);
        }
        match self.position(handle) {
            None => {
                proof {
                    assert forall|j: int| 0 <= j < self@.registered.len() implies self@.registered[j].0
                        != handle@ by {
                        assert(self@.registered[j].0 == self.subscriptions@[j].0);
                    }
                }
                None
            },
            Some(i) => {
                let ghost before = registration_views(self.subscriptions@);
                proof {
                    assert(before == old(self)@.registered);
                    assert(old(self)@.registered[i as int].0 == handle@);
                }
                let mut registered: Vec<(u64, EventSubscription)> = Vec::new();
                std::mem::swap(&mut registered, &mut self.subscriptions);
                let ghost all = registered@;
                let (id, mut subscription) = registered.remove(i);
                let ghost original = subscription@;
                proof {
                    assert(before[i as int].0 == handle@);
                    assert(all[i as int] == (id, subscription));
                    assert(original == before[i as int].1);
                }
                let result = subscription.close();
                registered.insert(i, (id, subscription));
                proof {
                    assert(registration_views(registered@) =~= before.update(
                        i as int,
                        (id, subscription@),
                    ));
                    assert forall|a: int| 0 <= a < before.len() implies before.update(
                        i as int,
                        (id, subscription@),
                    )[a].0 == before[a].0 by {}
                }
                self.subscriptions = registered;
                proof {
                    assert(self@.registered == before.update(i as int, (handle@, subscription@)));
                }
                Some(result)
            },
        }
    }

    fn refresh_owner_state(&mut self)
        ensures
            final(self)@ == after_refresh(old(self)@),
    {
        if self.owner_cancelled {
            let _ = self.close();
        }
    }
}

/// In a sequence whose first components strictly increase, exactly one
/// entry carries the number of entry `i`.
pub proof fn lemma_filter_single(rs: Seq<(u64, SubscriptionView)>, i: int)
    requires
        forall|a: int, b: int| 0 <= a < b < rs.len() ==> rs[a].0 < rs[b].0,
        0 <= i < rs.len(),
    ensures
        rs.filter(has_id(rs[i].0)) == seq![rs[i]],
    decreases rs.len(),
{
    reveal(Seq::filter);
    let last = rs.len() - 1;
    if i == last {
        assert forall|j: int| 0 <= j < rs.drop_last().len() implies !has_id(rs[i].0)(
            #[trigger] rs.drop_last()[j],
        ) by {
            assert(rs[j].0 < rs[last].0);
        }
        crate::seq_facts::lemma_filter_empty(rs.drop_last(), has_id(rs[i].0));
        assert(rs.drop_last().filter(has_id(rs[i].0)) =~= Seq::<(u64, SubscriptionView)>::empty());
        assert(seq![rs[i]] =~= Seq::<(u64, SubscriptionView)>::empty().push(rs[i]));
    } else {
        lemma_filter_single(rs.drop_last(), i);
        assert(rs.drop_last()[i] == rs[i]);
        assert(rs[i].0 < rs[last].0);
    }
}

/// Whether some registration carrying this handle number is active and
/// matches the event.
pub open spec fn id_of_matching(registered: Seq<(u64, SubscriptionView)>, e: EventView, id: u64) -> bool {
    exists|j: int|
        0 <= j < registered.len() && registered[j].0 == id && subscription_matches(
            registered[j].1,
            e.event_name,
            e.event_type,
            e.scope,
        )
}

/// A publication selects exactly the registered subscriptions that are
/// active and match the event's name, type and scope: each selected handle
/// belongs to such a subscription, and each such subscription is selected.
pub proof fn lemma_publication_selects_exactly_matching(
    registered: Seq<(u64, SubscriptionView)>,
    e: EventView,
)
    ensures
        forall|k: int|
            0 <= k < selected_ids(registered, e).len() ==> id_of_matching(
                registered,
                e,
                #[trigger] selected_ids(registered, e)[k],
            ),
        forall|j: int|
            0 <= j < registered.len() && subscription_matches(
                #[trigger] registered[j].1,
                e.event_name,
                e.event_type,
                e.scope,
            ) ==> selected_ids(registered, e).contains(registered[j].0),
{
    let p = registration_matches(e);
    let kept = registered.filter(p);
    #[allow(deprecated)]
    registered.filter_lemma(p);
    crate::seq_facts::lemma_filter_subset(registered, p);
    assert forall|k: int| 0 <= k < selected_ids(registered, e).len() implies id_of_matching(
        registered,
        e,
        #[trigger] selected_ids(registered, e)[k],
    ) by {
        assert(selected_ids(registered, e)[k] == kept[k].0);
        assert(p(kept[k]));
        assert(registered.contains(kept[k]));
        let j = choose|j: int| 0 <= j < registered.len() && registered[j] == kept[k];
        assert(registered[j].0 == selected_ids(registered, e)[k]);
    }
    assert forall|j: int|
        0 <= j < registered.len() && subscription_matches(
            #[trigger] registered[j].1,
            e.event_name,
            e.event_type,
            e.scope,
        ) implies selected_ids(registered, e).contains(registered[j].0) by {
        assert(p(registered[j]));
        assert(kept.contains(registered[j]));
        let k = choose|k: int| 0 <= k < kept.len() && kept[k] == registered[j];
        assert(selected_ids(registered, e)[k] == registered[j].0);
    }
}

/// A closed publisher refuses every registration and publication, and
/// closing it again changes nothing; a publisher whose owner is cancelled is
/// closed, without subscriptions, before it considers any work.
pub proof fn lemma_closed_publisher_refuses_work(v: PublisherView, subsystem: EventLifecycleState)
    ensures
        v.state == PublisherLifecycleState::Closed ==> after_close(v) == v && admission_error(
            after_refresh(v),
            subsystem,
        ) == Some(PublisherError::Closed),
        v.owner_cancelled ==> after_refresh(v).state == PublisherLifecycleState::Closed
            && after_refresh(v).registered.len() == 0 || v.state == PublisherLifecycleState::Closed,
        v.owner_cancelled ==> admission_error(after_refresh(v), subsystem) == Some(
            PublisherError::Closed,
        ),
{
}

} // verus!
