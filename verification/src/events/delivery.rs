//! Bounded delivery bookkeeping for internal events.
//!
//! Each registered subscription gets a delivery path: a bounded FIFO queue
//! of events. A path with queued work is scheduled, at most once at a time,
//! on one bounded ready queue that delivery workers take paths from. This
//! module decides everything about that bookkeeping: which enqueue is
//! accepted, dropped, cancelled, closed, unauthorized or rejected, when a
//! path is scheduled again, and what closing a path or the dispatcher
//! releases. Running handlers, and the workers that do so, belong to the
//! runtime that drives this state.

use vstd::prelude::*;
use crate::security::{AuthorizationDecision, AuthorizationError};
use super::event::{Event, EventView};
use super::publisher::SubscriptionHandle;
use super::subscriber::SubscriptionLifecycleState;

verus! {

/// Errors returned while configuring or operating delivery.
#[derive(Clone, Copy, Debug, PartialEq, Eq, Structural)]
pub enum DeliveryError {
    /// A delivery limit was zero.
    ZeroLimit,
    /// A delivery worker could not be started.
    WorkerSpawn,
    /// The dispatcher has shut down.
    DispatcherClosed,
    /// The maximum number of registered subscriptions has been reached.
    SubscriptionLimitReached,
    /// The subscription is already registered with this dispatcher.
    SubscriptionAlreadyRegistered,
    /// The subscription is not active.
    SubscriptionNotActive,
    /// The authorization authority failed.
    AuthorizationFailed(AuthorizationError),
    /// The ready queue is full.
    SchedulerSaturated,
}

/// The human-readable description of a delivery error.
pub open spec fn delivery_error_text(e: DeliveryError) -> Seq<char> {
    match e {
        DeliveryError::ZeroLimit => "event delivery limits must be greater than zero"@,
        DeliveryError::WorkerSpawn => "failed to spawn event delivery worker"@,
        DeliveryError::DispatcherClosed => "event delivery dispatcher is closed"@,
        DeliveryError::SubscriptionLimitReached => "event delivery subscription limit is full"@,
        DeliveryError::SubscriptionAlreadyRegistered => "event subscription is already registered"@,
        DeliveryError::SubscriptionNotActive => "event subscription is not active"@,
        DeliveryError::AuthorizationFailed(_) => "event delivery authorization failed: "@
            + "authorization evaluation failed"@,
        DeliveryError::SchedulerSaturated => "event delivery scheduler capacity is exhausted"@,
    }
}

impl DeliveryError {
    /// Human-readable description of the error.
    pub fn to_string(&self) -> (r: String)
        ensures
            r@ == delivery_error_text(*self),
    {
        match self {
            DeliveryError::ZeroLimit => "event delivery limits must be greater than zero".to_string(),
            DeliveryError::WorkerSpawn => "failed to spawn event delivery worker".to_string(),
            DeliveryError::DispatcherClosed => "event delivery dispatcher is closed".to_string(),
            DeliveryError::SubscriptionLimitReached => "event delivery subscription limit is full".to_string(),
            DeliveryError::SubscriptionAlreadyRegistered => "event subscription is already registered".to_string(),
            DeliveryError::SubscriptionNotActive => "event subscription is not active".to_string(),
            DeliveryError::AuthorizationFailed(error) => {
                let text = "event delivery authorization failed: ".to_string();
                let detail = error.to_string();
                text.concat(detail.as_str())
            },
            DeliveryError::SchedulerSaturated => "event delivery scheduler capacity is exhausted".to_string(),
        }
    }
}

/// The result of handing one event to one subscription's path.
#[derive(Clone, Copy, Debug, PartialEq, Eq, Structural)]
pub enum DeliveryOutcome {
    /// Accepted into the bounded queue.
    Accepted,
    /// The queue was full; the newest event was dropped.
    Dropped,
    /// The subscription or the dispatcher was cancelled.
    Cancelled,
    /// The subscription, its path or the dispatcher is closed.
    Closed,
    /// The subscription is not authorized to receive the event.
    Unauthorized,
    /// The ready queue could not take the path.
    Rejected,
}

/// Limits of bounded delivery; each is at least one.
#[derive(Clone, Copy, Debug, PartialEq, Eq, Structural)]
pub struct DeliveryConfig {
    queue_capacity: usize,
    worker_count: usize,
    max_subscriptions: usize,
}

/// Abstract value of a delivery configuration.
pub struct DeliveryConfigView {
    pub queue_capacity: usize,
    pub worker_count: usize,
    pub max_subscriptions: usize,
}

impl View for DeliveryConfig {
    type V = DeliveryConfigView;

    closed spec fn view(&self) -> DeliveryConfigView {
        DeliveryConfigView {
            queue_capacity: self.queue_capacity,
            worker_count: self.worker_count,
            max_subscriptions: self.max_subscriptions,
        }
    }
}

impl DeliveryConfig {
    /// Creates a configuration; every limit must be greater than zero.
    pub fn new(queue_capacity: usize, worker_count: usize, max_subscriptions: usize) -> (r: Result<
        DeliveryConfig,
        DeliveryError,
    >)
        ensures
            r is Ok <==> queue_capacity > 0 && worker_count > 0 && max_subscriptions > 0,
            r matches Ok(c) ==> c@ == (DeliveryConfigView {
                queue_capacity,
                worker_count,
                max_subscriptions,
            }),
            r is Err ==> r == Err::<DeliveryConfig, _>(DeliveryError::ZeroLimit),
    {
        if queue_capacity == 0 || worker_count == 0 || max_subscriptions == 0 {
            return Err(DeliveryError::ZeroLimit);
        }
        Ok(DeliveryConfig { queue_capacity, worker_count, max_subscriptions })
    }

    /// Capacity of each subscription's queue.
    pub fn queue_capacity(self) -> (r: usize)
        ensures
            r == self@.queue_capacity,
    {
        self.queue_capacity
    }

    /// Number of delivery workers.
    pub fn worker_count(self) -> (r: usize)
        ensures
            r == self@.worker_count,
    {
        self.worker_count
    }

    /// Maximum number of simultaneously registered subscriptions.
    pub fn max_subscriptions(self) -> (r: usize)
        ensures
            r == self@.max_subscriptions,
    {
        self.max_subscriptions
    }
}

/// The handle of one delivery path.
#[derive(Clone, Copy, Debug, PartialEq, Eq, Structural, Hash)]
pub struct DeliveryHandle {
    path: usize,
}

impl View for DeliveryHandle {
    type V = usize;

    closed spec fn view(&self) -> usize {
        self.path
    }
}

/// Abstract value of a delivery path.
pub struct PathView {
    /// The handle number of the subscription the path serves.
    pub subscription: u64,
    pub queue: Seq<EventView>,
    pub scheduled: bool,
    pub closed: bool,
    pub registered: bool,
}

/// One subscription's bounded queue and scheduling state.
#[derive(Debug)]
struct DeliveryPath {
    subscription: u64,
    queue: Vec<Event>,
    scheduled: bool,
    closed: bool,
    registered: bool,
}

impl View for DeliveryPath {
    type V = PathView;

    closed spec fn view(&self) -> PathView {
        PathView {
            subscription: self.subscription,
            queue: self.queue@.map_values(|e: Event| e@),
            scheduled: self.scheduled,
            closed: self.closed,
            registered: self.registered,
        }
    }
}

/// Abstract value of a dispatcher.
pub struct DispatcherView {
    pub config: DeliveryConfigView,
    pub closed: bool,
    /// Whether the dispatcher's cancellation has been signalled.
    pub cancelled: bool,
    /// The handle numbers of the registered subscriptions.
    pub registered: Seq<u64>,
    /// The paths waiting for a worker, in order.
    pub ready: Seq<usize>,
    /// Every path ever created, by handle.
    pub paths: Seq<PathView>,
}

/// Whether a ready entry refers to another path.
pub open spec fn other_path(i: usize) -> spec_fn(usize) -> bool {
    |x: usize| x != i
}

/// Whether a registration belongs to another subscription.
pub open spec fn other_subscription(s: u64) -> spec_fn(u64) -> bool {
    |x: u64| x != s
}

/// Closes a path locally: an open path is marked closed, its queue cleared,
/// its schedule dropped and its ready entries removed; a registered path
/// then releases its subscription's registration.
pub open spec fn close_path(v: DispatcherView, i: int) -> DispatcherView {
    let p = v.paths[i];
    let v1 = if !p.closed {
        DispatcherView {
            paths: v.paths.update(
                i,
                PathView { closed: true, queue: Seq::empty(), scheduled: false, ..p },
            ),
            ready: v.ready.filter(other_path(i as usize)),
            ..v
        }
    } else {
        v
    };
    if p.registered {
        DispatcherView {
            paths: v1.paths.update(i, PathView { registered: false, ..v1.paths[i] }),
            registered: v1.registered.filter(other_subscription(p.subscription)),
            ..v1
        }
    } else {
        v1
    }
}

/// Clears a path whose scheduling failed and closes it.
pub open spec fn clear_and_close(v: DispatcherView, i: int) -> DispatcherView {
    close_path(
        DispatcherView {
            paths: v.paths.update(
                i,
                PathView { queue: Seq::empty(), scheduled: false, ..v.paths[i] },
            ),
            ..v
        },
        i,
    )
}

/// The outcome of handing an event to path `i`, given the subscription's
/// state and the authorization decision, in the order the checks apply.
pub open spec fn enqueue_outcome(
    v: DispatcherView,
    i: int,
    state: SubscriptionLifecycleState,
    authorization: Result<AuthorizationDecision, AuthorizationError>,
    event: EventView,
) -> (DispatcherView, Result<DeliveryOutcome, DeliveryError>) {
    let p = v.paths[i];
    if v.closed {
        (v, Ok(DeliveryOutcome::Closed))
    } else if authorization == Ok::<AuthorizationDecision, AuthorizationError>(
        AuthorizationDecision::Deny,
    ) {
        (v, Ok(DeliveryOutcome::Unauthorized))
    } else if authorization is Err {
        (v, Err(DeliveryError::AuthorizationFailed(authorization->Err_0)))
    } else if state == SubscriptionLifecycleState::Cancelled {
        (close_path(v, i), Ok(DeliveryOutcome::Cancelled))
    } else if state == SubscriptionLifecycleState::Closed {
        (close_path(v, i), Ok(DeliveryOutcome::Closed))
    } else if state == SubscriptionLifecycleState::Created {
        (v, Ok(DeliveryOutcome::Closed))
    } else if p.closed {
        (v, Ok(DeliveryOutcome::Closed))
    } else if v.cancelled {
        (
            DispatcherView { paths: v.paths.update(i, PathView { queue: Seq::empty(), ..p }), ..v },
            Ok(DeliveryOutcome::Cancelled),
        )
    } else if p.queue.len() >= v.config.queue_capacity {
        (v, Ok(DeliveryOutcome::Dropped))
    } else {
        let queued = PathView { queue: p.queue.push(event), scheduled: true, ..p };
        let v1 = DispatcherView { paths: v.paths.update(i, queued), ..v };
        if p.scheduled {
            (v1, Ok(DeliveryOutcome::Accepted))
        } else if !p.registered {
            (clear_and_close(v1, i), Ok(DeliveryOutcome::Closed))
        } else if v.ready.len() >= v.config.max_subscriptions {
            (clear_and_close(v1, i), Ok(DeliveryOutcome::Rejected))
        } else {
            (DispatcherView { ready: v.ready.push(i as usize), ..v1 }, Ok(DeliveryOutcome::Accepted))
        }
    }
}

/// The state after a finished delivery on path `i`: a closed path, or one
/// whose subscription is no longer active, is cleared and closed; an empty
/// queue drops the schedule; remaining work is scheduled again, and a path
/// the ready queue cannot take is cleared and closed.
pub open spec fn completion_outcome(
    v: DispatcherView,
    i: int,
    state: SubscriptionLifecycleState,
) -> DispatcherView {
    let p = v.paths[i];
    if p.closed || state != SubscriptionLifecycleState::Active {
        clear_and_close(v, i)
    } else if p.queue.len() == 0 {
        DispatcherView { paths: v.paths.update(i, PathView { scheduled: false, ..p }), ..v }
    } else if v.closed || !p.registered || v.ready.len() >= v.config.max_subscriptions {
        clear_and_close(v, i)
    } else {
        DispatcherView { ready: v.ready.push(i as usize), ..v }
    }
}

/// The bookkeeping of bounded event delivery for a set of subscriptions.
#[derive(Debug)]
pub struct DeliveryDispatcher {
    config: DeliveryConfig,
    closed: bool,
    cancelled: bool,
    registered: Vec<u64>,
    ready: Vec<usize>,
    paths: Vec<DeliveryPath>,
}

impl View for DeliveryDispatcher {
    type V = DispatcherView;

    closed spec fn view(&self) -> DispatcherView {
        DispatcherView {
            config: self.config@,
            closed: self.closed,
            cancelled: self.cancelled,
            registered: self.registered@,
            ready: self.ready@,
            paths: self.paths@.map_values(|p: DeliveryPath| p@),
        }
    }
}

/// Removes every occurrence of one value.
fn without_usize(v: &Vec<usize>, x: usize) -> (r: Vec<usize>)
    ensures
        r@ == v@.filter(other_path(x)),
{
    let ghost p = other_path(x);
    let mut r: Vec<usize> = Vec::new();
    let mut i: usize = 0;
    while i < v.len()
        invariant
            p == other_path(x),
            i <= v@.len(),
            r@ == v@.take(i as int).filter(p),
        decreases v@.len() - i,
    {
        proof {
            crate::seq_facts::lemma_filter_take_step(v@, p, i as int);
        }
        if v[i] != x {
            r.push(v[i]);
        }
        i = i + 1;
    }
    proof {
        crate::seq_facts::lemma_take_full(v@);
    }
    r
}

/// Removes every occurrence of one value.
fn without_u64(v: &Vec<u64>, x: u64) -> (r: Vec<u64>)
    ensures
        r@ == v@.filter(other_subscription(x)),
{
    let ghost p = other_subscription(x);
    let mut r: Vec<u64> = Vec::new();
    let mut i: usize = 0;
    while i < v.len()
        invariant
            p == other_subscription(x),
            i <= v@.len(),
            r@ == v@.take(i as int).filter(p),
        decreases v@.len() - i,
    {
        proof {
            crate::seq_facts::lemma_filter_take_step(v@, p, i as int);
        }
        if v[i] != x {
            r.push(v[i]);
        }
        i = i + 1;
    }
    proof {
        crate::seq_facts::lemma_take_full(v@);
    }
    r
}

impl DeliveryDispatcher {
    #[verifier::type_invariant]
    spec fn well_formed(self) -> bool {
        forall|k: int| 0 <= k < self.ready@.len() ==> self.ready@[k] < self.paths@.len()
    }

    /// Creates an open dispatcher with no registrations.
    pub fn new(config: DeliveryConfig) -> (r: DeliveryDispatcher)
        ensures
            r@ == (DispatcherView {
                config: config@,
                closed: false,
                cancelled: false,
                registered: Seq::empty(),
                ready: Seq::empty(),
                paths: Seq::empty(),
            }),
    {
        let r = DeliveryDispatcher {
            config,
            closed: false,
            cancelled: false,
            registered: Vec::new(),
            ready: Vec::new(),
            paths: Vec::new(),
        };
        assert(r.paths@.map_values(|p: DeliveryPath| p@) =~= Seq::<PathView>::empty());
        r
    }

    /// Returns the configuration.
    pub fn config(&self) -> (r: DeliveryConfig)
        ensures
            r@ == self@.config,
    {
        self.config
    }

    /// Whether the dispatcher has shut down.
    pub fn is_closed(&self) -> (r: bool)
        ensures
            r == self@.closed,
    {
        self.closed
    }

    /// Returns the number of registered subscriptions.
    pub fn registered_count(&self) -> (r: usize)
        ensures
            r == self@.registered.len(),
    {
        self.registered.len()
    }

    /// Returns the number of events queued on a path, or `None` for a
    /// handle this dispatcher did not issue.
    pub fn queued(&self, handle: DeliveryHandle) -> (r: Option<usize>)
        ensures
            r is Some <==> handle@ < self@.paths.len(),
            r matches Some(n) ==> n == self@.paths[handle@ as int].queue.len(),
    {
        if handle.path < self.paths.len() {
            Some(self.paths[handle.path].queue.len())
        } else {
            None
        }
    }

    /// Registers an active subscription and creates its delivery path.
    ///
    /// A shut-down dispatcher refuses; a subscription registered already, or
    /// one beyond the limit, is refused; a subscription that is not active
    /// is refused and leaves no registration behind.
    pub fn register(&mut self, subscription: SubscriptionHandle, state: SubscriptionLifecycleState)
        -> (r: Result<DeliveryHandle, DeliveryError>)
        ensures
            old(self)@.closed || old(self)@.cancelled ==> r == Err::<DeliveryHandle, _>(
                DeliveryError::DispatcherClosed,
            ) && final(self)@ == old(self)@,
            !old(self)@.closed && !old(self)@.cancelled && old(self)@.registered.contains(subscription@) ==> r == Err::<
                DeliveryHandle,
                _,
            >(DeliveryError::SubscriptionAlreadyRegistered) && final(self)@ == old(self)@,
            !old(self)@.closed && !old(self)@.cancelled && !old(self)@.registered.contains(subscription@)
                && old(self)@.registered.len() >= old(self)@.config.max_subscriptions ==> r
                == Err::<DeliveryHandle, _>(DeliveryError::SubscriptionLimitReached)
                && final(self)@ == old(self)@,
            !old(self)@.closed && !old(self)@.cancelled && !old(self)@.registered.contains(subscription@)
                && old(self)@.registered.len() < old(self)@.config.max_subscriptions && state
                != SubscriptionLifecycleState::Active ==> r == Err::<DeliveryHandle, _>(
                DeliveryError::SubscriptionNotActive,
            ) && final(self)@ == old(self)@,
            !old(self)@.closed && !old(self)@.cancelled && !old(self)@.registered.contains(subscription@)
                && old(self)@.registered.len() < old(self)@.config.max_subscriptions && state
                == SubscriptionLifecycleState::Active ==> (r matches Ok(h) && h@
                == old(self)@.paths.len()) && final(self)@ == (DispatcherView {
                registered: old(self)@.registered.push(subscription@),
                paths: old(self)@.paths.push(
                    PathView {
                        subscription: subscription@,
                        queue: Seq::empty(),
                        scheduled: false,
                        closed: false,
                        registered: true,
                    },
                ),
                ..old(self)@
            }),
    {
        proof {
            use_type_invariant(&*self);
        }
        if self.closed || self.cancelled {
            return Err(DeliveryError::DispatcherClosed);
        }
        let id = subscription.id();
        let mut i: usize = 0;
        while i < self.registered.len()
            invariant
                id == subscription@,
                !self.closed,
                !self.cancelled,
                i <= self.registered@.len(),
                forall|j: int| 0 <= j < i ==> self.registered@[j] != id,
            decreases self.registered@.len() - i,
        {
            if self.registered[i] == id {
                proof {
                    assert(self.registered@[i as int] == id);
                    assert(self.registered@.contains(subscription@));
                }
                return Err(DeliveryError::SubscriptionAlreadyRegistered);
            }
            i = i + 1;
        }
        if self.registered.len() >= self.config.max_subscriptions {
            return Err(DeliveryError::SubscriptionLimitReached);
        }
        if state != SubscriptionLifecycleState::Active {
            return Err(DeliveryError::SubscriptionNotActive);
        }
        let path = DeliveryPath {
            subscription: id,
            queue: Vec::new(),
            scheduled: false,
            closed: false,
            registered: true,
        };
        let handle = DeliveryHandle { path: self.paths.len() };
        let ghost before = self.paths@;
        let mut registered: Vec<u64> = Vec::new();
        std::mem::swap(&mut registered, &mut self.registered);
        registered.push(id);
        self.registered = registered;
        let mut ready: Vec<usize> = Vec::new();
        std::mem::swap(&mut ready, &mut self.ready);
        let mut paths: Vec<DeliveryPath> = Vec::new();
        std::mem::swap(&mut paths, &mut self.paths);
        paths.push(path);
        proof {
            assert(path@.queue =~= Seq::<EventView>::empty());
            assert(paths@.map_values(|p: DeliveryPath| p@) =~= before.map_values(
                |p: DeliveryPath| p@,
            ).push(path@));
        }
        self.paths = paths;
        self.ready = ready;
        Ok(handle)
    }

    /// Records that the dispatcher's cancellation has been signalled: no
    /// further registration is accepted and no further event is queued.
    pub fn signal_cancellation(&mut self)
        ensures
            final(self)@ == (DispatcherView { cancelled: true, ..old(self)@ }),
    {
        proof {
            use_type_invariant(&*self);
        }
        self.cancelled = true;
    }

    /// Replaces path `i` and returns the path it held.
    fn replace_path(&mut self, i: usize, path: DeliveryPath) -> (r: DeliveryPath)
        requires
            i < old(self)@.paths.len(),
        ensures
            r@ == old(self)@.paths[i as int],
            final(self)@ == (DispatcherView {
                paths: old(self)@.paths.update(i as int, path@),
                ..old(self)@
            }),
    {
        proof {
            use_type_invariant(&*self);
        }
        let ghost before = self.paths@;
        let mut ready: Vec<usize> = Vec::new();
        std::mem::swap(&mut ready, &mut self.ready);
        let mut paths: Vec<DeliveryPath> = Vec::new();
        std::mem::swap(&mut paths, &mut self.paths);
        let previous = paths.remove(i);
        paths.insert(i, path);
        proof {
            assert(paths@ =~= before.update(i as int, path));
            assert(paths@.map_values(|p: DeliveryPath| p@) =~= before.map_values(
                |p: DeliveryPath| p@,
            ).update(i as int, path@));
        }
        self.paths = paths;
        self.ready = ready;
        previous
    }

    /// Takes path `i` out, leaving an empty placeholder.
    fn take_path(&mut self, i: usize) -> (r: DeliveryPath)
        requires
            i < old(self)@.paths.len(),
        ensures
            r@ == old(self)@.paths[i as int],
            final(self)@.paths.len() == old(self)@.paths.len(),
            final(self)@ == (DispatcherView { paths: final(self)@.paths, ..old(self)@ }),
            forall|k: int| 0 <= k < old(self)@.paths.len() && k != i ==> final(self)@.paths[k]
                == old(self)@.paths[k],
    {
        let placeholder = DeliveryPath {
            subscription: 0,
            queue: Vec::new(),
            scheduled: false,
            closed: true,
            registered: false,
        };
        self.replace_path(i, placeholder)
    }

    /// Closes path `i` locally, as `close_path` describes.
    fn close_path_at(&mut self, i: usize)
        requires
            i < old(self)@.paths.len(),
        ensures
            final(self)@ == close_path(old(self)@, i as int),
    {
        proof {
            use_type_invariant(&*self);
        }
        let ghost v = self@;
        let mut path = self.take_path(i);
        let subscription = path.subscription;
        let was_closed = path.closed;
        let was_registered = path.registered;
        if !was_closed {
            path.closed = true;
            path.queue = Vec::new();
            path.scheduled = false;
        }
        path.registered = false;
        let ghost p = path@;
        self.replace_path(i, path);
        proof {
            assert(p.queue =~= (if was_closed { v.paths[i as int].queue } else { Seq::empty() }));
            assert(self@.paths =~= v.paths.update(i as int, p));
        }
        if !was_closed {
            proof {
                use_type_invariant(&*self);
                let f = self.ready@.filter(other_path(i));
                crate::seq_facts::lemma_filter_subset(self.ready@, other_path(i));
                assert forall|k: int| 0 <= k < f.len() implies f[k] < self.paths@.len() by {
                    assert(self.ready@.contains(f[k]));
                }
            }
            let ready = without_usize(&self.ready, i);
            self.ready = ready;
        }
        if was_registered {
            proof {
                use_type_invariant(&*self);
            }
            let registered = without_u64(&self.registered, subscription);
            self.registered = registered;
        }
        proof {
            let v1 = if !v.paths[i as int].closed {
                DispatcherView {
                    paths: v.paths.update(
                        i as int,
                        PathView {
                            closed: true,
                            queue: Seq::empty(),
                            scheduled: false,
                            ..v.paths[i as int]
                        },
                    ),
                    ready: v.ready.filter(other_path(i)),
                    ..v
                }
            } else {
                v
            };
            if v.paths[i as int].registered {
                assert(self@.paths =~= v1.paths.update(
                    i as int,
                    PathView { registered: false, ..v1.paths[i as int] },
                ));
            } else {
                assert(self@.paths =~= v1.paths);
            }
        }
    }

    /// Clears path `i` and closes it, as `clear_and_close` describes.
    fn clear_and_close_at(&mut self, i: usize)
        requires
            i < old(self)@.paths.len(),
        ensures
            final(self)@ == clear_and_close(old(self)@, i as int),
    {
        let ghost v = self@;
        let mut path = self.take_path(i);
        path.queue = Vec::new();
        path.scheduled = false;
        let ghost p = path@;
        self.replace_path(i, path);
        proof {
            assert(p.queue =~= Seq::<EventView>::empty());
            assert(self@.paths =~= v.paths.update(
                i as int,
                PathView { queue: Seq::empty(), scheduled: false, ..v.paths[i as int] },
            ));
        }
        self.close_path_at(i);
    }

    /// Hands one event to a subscription's path, given the subscription's
    /// current state and the authorization decision for it; the outcome
    /// follows `enqueue_outcome`. A handle this dispatcher did not issue is
    /// treated as a closed path.
    pub fn enqueue(
        &mut self,
        handle: DeliveryHandle,
        state: SubscriptionLifecycleState,
        authorization: Result<AuthorizationDecision, AuthorizationError>,
        event: Event,
    ) -> (r: Result<DeliveryOutcome, DeliveryError>)
        ensures
            handle@ >= old(self)@.paths.len() ==> final(self)@ == old(self)@ && r == Ok::<
                DeliveryOutcome,
                DeliveryError,
            >(DeliveryOutcome::Closed),
            handle@ < old(self)@.paths.len() ==> (final(self)@, r) == enqueue_outcome(
                old(self)@,
                handle@ as int,
                state,
                authorization,
                event@,
            ),
    {
        proof {
            use_type_invariant(&*self);
        }
        let i = handle.path;
        if i >= self.paths.len() {
            return Ok(DeliveryOutcome::Closed);
        }
        if self.closed {
            return Ok(DeliveryOutcome::Closed);
        }
        match authorization {
            Ok(AuthorizationDecision::Deny) => {
                return Ok(DeliveryOutcome::Unauthorized);
            },
            Err(error) => {
                return Err(DeliveryError::AuthorizationFailed(error));
            },
            Ok(AuthorizationDecision::Allow) => {},
        }
        match state {
            SubscriptionLifecycleState::Cancelled => {
                self.close_path_at(i);
                return Ok(DeliveryOutcome::Cancelled);
            },
            SubscriptionLifecycleState::Closed => {
                self.close_path_at(i);
                return Ok(DeliveryOutcome::Closed);
            },
            SubscriptionLifecycleState::Created => {
                return Ok(DeliveryOutcome::Closed);
            },
            SubscriptionLifecycleState::Active => {},
        }
        let ghost v = self@;
        if self.paths[i].closed {
            return Ok(DeliveryOutcome::Closed);
        }
        if self.cancelled {
            let mut path = self.take_path(i);
            path.queue = Vec::new();
            let ghost p = path@;
            self.replace_path(i, path);
            proof {
                assert(p.queue =~= Seq::<EventView>::empty());
                assert(self@.paths =~= v.paths.update(
                    i as int,
                    PathView { queue: Seq::empty(), ..v.paths[i as int] },
                ));
            }
            return Ok(DeliveryOutcome::Cancelled);
        }
        if self.paths[i].queue.len() >= self.config.queue_capacity {
            return Ok(DeliveryOutcome::Dropped);
        }
        let was_scheduled = self.paths[i].scheduled;
        let registered = self.paths[i].registered;
        let ghost event_view = event@;
        let mut path = self.take_path(i);
        let ghost q0 = path.queue@;
        path.queue.push(event);
        path.scheduled = true;
        let ghost p = path@;
        self.replace_path(i, path);
        proof {
            assert(p.queue =~= v.paths[i as int].queue.push(event_view)) by {
                assert(path.queue@ == q0.push(event));
            }
            assert(self@.paths =~= v.paths.update(
                i as int,
                PathView {
                    queue: v.paths[i as int].queue.push(event_view),
                    scheduled: true,
                    ..v.paths[i as int]
                },
            ));
        }
        if was_scheduled {
            return Ok(DeliveryOutcome::Accepted);
        }
        if !registered {
            self.clear_and_close_at(i);
            return Ok(DeliveryOutcome::Closed);
        }
        if self.ready.len() >= self.config.max_subscriptions {
            self.clear_and_close_at(i);
            return Ok(DeliveryOutcome::Rejected);
        }
        proof {
            use_type_invariant(&*self);
        }
        let mut ready: Vec<usize> = Vec::new();
        std::mem::swap(&mut ready, &mut self.ready);
        ready.push(i);
        self.ready = ready;
        Ok(DeliveryOutcome::Accepted)
    }

    /// Closes a path and releases its registration; closing again, or
    /// closing a handle this dispatcher did not issue, changes nothing more.
    pub fn close(&mut self, handle: DeliveryHandle)
        ensures
            handle@ >= old(self)@.paths.len() ==> final(self)@ == old(self)@,
            handle@ < old(self)@.paths.len() ==> final(self)@ == close_path(
                old(self)@,
                handle@ as int,
            ),
    {
        if handle.path < self.paths.len() {
            self.close_path_at(handle.path);
        }
    }

    /// Takes the next path waiting for a worker, if any.
    pub fn next_ready(&mut self) -> (r: Option<DeliveryHandle>)
        ensures
            old(self)@.ready.len() == 0 ==> r is None && final(self)@ == old(self)@,
            old(self)@.ready.len() > 0 ==> (r matches Some(h) && h@ == old(self)@.ready[0])
                && final(self)@ == (DispatcherView {
                ready: old(self)@.ready.drop_first(),
                ..old(self)@
            }),
    {
        proof {
            use_type_invariant(&*self);
        }
        if self.ready.len() == 0 {
            return None;
        }
        let mut ready: Vec<usize> = Vec::new();
        std::mem::swap(&mut ready, &mut self.ready);
        let ghost before = ready@;
        let next = ready.remove(0);
        proof {
            assert(ready@ =~= before.drop_first());
        }
        self.ready = ready;
        Some(DeliveryHandle { path: next })
    }

    /// Takes the oldest queued event of a path whose subscription is active;
    /// for a subscription that is not active the queue is cleared instead.
    pub fn take_next(&mut self, handle: DeliveryHandle, state: SubscriptionLifecycleState) -> (r:
        Option<Event>)
        ensures
            handle@ >= old(self)@.paths.len() ==> r is None && final(self)@ == old(self)@,
            handle@ < old(self)@.paths.len() && state != SubscriptionLifecycleState::Active ==> r
                is None && final(self)@ == (DispatcherView {
                paths: old(self)@.paths.update(
                    handle@ as int,
                    PathView { queue: Seq::empty(), ..old(self)@.paths[handle@ as int] },
                ),
                ..old(self)@
            }),
            handle@ < old(self)@.paths.len() && state == SubscriptionLifecycleState::Active
                && old(self)@.paths[handle@ as int].queue.len() == 0 ==> r is None && final(self)@
                == old(self)@,
            handle@ < old(self)@.paths.len() && state == SubscriptionLifecycleState::Active
                && old(self)@.paths[handle@ as int].queue.len() > 0 ==> (r matches Some(e) && e@
                == old(self)@.paths[handle@ as int].queue[0]) && final(self)@ == (DispatcherView {
                paths: old(self)@.paths.update(
                    handle@ as int,
                    PathView {
                        queue: old(self)@.paths[handle@ as int].queue.drop_first(),
                        ..old(self)@.paths[handle@ as int]
                    },
                ),
                ..old(self)@
            }),
    {
        let i = handle.path;
        if i >= self.paths.len() {
            return None;
        }
        let ghost v = self@;
        if state == SubscriptionLifecycleState::Active && self.paths[i].queue.len() == 0 {
            return None;
        }
        let mut path = self.take_path(i);
        let ghost q0 = path.queue@;
        if state != SubscriptionLifecycleState::Active {
            path.queue = Vec::new();
            let ghost p = path@;
            self.replace_path(i, path);
            proof {
                assert(p.queue =~= Seq::<EventView>::empty());
                assert(self@.paths =~= v.paths.update(
                    i as int,
                    PathView { queue: Seq::empty(), ..v.paths[i as int] },
                ));
            }
            return None;
        }
        let event = path.queue.remove(0);
        let ghost p = path@;
        self.replace_path(i, path);
        proof {
            assert(p.queue =~= v.paths[i as int].queue.drop_first()) by {
                assert(path.queue@ =~= q0.drop_first());
            }
            assert(self@.paths =~= v.paths.update(
                i as int,
                PathView { queue: v.paths[i as int].queue.drop_first(), ..v.paths[i as int] },
            ));
        }
        Some(event)
    }

    /// Finishes one delivery on a path, as `completion_outcome` describes.
    pub fn complete_delivery(&mut self, handle: DeliveryHandle, state: SubscriptionLifecycleState)
        ensures
            handle@ >= old(self)@.paths.len() ==> final(self)@ == old(self)@,
            handle@ < old(self)@.paths.len() ==> final(self)@ == completion_outcome(
                old(self)@,
                handle@ as int,
                state,
            ),
    {
        proof {
            use_type_invariant(&*self);
        }
        let i = handle.path;
        if i >= self.paths.len() {
            return;
        }
        let ghost v = self@;
        if self.paths[i].closed || state != SubscriptionLifecycleState::Active {
            self.clear_and_close_at(i);
            return;
        }
        if self.paths[i].queue.len() == 0 {
            let mut path = self.take_path(i);
            path.scheduled = false;
            let ghost p = path@;
            self.replace_path(i, path);
            proof {
                assert(self@.paths =~= v.paths.update(
                    i as int,
                    PathView { scheduled: false, ..v.paths[i as int] },
                ));
            }
            return;
        }
        if self.closed || !self.paths[i].registered || self.ready.len()
            >= self.config.max_subscriptions {
            self.clear_and_close_at(i);
            return;
        }
        let mut ready: Vec<usize> = Vec::new();
        std::mem::swap(&mut ready, &mut self.ready);
        ready.push(i);
        self.ready = ready;
    }

    /// Starts one delivery on a path a worker took from the ready queue. The
    /// path is closed without delivering when the dispatcher is shut down or
    /// cancelled, the path is closed, or its subscription is no longer
    /// active; an empty queue finishes the delivery at once; otherwise the
    /// oldest queued event is taken for delivery.
    pub fn begin_delivery(&mut self, handle: DeliveryHandle, state: SubscriptionLifecycleState) -> (r:
        Option<Event>)
        ensures
            handle@ >= old(self)@.paths.len() ==> r is None && final(self)@ == old(self)@,
            handle@ < old(self)@.paths.len() && (old(self)@.closed || old(self)@.cancelled || old(
                self,
            )@.paths[handle@ as int].closed || state != SubscriptionLifecycleState::Active)
                ==> r is None && final(self)@ == close_path(old(self)@, handle@ as int),
            handle@ < old(self)@.paths.len() && !(old(self)@.closed || old(self)@.cancelled || old(
                self,
            )@.paths[handle@ as int].closed || state != SubscriptionLifecycleState::Active)
                && old(self)@.paths[handle@ as int].queue.len() == 0 ==> r is None && final(self)@
                == completion_outcome(old(self)@, handle@ as int, state),
            handle@ < old(self)@.paths.len() && !(old(self)@.closed || old(self)@.cancelled || old(
                self,
            )@.paths[handle@ as int].closed || state != SubscriptionLifecycleState::Active)
                && old(self)@.paths[handle@ as int].queue.len() > 0 ==> (r matches Some(e) && e@
                == old(self)@.paths[handle@ as int].queue[0]) && final(self)@ == (DispatcherView {
                paths: old(self)@.paths.update(
                    handle@ as int,
                    PathView {
                        queue: old(self)@.paths[handle@ as int].queue.drop_first(),
                        ..old(self)@.paths[handle@ as int]
                    },
                ),
                ..old(self)@
            }),
    {
        let i = handle.path;
        if i >= self.paths.len() {
            return None;
        }
        if self.closed || self.cancelled || self.paths[i].closed || state
            != SubscriptionLifecycleState::Active {
            self.close(handle);
            return None;
        }
        if self.paths[i].queue.len() == 0 {
            self.complete_delivery(handle, state);
            return None;
        }
        self.take_next(handle, state)
    }

    /// Shuts the dispatcher down: no subscription stays registered and no
    /// path waits for a worker. Shutting down again changes nothing.
    pub fn shutdown(&mut self)
        ensures
            old(self)@.closed ==> final(self)@ == old(self)@,
            !old(self)@.closed ==> final(self)@ == (DispatcherView {
                closed: true,
                cancelled: true,
                registered: Seq::empty(),
                ready: Seq::empty(),
                ..old(self)@
            }),
    {
        proof {
            use_type_invariant(&*self);
        }
        if self.closed {
            return;
        }
        self.closed = true;
        self.cancelled = true;
        self.registered = Vec::new();
        self.ready = Vec::new();
    }
}

/// Scheduling is consistent: the ready queue holds each path at most once,
/// and only paths that are scheduled and open.
pub open spec fn schedule_consistent(v: DispatcherView) -> bool {
    &&& v.ready.no_duplicates()
    &&& forall|k: int|
        0 <= k < v.ready.len() ==> (#[trigger] v.ready[k]) < v.paths.len() && v.paths[v.ready[k] as int].scheduled
            && !v.paths[v.ready[k] as int].closed
}

/// Closing a path keeps scheduling consistent and leaves the path neither
/// scheduled nor waiting.
pub proof fn lemma_close_path_keeps_schedule(v: DispatcherView, i: usize)
    requires
        schedule_consistent(v),
        0 <= i < v.paths.len(),
    ensures
        schedule_consistent(close_path(v, i as int)),
        close_path(v, i as int).paths.len() == v.paths.len(),
        !close_path(v, i as int).ready.contains(i),
        close_path(v, i as int).paths[i as int].closed || v.paths[i as int].closed,
{
    let p = v.paths[i as int];
    if !p.closed {
        let f = v.ready.filter(other_path(i));
        crate::seq_facts::lemma_filter_no_duplicates(v.ready, other_path(i));
        crate::seq_facts::lemma_filter_subset(v.ready, other_path(i));
        #[allow(deprecated)]
        v.ready.filter_lemma(other_path(i));
        assert forall|k: int| 0 <= k < f.len() implies (#[trigger] f[k]) < v.paths.len() && close_path(v, i as int).paths[f[k] as int].scheduled
            && !close_path(v, i as int).paths[f[k] as int].closed by {
            assert(v.ready.contains(f[k]));
            let j = choose|j: int| 0 <= j < v.ready.len() && v.ready[j] == f[k];
            assert(v.ready[j] < v.paths.len());
            assert(other_path(i)(f[k]));
        }
        assert(!f.contains(i)) by {
            if f.contains(i) {
                let k = choose|k: int| 0 <= k < f.len() && f[k] == i;
                assert(other_path(i)(f[k]));
            }
        }
    } else {
        assert(!v.ready.contains(i)) by {
            if v.ready.contains(i) {
                let k = choose|k: int| 0 <= k < v.ready.len() && v.ready[k] == i;
                assert(!v.paths[v.ready[k] as int].closed);
            }
        }
    }
}

/// Handing an event to a path keeps scheduling consistent, so a path waits
/// for a worker at most once at a time, and never grows its queue beyond
/// the configured capacity.
pub proof fn lemma_enqueue_keeps_schedule(
    v: DispatcherView,
    i: usize,
    state: SubscriptionLifecycleState,
    authorization: Result<AuthorizationDecision, AuthorizationError>,
    event: EventView,
)
    requires
        schedule_consistent(v),
        0 <= i < v.paths.len(),
        v.paths[i as int].queue.len() <= v.config.queue_capacity,
    ensures
        schedule_consistent(enqueue_outcome(v, i as int, state, authorization, event).0),
        enqueue_outcome(v, i as int, state, authorization, event).0.paths.len() == v.paths.len(),
        enqueue_outcome(v, i as int, state, authorization, event).0.paths[i as int].queue.len()
            <= v.config.queue_capacity,
{
    let p = v.paths[i as int];
    lemma_close_path_keeps_schedule(v, i);
    if !v.closed && authorization == Ok::<AuthorizationDecision, AuthorizationError>(
        AuthorizationDecision::Allow,
    ) && state == SubscriptionLifecycleState::Active && !p.closed && !v.cancelled
        && p.queue.len() < v.config.queue_capacity {
        let queued = PathView { queue: p.queue.push(event), scheduled: true, ..p };
        let v1 = DispatcherView { paths: v.paths.update(i as int, queued), ..v };
        assert(schedule_consistent(v1));
        if !p.scheduled {
            assert(!v.ready.contains(i)) by {
                if v.ready.contains(i) {
                    let k = choose|k: int| 0 <= k < v.ready.len() && v.ready[k] == i;
                    assert(v.paths[v.ready[k] as int].scheduled);
                }
            }
            let cleared = DispatcherView {
                paths: v1.paths.update(
                    i as int,
                    PathView { queue: Seq::empty(), scheduled: false, ..v1.paths[i as int] },
                ),
                ..v1
            };
            assert(schedule_consistent(cleared)) by {
                assert forall|k: int| 0 <= k < cleared.ready.len() implies (#[trigger] cleared.ready[k])
                    < cleared.paths.len() && cleared.paths[cleared.ready[k] as int].scheduled
                    && !cleared.paths[cleared.ready[k] as int].closed by {
                    assert(v.ready[k] != i);
                }
            }
            lemma_close_path_keeps_schedule(cleared, i);
            let pushed = DispatcherView { ready: v.ready.push(i), ..v1 };
            assert(schedule_consistent(pushed)) by {
                assert forall|a: int, b: int|
                    0 <= a < pushed.ready.len() && 0 <= b < pushed.ready.len() && a != b implies pushed.ready[a]
                    != pushed.ready[b] by {
                    if a < v.ready.len() && b < v.ready.len() {
                    } else if a == v.ready.len() {
                        assert(v.ready[b] != i) by {
                            assert(v.ready.contains(v.ready[b]));
                        }
                    } else {
                        assert(v.ready[a] != i) by {
                            assert(v.ready.contains(v.ready[a]));
                        }
                    }
                }
            }
        }
    } else if !v.closed && authorization == Ok::<AuthorizationDecision, AuthorizationError>(
        AuthorizationDecision::Allow,
    ) && state == SubscriptionLifecycleState::Active && !p.closed && v.cancelled {
        let cleared = DispatcherView {
            paths: v.paths.update(i as int, PathView { queue: Seq::empty(), ..p }),
            ..v
        };
        assert(schedule_consistent(cleared));
    }
}

/// Finishing a delivery on an open path of an active subscription never
/// loses work: with events left, a registered path in an open dispatcher
/// whose ready queue has room keeps its queue and registration and waits for
/// a worker again at the back of the ready queue; with none left, the path
/// stays open and registered and merely stops being scheduled.
pub proof fn lemma_completion_keeps_pending_work(v: DispatcherView, i: usize)
    requires
        0 <= i < v.paths.len(),
        !v.paths[i as int].closed,
    ensures
        ({
            let after = completion_outcome(v, i as int, SubscriptionLifecycleState::Active);
            &&& v.paths[i as int].queue.len() > 0 && !v.closed && v.paths[i as int].registered
                && v.ready.len() < v.config.max_subscriptions ==> after.paths == v.paths
                && after.ready == v.ready.push(i) && after.registered == v.registered
                && after.closed == v.closed && after.cancelled == v.cancelled
            &&& v.paths[i as int].queue.len() == 0 ==> after.paths.len() == v.paths.len()
                && !after.paths[i as int].closed && after.paths[i as int].registered
                == v.paths[i as int].registered && !after.paths[i as int].scheduled
                && after.paths[i as int].queue.len() == 0 && after.ready == v.ready
                && after.registered == v.registered
        }),
{
}

/// A finished delivery keeps scheduling consistent for a path a worker took
/// from the ready queue: scheduled, and not waiting again.
pub proof fn lemma_completion_keeps_schedule(
    v: DispatcherView,
    i: usize,
    state: SubscriptionLifecycleState,
)
    requires
        schedule_consistent(v),
        0 <= i < v.paths.len(),
        !v.ready.contains(i),
        v.paths[i as int].scheduled,
    ensures
        schedule_consistent(completion_outcome(v, i as int, state)),
{
    let p = v.paths[i as int];
    let cleared = DispatcherView {
        paths: v.paths.update(i as int, PathView { queue: Seq::empty(), scheduled: false, ..p }),
        ..v
    };
    assert(schedule_consistent(cleared)) by {
        assert forall|k: int| 0 <= k < cleared.ready.len() implies (#[trigger] cleared.ready[k])
            < cleared.paths.len() && cleared.paths[cleared.ready[k] as int].scheduled
            && !cleared.paths[cleared.ready[k] as int].closed by {
            assert(v.ready.contains(v.ready[k]));
        }
    }
    lemma_close_path_keeps_schedule(cleared, i);
    if !(p.closed || state != SubscriptionLifecycleState::Active) {
        if p.queue.len() == 0 {
            let unscheduled = DispatcherView {
                paths: v.paths.update(i as int, PathView { scheduled: false, ..p }),
                ..v
            };
            assert(schedule_consistent(unscheduled)) by {
                assert forall|k: int| 0 <= k < unscheduled.ready.len() implies (
                #[trigger] unscheduled.ready[k]) < unscheduled.paths.len()
                    && unscheduled.paths[unscheduled.ready[k] as int].scheduled
                    && !unscheduled.paths[unscheduled.ready[k] as int].closed by {
                    assert(v.ready.contains(v.ready[k]));
                }
            }
        } else if !(v.closed || !p.registered || v.ready.len() >= v.config.max_subscriptions) {
            let pushed = DispatcherView { ready: v.ready.push(i), ..v };
            assert(schedule_consistent(pushed)) by {
                assert forall|a: int, b: int|
                    0 <= a < pushed.ready.len() && 0 <= b < pushed.ready.len() && a != b implies pushed.ready[a]
                    != pushed.ready[b] by {
                    if a < v.ready.len() && b < v.ready.len() {
                    } else if a == v.ready.len() {
                        assert(v.ready.contains(v.ready[b]));
                    } else {
                        assert(v.ready.contains(v.ready[a]));
                    }
                }
            }
        }
    }
}

} // verus!
