//! Concrete routing of an already-resolved Control Plane interaction.
//!
//! Routing binds an immutable resolution to one already-created execution
//! attempt. It selects nothing: the destination of a routing decision is
//! always the destination the resolution carries. It checks only that the
//! attempt belongs to the resolution's operation and, when the resolution
//! already names an attempt, that it is the same attempt.

use vstd::prelude::*;
use crate::identity::{AttemptId, EngineInstanceId, OperationId};
use crate::retry::{Attempt, AttemptView};
use super::resolution::{Resolution, ResolutionView};

verus! {

/// Input required to bind a resolved interaction to one concrete attempt.
#[derive(Debug)]
pub struct RoutingInput<'a> {
    resolution: &'a Resolution,
    attempt: &'a Attempt,
}

impl<'a> RoutingInput<'a> {
    /// Creates routing input from an existing resolution and attempt.
    pub fn new(resolution: &'a Resolution, attempt: &'a Attempt) -> (r: RoutingInput<'a>)
        ensures
            r.resolution() == resolution,
            r.attempt() == attempt,
    {
        RoutingInput { resolution, attempt }
    }

    /// Returns the immutable resolution snapshot.
    #[verifier::when_used_as_spec(spec_resolution)]
    pub fn resolution(&self) -> (r: &'a Resolution)
        ensures
            r == self.spec_resolution(),
    {
        self.resolution
    }

    /// Returns the already-created execution attempt.
    #[verifier::when_used_as_spec(spec_attempt)]
    pub fn attempt(&self) -> (r: &'a Attempt)
        ensures
            r == self.spec_attempt(),
    {
        self.attempt
    }

    pub closed spec fn spec_resolution(&self) -> &'a Resolution {
        self.resolution
    }

    pub closed spec fn spec_attempt(&self) -> &'a Attempt {
        self.attempt
    }
}

/// Abstract value of a routing decision.
pub struct RoutingDecisionView {
    pub operation_id: Seq<char>,
    pub attempt_id: Seq<char>,
    pub destination: Seq<char>,
}

/// The immutable routing decision for one concrete execution attempt.
#[derive(Debug, PartialEq, Eq)]
pub struct RoutingDecision {
    operation_id: OperationId,
    attempt_id: AttemptId,
    destination: EngineInstanceId,
}

impl View for RoutingDecision {
    type V = RoutingDecisionView;

    closed spec fn view(&self) -> RoutingDecisionView {
        RoutingDecisionView {
            operation_id: self.operation_id@,
            attempt_id: self.attempt_id@,
            destination: self.destination@,
        }
    }
}

impl Clone for RoutingDecision {
    fn clone(&self) -> (r: Self)
        ensures
            r@ == self@,
    {
        RoutingDecision {
            operation_id: self.operation_id.clone(),
            attempt_id: self.attempt_id.clone(),
            destination: self.destination.clone(),
        }
    }
}

impl RoutingDecision {
    /// Creates a routing decision from its parts.
    pub fn new(operation_id: OperationId, attempt_id: AttemptId, destination: EngineInstanceId) -> (r:
        RoutingDecision)
        ensures
            r@ == (RoutingDecisionView {
                operation_id: operation_id@,
                attempt_id: attempt_id@,
                destination: destination@,
            }),
    {
        RoutingDecision { operation_id, attempt_id, destination }
    }

    /// Returns the logical operation associated with this route.
    pub fn operation_id(&self) -> (r: &OperationId)
        ensures
            r@ == self@.operation_id,
    {
        &self.operation_id
    }

    /// Returns the concrete execution attempt associated with this route.
    pub fn attempt_id(&self) -> (r: &AttemptId)
        ensures
            r@ == self@.attempt_id,
    {
        &self.attempt_id
    }

    /// Returns the concrete engine instance selected by resolution.
    pub fn destination(&self) -> (r: &EngineInstanceId)
        ensures
            r@ == self@.destination,
    {
        &self.destination
    }

    /// Consumes the decision and returns its constituent values.
    pub fn into_parts(self) -> (r: (OperationId, AttemptId, EngineInstanceId))
        ensures
            r.0@ == self@.operation_id,
            r.1@ == self@.attempt_id,
            r.2@ == self@.destination,
    {
        (self.operation_id, self.attempt_id, self.destination)
    }
}

/// Abstract value of a routing error.
pub enum RoutingErrorView {
    OperationMismatch { resolution_operation_id: Seq<char>, attempt_operation_id: Seq<char> },
    AttemptMismatch { resolution_attempt_id: Seq<char>, routing_attempt_id: Seq<char> },
}

/// Errors owned by the routing boundary.
#[derive(Clone, Debug, PartialEq, Eq)]
pub enum RoutingError {
    /// The resolution belongs to a different operation than the attempt.
    OperationMismatch { resolution_operation_id: OperationId, attempt_operation_id: OperationId },
    /// The resolution's context names a different attempt.
    AttemptMismatch { resolution_attempt_id: AttemptId, routing_attempt_id: AttemptId },
}

impl View for RoutingError {
    type V = RoutingErrorView;

    open spec fn view(&self) -> RoutingErrorView {
        match self {
            RoutingError::OperationMismatch { resolution_operation_id, attempt_operation_id } =>
                RoutingErrorView::OperationMismatch {
                resolution_operation_id: resolution_operation_id@,
                attempt_operation_id: attempt_operation_id@,
            },
            RoutingError::AttemptMismatch { resolution_attempt_id, routing_attempt_id } =>
                RoutingErrorView::AttemptMismatch {
                resolution_attempt_id: resolution_attempt_id@,
                routing_attempt_id: routing_attempt_id@,
            },
        }
    }
}

/// The human-readable description of a routing error.
pub open spec fn routing_error_text(e: RoutingErrorView) -> Seq<char> {
    match e {
        RoutingErrorView::OperationMismatch { resolution_operation_id, attempt_operation_id } =>
            "routing operation mismatch: resolution belongs to operation "@ + resolution_operation_id
            + ", attempt belongs to operation "@ + attempt_operation_id,
        RoutingErrorView::AttemptMismatch { resolution_attempt_id, routing_attempt_id } =>
            "routing attempt mismatch: resolution context belongs to attempt "@ + resolution_attempt_id
            + ", routing was requested for attempt "@ + routing_attempt_id,
    }
}

impl RoutingError {
    /// Human-readable description of the error.
    pub fn to_string(&self) -> (r: String)
        ensures
            r@ == routing_error_text(self@),
    {
        match self {
            RoutingError::OperationMismatch { resolution_operation_id, attempt_operation_id } => {
                let text = "routing operation mismatch: resolution belongs to operation ".to_string();
                let text = text.concat(resolution_operation_id.as_str());
                let text = text.concat(", attempt belongs to operation ");
                text.concat(attempt_operation_id.as_str())
            },
            RoutingError::AttemptMismatch { resolution_attempt_id, routing_attempt_id } => {
                let text = "routing attempt mismatch: resolution context belongs to attempt ".to_string();
                let text = text.concat(resolution_attempt_id.as_str());
                let text = text.concat(", routing was requested for attempt ");
                text.concat(routing_attempt_id.as_str())
            },
        }
    }
}

/// The outcome of routing a resolution for an attempt: an operation
/// mismatch first, then a mismatch with an attempt the resolution already
/// names; otherwise the decision binding the resolution's operation and
/// destination to the attempt.
pub open spec fn routing_outcome(resolution: ResolutionView, attempt: AttemptView) -> Result<
    RoutingDecisionView,
    RoutingErrorView,
> {
    if resolution.operation_id != attempt.operation_id {
        Err(
            RoutingErrorView::OperationMismatch {
                resolution_operation_id: resolution.operation_id,
                attempt_operation_id: attempt.operation_id,
            },
        )
    } else if resolution.context matches Some(c) && c.attempt_id matches Some(a) && a
        != attempt.attempt_id {
        Err(
            RoutingErrorView::AttemptMismatch {
                resolution_attempt_id: resolution.context->Some_0.attempt_id->Some_0,
                routing_attempt_id: attempt.attempt_id,
            },
        )
    } else {
        Ok(
            RoutingDecisionView {
                operation_id: resolution.operation_id,
                attempt_id: attempt.attempt_id,
                destination: resolution.routing.destination,
            },
        )
    }
}

/// The abstract outcome of a routing call.
pub open spec fn decision_outcome(r: Result<RoutingDecision, RoutingError>) -> Result<
    RoutingDecisionView,
    RoutingErrorView,
> {
    match r {
        Ok(d) => Ok(d@),
        Err(e) => Err(e@),
    }
}

/// Stateless Control Plane router.
#[derive(Clone, Copy, Debug, PartialEq, Eq, Structural)]
pub struct Router;

impl Default for Router {
    fn default() -> (r: Router)
        ensures
            r == Router,
    {
        Router
    }
}

impl Router {
    /// Creates a stateless router.
    pub fn new() -> (r: Router)
        ensures
            r == Router,
    {
        Router
    }

    /// Binds an already-resolved interaction to an already-authorized
    /// attempt, without selecting any destination.
    pub fn route(&self, input: RoutingInput<'_>) -> (r: Result<RoutingDecision, RoutingError>)
        ensures
            decision_outcome(r) == routing_outcome(input.resolution()@, input.attempt()@),
    {
        let resolution = input.resolution();
        let attempt = input.attempt();
        if !resolution.operation_id().same_as(attempt.operation_id()) {
            return Err(
                RoutingError::OperationMismatch {
                    resolution_operation_id: resolution.operation_id().clone(),
                    attempt_operation_id: attempt.operation_id().clone(),
                },
            );
        }
        match resolution.context() {
            Some(context) => match &context.attempt_id {
                Some(resolution_attempt_id) => {
                    if !resolution_attempt_id.same_as(attempt.attempt_id()) {
                        return Err(
                            RoutingError::AttemptMismatch {
                                resolution_attempt_id: resolution_attempt_id.clone(),
                                routing_attempt_id: attempt.attempt_id().clone(),
                            },
                        );
                    }
                },
                None => {},
            },
            None => {},
        }
        Ok(
            RoutingDecision::new(
                resolution.operation_id().clone(),
                attempt.attempt_id().clone(),
                resolution.destination().clone(),
            ),
        )
    }

    /// Routes without instantiating a `Router` value.
    pub fn route_resolved(resolution: &Resolution, attempt: &Attempt) -> (r: Result<
        RoutingDecision,
        RoutingError,
    >)
        ensures
            decision_outcome(r) == routing_outcome(resolution@, attempt@),
    {
        Router::new().route(RoutingInput::new(resolution, attempt))
    }
}

/// Routing never selects a destination. A successful decision binds
/// the resolution's operation and destination to the routed attempt, and
/// routing succeeds whenever the attempt belongs to the resolution's
/// operation and the resolution names no other attempt.
pub proof fn lemma_routing_preserves_destination(resolution: ResolutionView, attempt: AttemptView)
    ensures
        routing_outcome(resolution, attempt) matches Ok(d) ==> d.destination
            == resolution.routing.destination && d.operation_id == resolution.operation_id
            && d.attempt_id == attempt.attempt_id,
        (resolution.operation_id == attempt.operation_id && (resolution.context matches Some(c)
            ==> (c.attempt_id matches Some(a) ==> a == attempt.attempt_id))) ==> routing_outcome(
            resolution,
            attempt,
        ) is Ok,
{
}

} // verus!
