//! Control Plane composition boundary.
//!
//! The Control Plane is stateless: it exposes replanning, resolution and
//! routing through one boundary and delegates each to the module that owns
//! it, so every result is exactly the result of that module.

use vstd::prelude::*;
use crate::retry::Attempt;
use super::replanning::{
    replanning_decision, CoordinationSnapshot, Replanner, ReplanningDecision, ReplanningInput,
};
use super::resolution::{Resolution, ResolutionInput};
use super::routing::{
    decision_outcome, routing_outcome, Router, RoutingDecision, RoutingError, RoutingInput,
};

verus! {

/// The stateless Control Plane composition boundary.
#[derive(Clone, Copy, Debug, PartialEq, Eq, Structural)]
pub struct ControlPlane;

impl Default for ControlPlane {
    fn default() -> (r: ControlPlane)
        ensures
            r == ControlPlane,
    {
        ControlPlane
    }
}

impl ControlPlane {
    /// Creates a stateless Control Plane.
    pub fn new() -> (r: ControlPlane)
        ensures
            r == ControlPlane,
    {
        ControlPlane
    }

    /// Evaluates whether a proposed coordination state requires a new plan
    /// version.
    pub fn evaluate_replanning(&self, input: ReplanningInput<'_>) -> (r: ReplanningDecision)
        ensures
            r == replanning_decision(input.current()@, input.proposed()@),
    {
        Replanner::new().evaluate(input)
    }

    /// Evaluates two coordination snapshots.
    pub fn evaluate_replanning_snapshots(
        &self,
        current: &CoordinationSnapshot,
        proposed: &CoordinationSnapshot,
    ) -> (r: ReplanningDecision)
        ensures
            r == replanning_decision(current@, proposed@),
    {
        Replanner::evaluate_snapshots(current, proposed)
    }

    /// Builds the immutable resolution of an already-resolved input.
    pub fn resolve(&self, input: ResolutionInput) -> (r: Resolution)
        ensures
            r@ == input@,
    {
        Resolution::resolve(input)
    }

    /// Routes an already-resolved interaction for an already-created
    /// attempt.
    pub fn route(&self, input: RoutingInput<'_>) -> (r: Result<RoutingDecision, RoutingError>)
        ensures
            decision_outcome(r) == routing_outcome(input.resolution()@, input.attempt()@),
    {
        Router::new().route(input)
    }

    /// Routes a resolution for an attempt.
    pub fn route_resolved(&self, resolution: &Resolution, attempt: &Attempt) -> (r: Result<
        RoutingDecision,
        RoutingError,
    >)
        ensures
            decision_outcome(r) == routing_outcome(resolution@, attempt@),
    {
        Router::route_resolved(resolution, attempt)
    }
}

} // verus!
