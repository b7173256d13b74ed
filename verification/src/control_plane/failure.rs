//! Control Plane failure classification.
//!
//! A Control Plane failure adds only a classification of which Control
//! Plane responsibility failed; the underlying Core error stays exactly the
//! error it was, metadata, context, details and cause included.

use vstd::prelude::*;
use crate::error::event::{GlobalError, GlobalErrorView};

verus! {

/// Which Control Plane responsibility failed.
#[derive(Clone, Copy, Debug, PartialEq, Eq, Structural, Hash, PartialOrd, Ord)]
pub enum ControlPlaneFailureKind {
    /// The Control Plane rejected the interaction at its admission boundary.
    AdmissionFailure,
    /// Request or coordination metadata failed structural validation.
    ValidationFailure,
    /// A compatible contract or contract version could not be resolved.
    ContractResolutionFailure,
    /// The requested capability could not be resolved.
    CapabilityResolutionFailure,
    /// A compatible provider could not be resolved.
    ProviderResolutionFailure,
    /// No registered destination satisfied the eligibility requirements.
    NoEligibleDestination,
    /// A known or explicitly requested destination is unavailable.
    DestinationUnavailable,
    /// Routing policy evaluation could not produce a routing outcome.
    RoutingPolicyFailure,
    /// Required fresh coordination or resolution could not be performed.
    ControlPlaneUnavailable,
    /// Required execution context could not be resolved.
    ContextResolutionFailure,
}

/// A failure whose ownership belongs to the Control Plane.
#[derive(Debug, PartialEq, Eq)]
pub struct ControlPlaneFailure {
    kind: ControlPlaneFailureKind,
    error: GlobalError,
}

/// Abstract value of a Control Plane failure.
pub struct ControlPlaneFailureView {
    pub kind: ControlPlaneFailureKind,
    pub error: GlobalErrorView,
}

impl View for ControlPlaneFailure {
    type V = ControlPlaneFailureView;

    closed spec fn view(&self) -> ControlPlaneFailureView {
        ControlPlaneFailureView { kind: self.kind, error: self.error@ }
    }
}

impl Clone for ControlPlaneFailure {
    fn clone(&self) -> (r: Self)
        ensures
            r@ == self@,
    {
        ControlPlaneFailure { kind: self.kind, error: self.error.clone() }
    }
}

impl ControlPlaneFailure {
    /// Classifies an existing Core error as a Control Plane failure.
    pub fn new(kind: ControlPlaneFailureKind, error: GlobalError) -> (r: ControlPlaneFailure)
        ensures
            r@ == (ControlPlaneFailureView { kind, error: error@ }),
    {
        ControlPlaneFailure { kind, error }
    }

    /// Returns the classification.
    pub fn kind(&self) -> (r: ControlPlaneFailureKind)
        ensures
            r == self@.kind,
    {
        self.kind
    }

    /// Returns the underlying Core error, unchanged.
    pub fn error(&self) -> (r: &GlobalError)
        ensures
            r@ == self@.error,
    {
        &self.error
    }

    /// Consumes the failure and returns the underlying Core error unchanged.
    pub fn into_error(self) -> (r: GlobalError)
        ensures
            r@ == self@.error,
    {
        self.error
    }
}

/// Standard result type used by Control Plane modules.
pub type ControlPlaneResult<T> = Result<T, ControlPlaneFailure>;

} // verus!
