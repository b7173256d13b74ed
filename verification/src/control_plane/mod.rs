//! The communication-focused Control Plane: registration, membership,
//! contract, capability and provider resolution, destination eligibility,
//! routing policy, resolution, routing and global coordination plans.

pub mod admission;
pub mod dependency;

pub use dependency::{
    CapabilityRequirement, CapabilityRequirementError, ConditionReference, ConditionReferenceError,
    Dependency, DependencyKind, DependencyTarget, DependencyValidationError,
};
pub mod capability;
pub mod contract;

pub use capability::{CapabilityResolutionError, CapabilityResult};
pub use contract::{ContractResolutionError, ContractResult};
pub mod provider;

pub use provider::{
    ProviderDefinitionError, ProviderDescriptor, ProviderResolutionError, ProviderResult,
};
pub mod registration;

pub use registration::{
    Endpoint, EngineRegistration, RegistrationResult, RegistrationValidationError,
    RuntimeRegistrationMetadata,
};
pub mod membership;

pub use membership::{
    Membership, MembershipError, MembershipRecord, MembershipResult, MembershipSnapshot,
};
pub mod registry;

pub use registry::{EngineRegistry, RegistryError, RegistryRecord, RegistryResult};
pub mod observations;

pub use observations::{
    EngineObservation, ObservationError, ObservationResult, ObservationSnapshot, Observations,
};
pub mod lifecycle;
pub mod destination;

pub use destination::{
    eligible_destinations, Destination, DestinationCandidate, DestinationEligibilityError,
    DestinationEligibilityInput, DestinationRequest, DestinationResult, DestinationStrength,
    DestinationValidationError, EligibleDestination, ExplicitDestination, FallbackPolicy,
    LogicalDestination,
};
pub mod policy;

pub use policy::{
    DestinationConstraint, PolicyError, PolicyInput, PolicySelection, RoutingCandidate,
    RoutingConstraints, RoutingPolicy, RoutingStrategy,
};
pub mod resolution;

pub use resolution::{
    Resolution, ResolutionInput, ResolvedCapability, ResolvedContract, ResolvedProvider,
    ResolvedRouting,
};
pub mod routing;

pub use routing::{Router, RoutingDecision, RoutingError, RoutingInput};
pub mod replanning;

pub use replanning::{
    CoordinationSnapshot, ReplanningDecision, ReplanningDelta, ReplanningInput, ReplanningReason,
    Replanner,
};
pub mod plan;

pub use plan::{
    InvalidPlanStateTransition, Plan, PlanBuildError, PlanBuilder, PlanNode,
    PlanNodeValidationError, PlanState, PlanValidationError, PlanVersion,
};
pub mod context;

pub use context::{
    ContextAcceptance, ContextAcceptanceStatus, ContextError, ContextPackage, ContextRequest,
    ContextRequirement, ContextRequirementLevel,
};
pub mod failure;
pub mod plane;

pub use failure::{ControlPlaneFailure, ControlPlaneFailureKind, ControlPlaneResult};
pub use plane::ControlPlane;
