//! Immutable Control Plane resolution.
//!
//! A resolution composes the results of the individual resolution stages
//! (contract, capability, provider, routing policy) into one immutable
//! interaction snapshot. It discovers and recomputes nothing: every part of
//! a resolution is exactly the part it was built from, and later changes to
//! membership, policy or lifecycle never alter an existing resolution.

use vstd::prelude::*;
use crate::identity::{CapabilityId, ContractId, EngineId, EngineInstanceId, OperationId};
use crate::operation::{OperationContext, OperationContextView};
use super::policy::RoutingStrategy;

verus! {

/// Abstract value of a resolved contract.
pub struct ResolvedContractView {
    pub contract_id: Seq<char>,
    pub version: Seq<char>,
}

/// Immutable information about the resolved contract.
#[derive(Debug, PartialEq, Eq)]
pub struct ResolvedContract {
    contract_id: ContractId,
    version: String,
}

impl View for ResolvedContract {
    type V = ResolvedContractView;

    closed spec fn view(&self) -> ResolvedContractView {
        ResolvedContractView { contract_id: self.contract_id@, version: self.version@ }
    }
}

impl Clone for ResolvedContract {
    fn clone(&self) -> (r: Self)
        ensures
            r@ == self@,
    {
        ResolvedContract { contract_id: self.contract_id.clone(), version: self.version.clone() }
    }
}

impl ResolvedContract {
    /// Creates a resolved contract reference.
    pub fn new(contract_id: ContractId, version: &str) -> (r: ResolvedContract)
        ensures
            r@ == (ResolvedContractView { contract_id: contract_id@, version: version@ }),
    {
        ResolvedContract { contract_id, version: version.to_owned() }
    }

    /// Returns the resolved contract identity.
    pub fn contract_id(&self) -> (r: &ContractId)
        ensures
            r@ == self@.contract_id,
    {
        &self.contract_id
    }

    /// Returns the resolved contract version.
    pub fn version(&self) -> (r: &str)
        ensures
            r@ == self@.version,
    {
        self.version.as_str()
    }
}

/// Immutable information about the resolved capability.
#[derive(Debug, PartialEq, Eq)]
pub struct ResolvedCapability {
    capability_id: CapabilityId,
}

impl View for ResolvedCapability {
    type V = Seq<char>;

    closed spec fn view(&self) -> Seq<char> {
        self.capability_id@
    }
}

impl Clone for ResolvedCapability {
    fn clone(&self) -> (r: Self)
        ensures
            r@ == self@,
    {
        ResolvedCapability { capability_id: self.capability_id.clone() }
    }
}

impl ResolvedCapability {
    /// Creates a resolved capability reference.
    pub fn new(capability_id: CapabilityId) -> (r: ResolvedCapability)
        ensures
            r@ == capability_id@,
    {
        ResolvedCapability { capability_id }
    }

    /// Returns the resolved capability identity.
    pub fn capability_id(&self) -> (r: &CapabilityId)
        ensures
            r@ == self@,
    {
        &self.capability_id
    }
}

/// Immutable information about the resolved provider: the logical engine
/// acting as provider.
#[derive(Debug, PartialEq, Eq)]
pub struct ResolvedProvider {
    engine_id: EngineId,
}

impl View for ResolvedProvider {
    type V = Seq<char>;

    closed spec fn view(&self) -> Seq<char> {
        self.engine_id@
    }
}

impl Clone for ResolvedProvider {
    fn clone(&self) -> (r: Self)
        ensures
            r@ == self@,
    {
        ResolvedProvider { engine_id: self.engine_id.clone() }
    }
}

impl ResolvedProvider {
    /// Creates a resolved provider reference.
    pub fn new(engine_id: EngineId) -> (r: ResolvedProvider)
        ensures
            r@ == engine_id@,
    {
        ResolvedProvider { engine_id }
    }

    /// Returns the logical engine acting as the resolved provider.
    pub fn engine_id(&self) -> (r: &EngineId)
        ensures
            r@ == self@,
    {
        &self.engine_id
    }
}

/// Abstract value of a resolved routing decision.
pub struct ResolvedRoutingView {
    pub destination: Seq<char>,
    pub strategy: RoutingStrategy,
}

/// Immutable routing decision captured by the resolution: the destination
/// already selected by routing policy and the strategy that selected it.
#[derive(Debug, PartialEq, Eq)]
pub struct ResolvedRouting {
    destination: EngineInstanceId,
    strategy: RoutingStrategy,
}

impl View for ResolvedRouting {
    type V = ResolvedRoutingView;

    closed spec fn view(&self) -> ResolvedRoutingView {
        ResolvedRoutingView { destination: self.destination@, strategy: self.strategy }
    }
}

impl Clone for ResolvedRouting {
    fn clone(&self) -> (r: Self)
        ensures
            r@ == self@,
    {
        ResolvedRouting { destination: self.destination.clone(), strategy: self.strategy }
    }
}

impl ResolvedRouting {
    /// Creates a resolved routing decision.
    pub fn new(destination: EngineInstanceId, strategy: RoutingStrategy) -> (r: ResolvedRouting)
        ensures
            r@ == (ResolvedRoutingView { destination: destination@, strategy }),
    {
        ResolvedRouting { destination, strategy }
    }

    /// Returns the selected concrete engine instance.
    pub fn destination(&self) -> (r: &EngineInstanceId)
        ensures
            r@ == self@.destination,
    {
        &self.destination
    }

    /// Returns the strategy that produced the destination decision.
    pub fn strategy(&self) -> (r: RoutingStrategy)
        ensures
            r == self@.strategy,
    {
        self.strategy
    }
}

/// Abstract value of a resolution and of the input it is built from.
pub struct ResolutionView {
    pub operation_id: Seq<char>,
    pub contract: ResolvedContractView,
    pub capability: Seq<char>,
    pub provider: Option<Seq<char>>,
    pub routing: ResolvedRoutingView,
    pub context: Option<OperationContextView>,
}

/// Immutable input used to construct a resolution.
#[derive(Debug, PartialEq, Eq)]
pub struct ResolutionInput {
    operation_id: OperationId,
    contract: ResolvedContract,
    capability: ResolvedCapability,
    provider: Option<ResolvedProvider>,
    routing: ResolvedRouting,
    context: Option<OperationContext>,
}

impl View for ResolutionInput {
    type V = ResolutionView;

    closed spec fn view(&self) -> ResolutionView {
        ResolutionView {
            operation_id: self.operation_id@,
            contract: self.contract@,
            capability: self.capability@,
            provider: match self.provider {
                Some(p) => Some(p@),
                None => None,
            },
            routing: self.routing@,
            context: match self.context {
                Some(c) => Some(c@),
                None => None,
            },
        }
    }
}

fn clone_provider(provider: &Option<ResolvedProvider>) -> (r: Option<ResolvedProvider>)
    ensures
        match r {
            Some(p) => provider matches Some(q) && p@ == q@,
            None => provider is None,
        },
{
    match provider {
        Some(p) => Some(p.clone()),
        None => None,
    }
}

fn clone_context(context: &Option<OperationContext>) -> (r: Option<OperationContext>)
    ensures
        match r {
            Some(c) => context matches Some(d) && c@ == d@,
            None => context is None,
        },
{
    match context {
        Some(c) => Some(c.clone()),
        None => None,
    }
}

impl Clone for ResolutionInput {
    fn clone(&self) -> (r: Self)
        ensures
            r@ == self@,
    {
        ResolutionInput {
            operation_id: self.operation_id.clone(),
            contract: self.contract.clone(),
            capability: self.capability.clone(),
            provider: clone_provider(&self.provider),
            routing: self.routing.clone(),
            context: clone_context(&self.context),
        }
    }
}

impl ResolutionInput {
    /// Creates the minimum complete resolution input.
    pub fn new(
        operation_id: OperationId,
        contract: ResolvedContract,
        capability: ResolvedCapability,
        routing: ResolvedRouting,
    ) -> (r: ResolutionInput)
        ensures
            r@ == (ResolutionView {
                operation_id: operation_id@,
                contract: contract@,
                capability: capability@,
                provider: None,
                routing: routing@,
                context: None,
            }),
    {
        ResolutionInput {
            operation_id,
            contract,
            capability,
            provider: None,
            routing,
            context: None,
        }
    }

    /// Adds an already-resolved provider.
    pub fn with_provider(self, provider: ResolvedProvider) -> (r: ResolutionInput)
        ensures
            r@ == (ResolutionView { provider: Some(provider@), ..self@ }),
    {
        ResolutionInput { provider: Some(provider), ..self }
    }

    /// Adds an already-established operation context.
    pub fn with_context(self, context: OperationContext) -> (r: ResolutionInput)
        ensures
            r@ == (ResolutionView { context: Some(context@), ..self@ }),
    {
        ResolutionInput { context: Some(context), ..self }
    }

    /// Returns the operation identity.
    pub fn operation_id(&self) -> (r: &OperationId)
        ensures
            r@ == self@.operation_id,
    {
        &self.operation_id
    }

    /// Returns the resolved contract.
    pub fn contract(&self) -> (r: &ResolvedContract)
        ensures
            r@ == self@.contract,
    {
        &self.contract
    }

    /// Returns the resolved capability.
    pub fn capability(&self) -> (r: &ResolvedCapability)
        ensures
            r@ == self@.capability,
    {
        &self.capability
    }

    /// Returns the resolved provider, when one was required.
    pub fn provider(&self) -> (r: Option<&ResolvedProvider>)
        ensures
            match r {
                Some(p) => self@.provider == Some(p@),
                None => self@.provider is None,
            },
    {
        self.provider.as_ref()
    }

    /// Returns the resolved routing decision.
    pub fn routing(&self) -> (r: &ResolvedRouting)
        ensures
            r@ == self@.routing,
    {
        &self.routing
    }

    /// Returns the operation context, when one has already been established.
    pub fn context(&self) -> (r: Option<&OperationContext>)
        ensures
            match r {
                Some(c) => self@.context == Some(c@),
                None => self@.context is None,
            },
    {
        self.context.as_ref()
    }
}

/// Immutable result of Control Plane resolution for one interaction. It is
/// not an execution attempt and owns no execution state.
#[derive(Debug, PartialEq, Eq)]
pub struct Resolution {
    operation_id: OperationId,
    contract: ResolvedContract,
    capability: ResolvedCapability,
    provider: Option<ResolvedProvider>,
    routing: ResolvedRouting,
    context: Option<OperationContext>,
}

impl View for Resolution {
    type V = ResolutionView;

    closed spec fn view(&self) -> ResolutionView {
        ResolutionView {
            operation_id: self.operation_id@,
            contract: self.contract@,
            capability: self.capability@,
            provider: match self.provider {
                Some(p) => Some(p@),
                None => None,
            },
            routing: self.routing@,
            context: match self.context {
                Some(c) => Some(c@),
                None => None,
            },
        }
    }
}

impl Clone for Resolution {
    fn clone(&self) -> (r: Self)
        ensures
            r@ == self@,
    {
        Resolution {
            operation_id: self.operation_id.clone(),
            contract: self.contract.clone(),
            capability: self.capability.clone(),
            provider: clone_provider(&self.provider),
            routing: self.routing.clone(),
            context: clone_context(&self.context),
        }
    }
}

/// The abstract values of the parts of a resolution.
pub open spec fn parts_view(
    parts: (
        OperationId,
        ResolvedContract,
        ResolvedCapability,
        Option<ResolvedProvider>,
        ResolvedRouting,
        Option<OperationContext>,
    ),
) -> ResolutionView {
    ResolutionView {
        operation_id: parts.0@,
        contract: parts.1@,
        capability: parts.2@,
        provider: match parts.3 {
            Some(p) => Some(p@),
            None => None,
        },
        routing: parts.4@,
        context: match parts.5 {
            Some(c) => Some(c@),
            None => None,
        },
    }
}

impl Resolution {
    /// Builds an immutable resolution from an already-resolved input: every
    /// part of the resolution is the corresponding part of the input.
    pub fn resolve(input: ResolutionInput) -> (r: Resolution)
        ensures
            r@ == input@,
    {
        Resolution {
            operation_id: input.operation_id,
            contract: input.contract,
            capability: input.capability,
            provider: input.provider,
            routing: input.routing,
            context: input.context,
        }
    }

    /// Returns the operation associated with this resolution.
    pub fn operation_id(&self) -> (r: &OperationId)
        ensures
            r@ == self@.operation_id,
    {
        &self.operation_id
    }

    /// Returns the resolved contract.
    pub fn contract(&self) -> (r: &ResolvedContract)
        ensures
            r@ == self@.contract,
    {
        &self.contract
    }

    /// Returns the resolved capability.
    pub fn capability(&self) -> (r: &ResolvedCapability)
        ensures
            r@ == self@.capability,
    {
        &self.capability
    }

    /// Returns the resolved provider, when one exists.
    pub fn provider(&self) -> (r: Option<&ResolvedProvider>)
        ensures
            match r {
                Some(p) => self@.provider == Some(p@),
                None => self@.provider is None,
            },
    {
        self.provider.as_ref()
    }

    /// Returns the immutable routing decision.
    pub fn routing(&self) -> (r: &ResolvedRouting)
        ensures
            r@ == self@.routing,
    {
        &self.routing
    }

    /// Returns the selected concrete destination.
    pub fn destination(&self) -> (r: &EngineInstanceId)
        ensures
            r@ == self@.routing.destination,
    {
        self.routing.destination()
    }

    /// Returns the policy strategy that produced the destination.
    pub fn routing_strategy(&self) -> (r: RoutingStrategy)
        ensures
            r == self@.routing.strategy,
    {
        self.routing.strategy()
    }

    /// Returns the operation context, when present.
    pub fn context(&self) -> (r: Option<&OperationContext>)
        ensures
            match r {
                Some(c) => self@.context == Some(c@),
                None => self@.context is None,
            },
    {
        self.context.as_ref()
    }

    /// Consumes the resolution and returns its constituent parts.
    pub fn into_parts(self) -> (r: (
        OperationId,
        ResolvedContract,
        ResolvedCapability,
        Option<ResolvedProvider>,
        ResolvedRouting,
        Option<OperationContext>,
    ))
        ensures
            parts_view(r) == self@,
    {
        (self.operation_id, self.contract, self.capability, self.provider, self.routing, self.context)
    }
}

} // verus!
