//! Engine registration declarations for the Control Plane.
//!
//! `EngineRegistration` describes what one concrete engine instance
//! advertises. Routing membership is maintained separately.

use vstd::prelude::*;
use crate::capability::{CapabilityDefinition, CapabilityView};
use crate::contracts::{ContractDescriptor, ContractView, Version};
use crate::health::ReadinessReport;
use crate::identity::{CapabilityId, EngineId, EngineInstanceId};
use crate::runtime::LifecycleState;
use crate::text::{is_blank, seq_lt, str_is_blank};
use crate::text_map::TextMap;
use super::capability::capability_views;
use super::contract::contract_views;

verus! {

/// A generic communication endpoint advertised by an engine instance.
#[derive(Debug, PartialEq, Eq)]
pub struct Endpoint {
    address: String,
}

impl View for Endpoint {
    type V = Seq<char>;

    closed spec fn view(&self) -> Seq<char> {
        self.address@
    }
}

impl Clone for Endpoint {
    fn clone(&self) -> (r: Self)
        ensures
            r@ == self@,
    {
        Endpoint { address: self.address.clone() }
    }
}

impl Endpoint {
    /// Creates an endpoint from a non-blank address.
    pub fn new(address: &str) -> (r: Result<Endpoint, RegistrationValidationError>)
        ensures
            r is Ok <==> !is_blank(address@),
            r matches Ok(e) ==> e@ == address@,
            r is Err ==> r == Err::<Endpoint, _>(RegistrationValidationError::EmptyEndpoint),
    {
        if str_is_blank(address) {
            return Err(RegistrationValidationError::EmptyEndpoint);
        }
        Ok(Endpoint { address: address.to_owned() })
    }

    /// Creates an endpoint holding `address` as given, without checking it;
    /// `EngineRegistration::validate` reports a blank one.
    pub fn unchecked(address: &str) -> (r: Endpoint)
        ensures
            r@ == address@,
    {
        Endpoint { address: address.to_owned() }
    }

    /// Returns the advertised endpoint address.
    pub fn address(&self) -> (r: &str)
        ensures
            r@ == self@,
    {
        self.address.as_str()
    }
}

/// Runtime observations carried by an engine registration.
#[derive(Clone, Copy, Debug, Default, PartialEq, Eq, Structural)]
pub struct RuntimeRegistrationMetadata {
    pub version: Option<Version>,
    pub lifecycle: Option<LifecycleState>,
    pub readiness: Option<ReadinessReport>,
}

impl RuntimeRegistrationMetadata {
    /// Creates empty runtime registration metadata.
    pub fn new() -> (r: RuntimeRegistrationMetadata)
        ensures
            r == (RuntimeRegistrationMetadata { version: None, lifecycle: None, readiness: None }),
    {
        RuntimeRegistrationMetadata { version: None, lifecycle: None, readiness: None }
    }

    /// Adds the runtime version observation.
    pub fn with_version(self, version: Version) -> (r: RuntimeRegistrationMetadata)
        ensures
            r == (RuntimeRegistrationMetadata { version: Some(version), ..self }),
    {
        RuntimeRegistrationMetadata { version: Some(version), ..self }
    }

    /// Adds the runtime lifecycle observation.
    pub fn with_lifecycle(self, lifecycle: LifecycleState) -> (r: RuntimeRegistrationMetadata)
        ensures
            r == (RuntimeRegistrationMetadata { lifecycle: Some(lifecycle), ..self }),
    {
        RuntimeRegistrationMetadata { lifecycle: Some(lifecycle), ..self }
    }

    /// Adds the runtime readiness observation.
    pub fn with_readiness(self, readiness: ReadinessReport) -> (r: RuntimeRegistrationMetadata)
        ensures
            r == (RuntimeRegistrationMetadata { readiness: Some(readiness), ..self }),
    {
        RuntimeRegistrationMetadata { readiness: Some(readiness), ..self }
    }

    /// Returns the optional runtime version.
    pub fn version(&self) -> (r: Option<&Version>)
        ensures
            match r {
                Some(v) => self.version == Some(*v),
                None => self.version is None,
            },
    {
        self.version.as_ref()
    }

    /// Returns the optional lifecycle observation.
    pub fn lifecycle(&self) -> (r: Option<LifecycleState>)
        ensures
            r == self.lifecycle,
    {
        self.lifecycle
    }

    /// Returns the optional readiness observation.
    pub fn readiness(&self) -> (r: Option<&ReadinessReport>)
        ensures
            match r {
                Some(v) => self.readiness == Some(*v),
                None => self.readiness is None,
            },
    {
        self.readiness.as_ref()
    }
}

/// Errors produced by structural validation of an engine registration.
#[derive(Clone, Debug, PartialEq, Eq)]
pub enum RegistrationValidationError {
    /// A capability is declared as owned by a different logical engine.
    CapabilityOwnerMismatch {
        capability_id: CapabilityId,
        registration_engine_id: EngineId,
        capability_engine_id: EngineId,
    },
    /// An endpoint address is empty or whitespace-only.
    EmptyEndpoint,
    /// Routing metadata contains an empty or whitespace-only key.
    EmptyRoutingMetadataKey,
    /// Routing metadata contains an empty or whitespace-only value.
    EmptyRoutingMetadataValue,
}

/// The human-readable description of a registration validation error.
pub open spec fn registration_error_text(e: RegistrationValidationError) -> Seq<char> {
    match e {
        RegistrationValidationError::CapabilityOwnerMismatch {
            capability_id,
            registration_engine_id,
            capability_engine_id,
        } => "capability "@ + capability_id@ + " is owned by engine "@ + capability_engine_id@
            + ", but registration belongs to engine "@ + registration_engine_id@,
        RegistrationValidationError::EmptyEndpoint => "an engine registration endpoint must not be empty"@,
        RegistrationValidationError::EmptyRoutingMetadataKey => "a routing metadata key must not be empty"@,
        RegistrationValidationError::EmptyRoutingMetadataValue => "a routing metadata value must not be empty"@,
    }
}

impl RegistrationValidationError {
    /// Human-readable description of the error.
    pub fn to_string(&self) -> (r: String)
        ensures
            r@ == registration_error_text(*self),
    {
        match self {
            RegistrationValidationError::CapabilityOwnerMismatch {
                capability_id,
                registration_engine_id,
                capability_engine_id,
            } => {
                let text = "capability ".to_string();
                let text = text.concat(capability_id.as_str());
                let text = text.concat(" is owned by engine ");
                let text = text.concat(capability_engine_id.as_str());
                let text = text.concat(", but registration belongs to engine ");
                text.concat(registration_engine_id.as_str())
            },
            RegistrationValidationError::EmptyEndpoint => "an engine registration endpoint must not be empty".to_string(),
            RegistrationValidationError::EmptyRoutingMetadataKey => "a routing metadata key must not be empty".to_string(),
            RegistrationValidationError::EmptyRoutingMetadataValue => "a routing metadata value must not be empty".to_string(),
        }
    }
}

/// Result alias for registration-local operations.
pub type RegistrationResult<T> = Result<T, RegistrationValidationError>;

/// Abstract value of an engine registration.
pub struct RegistrationView {
    pub engine_id: Seq<char>,
    pub engine_instance_id: Seq<char>,
    pub capabilities: Seq<CapabilityView>,
    pub contracts: Seq<ContractView>,
    pub endpoint: Option<Seq<char>>,
    pub runtime: RuntimeRegistrationMetadata,
    pub routing_metadata: Map<Seq<char>, Seq<char>>,
}

/// Declarative description presented by one concrete engine runtime.
#[derive(Debug, PartialEq, Eq)]
pub struct EngineRegistration {
    engine_id: EngineId,
    engine_instance_id: EngineInstanceId,
    capabilities: Vec<CapabilityDefinition>,
    contracts: Vec<ContractDescriptor>,
    endpoint: Option<Endpoint>,
    runtime: RuntimeRegistrationMetadata,
    routing_metadata: TextMap,
}

impl View for EngineRegistration {
    type V = RegistrationView;

    closed spec fn view(&self) -> RegistrationView {
        RegistrationView {
            engine_id: self.engine_id@,
            engine_instance_id: self.engine_instance_id@,
            capabilities: capability_views(self.capabilities@),
            contracts: contract_views(self.contracts@),
            endpoint: match self.endpoint {
                Some(e) => Some(e@),
                None => None,
            },
            runtime: self.runtime,
            routing_metadata: self.routing_metadata@,
        }
    }
}

impl Clone for EngineRegistration {
    fn clone(&self) -> (r: Self)
        ensures
            r@ == self@,
    {
        let endpoint = match &self.endpoint {
            Some(e) => Some(e.clone()),
            None => None,
        };
        let r = EngineRegistration {
            engine_id: self.engine_id.clone(),
            engine_instance_id: self.engine_instance_id.clone(),
            capabilities: self.capabilities.clone(),
            contracts: self.contracts.clone(),
            endpoint,
            runtime: self.runtime,
            routing_metadata: self.routing_metadata.clone(),
        };
        assert(capability_views(r.capabilities@) =~= capability_views(self.capabilities@));
        assert(contract_views(r.contracts@) =~= contract_views(self.contracts@));
        r
    }
}

/// Whether the first routing-metadata entry, in key order, whose key or
/// value is blank has a blank key.
pub open spec fn first_blank_is_key(m: Map<Seq<char>, Seq<char>>) -> bool {
    exists|k: Seq<char>|
        #[trigger] m.dom().contains(k) && is_blank(k) && (forall|k2: Seq<char>|
            m.dom().contains(k2) && #[trigger] seq_lt(k2, k) ==> !is_blank(k2) && !is_blank(m[k2]))
}

/// Whether every routing-metadata key and value is non-blank.
pub open spec fn metadata_nonblank(m: Map<Seq<char>, Seq<char>>) -> bool {
    forall|k: Seq<char>| #[trigger] m.dom().contains(k) ==> !is_blank(k) && !is_blank(m[k])
}

/// Whether every advertised capability is owned by the registering engine.
pub open spec fn capabilities_owned(v: RegistrationView) -> bool {
    forall|i: int| 0 <= i < v.capabilities.len() ==> (#[trigger] v.capabilities[i]).owning_engine
        == v.engine_id
}

/// Whether the registration carries an endpoint with a blank address.
pub open spec fn endpoint_blank(v: RegistrationView) -> bool {
    match v.endpoint {
        Some(a) => is_blank(a),
        None => false,
    }
}

/// Whether a registration satisfies all structural invariants.
pub open spec fn registration_valid(v: RegistrationView) -> bool {
    &&& capabilities_owned(v)
    &&& match v.endpoint {
        Some(a) => !is_blank(a),
        None => true,
    }
    &&& metadata_nonblank(v.routing_metadata)
}

/// Whether `e` is the error validation reports for a registration: the
/// first capability owned by another engine, then a blank endpoint, then the
/// first blank routing-metadata entry in key order.
pub open spec fn reported_validation_error(v: RegistrationView, e: RegistrationValidationError) -> bool {
    match e {
        RegistrationValidationError::CapabilityOwnerMismatch {
            capability_id,
            registration_engine_id,
            capability_engine_id,
        } => exists|i: int|
            0 <= i < v.capabilities.len() && (#[trigger] v.capabilities[i]).owning_engine
                != v.engine_id && v.capabilities[i].capability_id == capability_id@
                && capability_engine_id@ == v.capabilities[i].owning_engine
                && registration_engine_id@ == v.engine_id && (forall|j: int|
                0 <= j < i ==> (#[trigger] v.capabilities[j]).owning_engine
                    == v.engine_id),
        RegistrationValidationError::EmptyEndpoint => capabilities_owned(v)
            && endpoint_blank(v),
        RegistrationValidationError::EmptyRoutingMetadataKey => capabilities_owned(v)
            && !endpoint_blank(v) && first_blank_is_key(
            v.routing_metadata,
        ),
        RegistrationValidationError::EmptyRoutingMetadataValue => capabilities_owned(v)
            && !endpoint_blank(v) && !metadata_nonblank(
            v.routing_metadata,
        ) && !first_blank_is_key(v.routing_metadata),
    }
}

impl EngineRegistration {
    /// Creates a registration for one logical engine and one concrete instance.
    pub fn new(engine_id: EngineId, engine_instance_id: EngineInstanceId) -> (r: EngineRegistration)
        ensures
            r@ == (RegistrationView {
                engine_id: engine_id@,
                engine_instance_id: engine_instance_id@,
                capabilities: Seq::empty(),
                contracts: Seq::empty(),
                endpoint: None,
                runtime: RuntimeRegistrationMetadata {
                    version: None,
                    lifecycle: None,
                    readiness: None,
                },
                routing_metadata: Map::empty(),
            }),
    {
        let r = EngineRegistration {
            engine_id,
            engine_instance_id,
            capabilities: Vec::new(),
            contracts: Vec::new(),
            endpoint: None,
            runtime: RuntimeRegistrationMetadata::new(),
            routing_metadata: TextMap::new(),
        };
        assert(capability_views(r.capabilities@) =~= Seq::<CapabilityView>::empty());
        assert(contract_views(r.contracts@) =~= Seq::<ContractView>::empty());
        r
    }

    /// Assembles a registration from its parts as given, without checking
    /// them; `validate` reports the first incoherence.
    pub fn from_parts(
        engine_id: EngineId,
        engine_instance_id: EngineInstanceId,
        capabilities: Vec<CapabilityDefinition>,
        contracts: Vec<ContractDescriptor>,
        endpoint: Option<Endpoint>,
        runtime: RuntimeRegistrationMetadata,
        routing_metadata: TextMap,
    ) -> (r: EngineRegistration)
        ensures
            r@ == (RegistrationView {
                engine_id: engine_id@,
                engine_instance_id: engine_instance_id@,
                capabilities: capability_views(capabilities@),
                contracts: contract_views(contracts@),
                endpoint: match endpoint {
                    Some(e) => Some(e@),
                    None => None,
                },
                runtime: runtime,
                routing_metadata: routing_metadata@,
            }),
    {
        EngineRegistration {
            engine_id,
            engine_instance_id,
            capabilities,
            contracts,
            endpoint,
            runtime,
            routing_metadata,
        }
    }

    /// Adds a capability advertisement owned by the registering engine.
    pub fn with_capability(self, capability: CapabilityDefinition) -> (r: RegistrationResult<
        EngineRegistration,
    >)
        ensures
            r is Ok <==> capability@.owning_engine == self@.engine_id,
            r matches Ok(x) ==> x@ == (RegistrationView {
                capabilities: self@.capabilities.push(capability@),
                ..self@
            }),
            r matches Err(e) ==> e == (RegistrationValidationError::CapabilityOwnerMismatch {
                capability_id: e->capability_id,
                registration_engine_id: e->registration_engine_id,
                capability_engine_id: e->capability_engine_id,
            }) && e->capability_id@ == capability@.capability_id && e->registration_engine_id@
                == self@.engine_id && e->capability_engine_id@ == capability@.owning_engine,
    {
        if !capability.owning_engine().same_as(&self.engine_id) {
            return Err(
                RegistrationValidationError::CapabilityOwnerMismatch {
                    capability_id: capability.capability_id().clone(),
                    registration_engine_id: self.engine_id.clone(),
                    capability_engine_id: capability.owning_engine().clone(),
                },
            );
        }
        let mut registration = self;
        let ghost before = registration@;
        registration.capabilities.push(capability);
        assert(capability_views(registration.capabilities@) =~= before.capabilities.push(
            capability@,
        ));
        Ok(registration)
    }

    /// Adds a supported contract descriptor.
    pub fn with_contract(self, contract: ContractDescriptor) -> (r: EngineRegistration)
        ensures
            r@ == (RegistrationView { contracts: self@.contracts.push(contract@), ..self@ }),
    {
        let mut registration = self;
        let ghost before = registration@;
        registration.contracts.push(contract);
        assert(contract_views(registration.contracts@) =~= before.contracts.push(contract@));
        registration
    }

    /// Adds a transport endpoint description.
    pub fn with_endpoint(self, endpoint: Endpoint) -> (r: EngineRegistration)
        ensures
            r@ == (RegistrationView { endpoint: Some(endpoint@), ..self@ }),
    {
        let mut registration = self;
        registration.endpoint = Some(endpoint);
        registration
    }

    /// Adds runtime metadata observations.
    pub fn with_runtime_metadata(self, runtime: RuntimeRegistrationMetadata) -> (r:
        EngineRegistration)
        ensures
            r@ == (RegistrationView { runtime, ..self@ }),
    {
        let mut registration = self;
        registration.runtime = runtime;
        registration
    }

    /// Adds one routing metadata entry with a non-blank key and value.
    pub fn with_routing_metadata(self, key: &str, value: &str) -> (r: RegistrationResult<
        EngineRegistration,
    >)
        ensures
            r is Ok <==> !is_blank(key@) && !is_blank(value@),
            r matches Ok(x) ==> x@ == (RegistrationView {
                routing_metadata: self@.routing_metadata.insert(key@, value@),
                ..self@
            }),
            is_blank(key@) ==> r == Err::<EngineRegistration, _>(
                RegistrationValidationError::EmptyRoutingMetadataKey,
            ),
            !is_blank(key@) && is_blank(value@) ==> r == Err::<EngineRegistration, _>(
                RegistrationValidationError::EmptyRoutingMetadataValue,
            ),
    {
        if str_is_blank(key) {
            return Err(RegistrationValidationError::EmptyRoutingMetadataKey);
        }
        if str_is_blank(value) {
            return Err(RegistrationValidationError::EmptyRoutingMetadataValue);
        }
        let mut registration = self;
        registration.routing_metadata.insert(key.to_owned(), value.to_owned());
        Ok(registration)
    }

    /// Validates structural and cross-field registration invariants: the
    /// first capability owned by another engine, then a blank endpoint, then
    /// the first blank routing-metadata entry in key order.
    pub fn validate(&self) -> (r: RegistrationResult<()>)
        ensures
            r is Ok <==> registration_valid(self@),
            r matches Err(e) ==> reported_validation_error(self@, e),
    {
        let ghost v = self@;
        let mut i: usize = 0;
        while i < self.capabilities.len()
            invariant
                v == self@,
                i <= self.capabilities@.len(),
                forall|j: int| 0 <= j < i ==> (#[trigger] v.capabilities[j]).owning_engine == v.engine_id,
            decreases self.capabilities@.len() - i,
        {
            assert(v.capabilities[i as int] == self.capabilities@[i as int]@);
            let capability = &self.capabilities[i];
            if !capability.owning_engine().same_as(&self.engine_id) {
                return Err(
                    RegistrationValidationError::CapabilityOwnerMismatch {
                        capability_id: capability.capability_id().clone(),
                        registration_engine_id: self.engine_id.clone(),
                        capability_engine_id: capability.owning_engine().clone(),
                    },
                );
            }
            i = i + 1;
        }
        if let Some(endpoint) = &self.endpoint {
            if str_is_blank(endpoint.address()) {
                return Err(RegistrationValidationError::EmptyEndpoint);
            }
        }
        match self.routing_metadata.first_blank() {
            Some(true) => Err(RegistrationValidationError::EmptyRoutingMetadataKey),
            Some(false) => {
                proof {
                    let m = v.routing_metadata;
                    if first_blank_is_key(m) {
                        let k1 = choose|k: Seq<char>|
                            #[trigger] m.dom().contains(k) && is_blank(k) && (forall|k2: Seq<char>|
                                m.dom().contains(k2) && #[trigger] seq_lt(k2, k) ==> !is_blank(k2)
                                    && !is_blank(m[k2]));
                        let k0 = choose|k: Seq<char>|
                            #[trigger] m.dom().contains(k) && !is_blank(k) && is_blank(m[k]) && (
                            forall|k2: Seq<char>|
                                m.dom().contains(k2) && #[trigger] seq_lt(k2, k) ==> !is_blank(k2)
                                    && !is_blank(m[k2]));
                        assert(k0 != k1);
                        crate::text::lemma_seq_lt_total(k0, k1);
                        if seq_lt(k0, k1) {
                        } else {
                        }
                    }
                }
                Err(RegistrationValidationError::EmptyRoutingMetadataValue)
            },
            None => Ok(()),
        }
    }

    /// Returns the logical engine identifier.
    pub fn engine_id(&self) -> (r: &EngineId)
        ensures
            r@ == self@.engine_id,
    {
        &self.engine_id
    }

    /// Returns the concrete engine instance identifier.
    pub fn engine_instance_id(&self) -> (r: &EngineInstanceId)
        ensures
            r@ == self@.engine_instance_id,
    {
        &self.engine_instance_id
    }

    /// Returns the advertised capabilities.
    pub fn capabilities(&self) -> (r: &[CapabilityDefinition])
        ensures
            capability_views(r@) == self@.capabilities,
    {
        self.capabilities.as_slice()
    }

    /// Returns the advertised contracts.
    pub fn contracts(&self) -> (r: &[ContractDescriptor])
        ensures
            contract_views(r@) == self@.contracts,
    {
        self.contracts.as_slice()
    }

    /// Returns the optional transport endpoint metadata.
    pub fn endpoint(&self) -> (r: Option<&Endpoint>)
        ensures
            match r {
                Some(e) => self@.endpoint == Some(e@),
                None => self@.endpoint is None,
            },
    {
        self.endpoint.as_ref()
    }

    /// Returns runtime registration metadata observations.
    pub fn runtime(&self) -> (r: &RuntimeRegistrationMetadata)
        ensures
            *r == self@.runtime,
    {
        &self.runtime
    }

    /// Returns routing metadata.
    pub fn routing_metadata(&self) -> (r: &TextMap)
        ensures
            r@ == self@.routing_metadata,
    {
        &self.routing_metadata
    }
}

} // verus!
