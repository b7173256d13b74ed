//! Declarative provider metadata and provider-resolution helpers.
//!
//! `ProviderDescriptor` describes one logical provider: its owning engine,
//! advertised capabilities and contracts. This module returns compatible
//! provider candidates; it never selects one.

use vstd::prelude::*;
use crate::contracts::{compare_contracts, compatibility, ContractDescriptor, ContractView, Version};
use crate::identity::{CapabilityId, ContractId, EngineId};
use crate::seq_facts::{lemma_filter_empty, lemma_filter_take_step, lemma_take_full};
use crate::status::Compatibility;
use crate::text_map::TextMap;
use super::contract::{borrowed_contract_views, compatible_with, contract_views};

verus! {

/// Provider identity, an owned text.
pub type ProviderId = String;

/// Abstract value of a provider descriptor.
pub struct ProviderView {
    pub provider_id: Seq<char>,
    pub owning_engine: Seq<char>,
    pub capabilities: Seq<Seq<char>>,
    pub contracts: Seq<ContractView>,
    pub version: Option<Version>,
    pub metadata: Map<Seq<char>, Seq<char>>,
}

/// Declarative metadata describing one logical provider.
#[derive(Debug, PartialEq, Eq)]
pub struct ProviderDescriptor {
    provider_id: ProviderId,
    owning_engine: EngineId,
    capabilities: Vec<CapabilityId>,
    contracts: Vec<ContractDescriptor>,
    version: Option<Version>,
    metadata: TextMap,
}

/// The identity texts of a list of capabilities.
pub open spec fn capability_id_views(c: Seq<CapabilityId>) -> Seq<Seq<char>> {
    c.map_values(|x: CapabilityId| x@)
}

impl View for ProviderDescriptor {
    type V = ProviderView;

    closed spec fn view(&self) -> ProviderView {
        ProviderView {
            provider_id: self.provider_id@,
            owning_engine: self.owning_engine@,
            capabilities: capability_id_views(self.capabilities@),
            contracts: contract_views(self.contracts@),
            version: self.version,
            metadata: self.metadata@,
        }
    }
}

impl Clone for ProviderDescriptor {
    fn clone(&self) -> (r: Self)
        ensures
            r@ == self@,
    {
        let r = ProviderDescriptor {
            provider_id: self.provider_id.clone(),
            owning_engine: self.owning_engine.clone(),
            capabilities: self.capabilities.clone(),
            contracts: self.contracts.clone(),
            version: self.version,
            metadata: self.metadata.clone(),
        };
        assert(capability_id_views(r.capabilities@) =~= capability_id_views(self.capabilities@));
        assert(contract_views(r.contracts@) =~= contract_views(self.contracts@));
        r
    }
}

/// Whether a provider advertises a capability.
pub open spec fn advertises_capability(p: ProviderView, capability: Seq<char>) -> bool {
    p.capabilities.contains(capability)
}

/// Contract `k` is the first, in list order, whose capability the provider
/// does not advertise.
pub open spec fn first_unadvertised_contract(p: ProviderView, k: int) -> bool {
    &&& 0 <= k < p.contracts.len()
    &&& !advertises_capability(p, p.contracts[k].capability_id)
    &&& forall|j: int| 0 <= j < k ==> advertises_capability(p, #[trigger] p.contracts[j].capability_id)
}

/// Which structural rule a provider view breaks first, if any.
pub open spec fn provider_error(p: ProviderView) -> Option<ProviderErrorKind> {
    if p.capabilities.len() == 0 {
        Some(ProviderErrorKind::NoCapabilities)
    } else if exists|i: int|
        0 <= i < p.contracts.len() && !advertises_capability(p, #[trigger] p.contracts[i].capability_id) {
        Some(ProviderErrorKind::ContractCapabilityNotAdvertised)
    } else if exists|k: Seq<char>| #[trigger] p.metadata.dom().contains(k) && k.len() == 0 {
        Some(ProviderErrorKind::EmptyMetadataKey)
    } else if exists|k: Seq<char>|
        #[trigger] p.metadata.dom().contains(k) && p.metadata[k].len() == 0 {
        Some(ProviderErrorKind::EmptyMetadataValue)
    } else {
        None
    }
}

/// The variants of `ProviderDefinitionError`, without their payloads.
#[derive(Clone, Copy, Debug, PartialEq, Eq, Structural)]
pub enum ProviderErrorKind {
    NoCapabilities,
    ContractCapabilityNotAdvertised,
    EmptyMetadataKey,
    EmptyMetadataValue,
}

/// Errors raised while constructing or validating provider metadata.
#[derive(Clone, Debug, PartialEq, Eq)]
pub enum ProviderDefinitionError {
    /// A provider must advertise at least one capability.
    NoCapabilities,
    /// An advertised contract refers to a capability this provider does not declare.
    ContractCapabilityNotAdvertised { provider_id: ProviderId, capability_id: CapabilityId },
    /// Provider metadata keys must not be empty.
    EmptyMetadataKey,
    /// Provider metadata values must not be empty.
    EmptyMetadataValue,
}

/// The human-readable description of a provider definition error.
pub open spec fn provider_definition_error_text(e: ProviderDefinitionError) -> Seq<char> {
    match e {
        ProviderDefinitionError::NoCapabilities => "provider advertises no capabilities"@,
        ProviderDefinitionError::ContractCapabilityNotAdvertised { provider_id, capability_id } =>
            "provider "@ + provider_id@ + " advertises contract capability "@ + capability_id@
            + " without advertising the capability itself"@,
        ProviderDefinitionError::EmptyMetadataKey => "provider metadata key is empty"@,
        ProviderDefinitionError::EmptyMetadataValue => "provider metadata value is empty"@,
    }
}

impl ProviderDefinitionError {
    /// Human-readable description of the error.
    pub fn to_string(&self) -> (r: String)
        ensures
            r@ == provider_definition_error_text(*self),
    {
        match self {
            ProviderDefinitionError::NoCapabilities => "provider advertises no capabilities".to_string(),
            ProviderDefinitionError::ContractCapabilityNotAdvertised { provider_id, capability_id } => {
                let text = "provider ".to_string();
                let text = text.concat(provider_id.as_str());
                let text = text.concat(" advertises contract capability ");
                let text = text.concat(capability_id.as_str());
                text.concat(" without advertising the capability itself")
            },
            ProviderDefinitionError::EmptyMetadataKey => "provider metadata key is empty".to_string(),
            ProviderDefinitionError::EmptyMetadataValue => "provider metadata value is empty".to_string(),
        }
    }
}

/// The payload-free variant of a provider definition error.
pub open spec fn provider_error_kind(e: ProviderDefinitionError) -> ProviderErrorKind {
    match e {
        ProviderDefinitionError::NoCapabilities => ProviderErrorKind::NoCapabilities,
        ProviderDefinitionError::ContractCapabilityNotAdvertised { .. } => {
            ProviderErrorKind::ContractCapabilityNotAdvertised
        },
        ProviderDefinitionError::EmptyMetadataKey => ProviderErrorKind::EmptyMetadataKey,
        ProviderDefinitionError::EmptyMetadataValue => ProviderErrorKind::EmptyMetadataValue,
    }
}

fn capabilities_contain(capabilities: &Vec<CapabilityId>, capability: &CapabilityId) -> (r: bool)
    ensures
        r == capability_id_views(capabilities@).contains(capability@),
{
    let ghost cs = capability_id_views(capabilities@);
    let mut i: usize = 0;
    while i < capabilities.len()
        invariant
            cs == capability_id_views(capabilities@),
            i <= capabilities@.len(),
            forall|j: int| 0 <= j < i ==> cs[j] != capability@,
        decreases capabilities@.len() - i,
    {
        if capabilities[i].same_as(capability) {
            assert(cs[i as int] == capability@);
            return true;
        }
        i = i + 1;
    }
    false
}

impl ProviderDescriptor {
    /// Creates a provider descriptor with at least one advertised capability.
    pub fn new(provider_id: &str, owning_engine: EngineId, capabilities: Vec<CapabilityId>) -> (r:
        Result<ProviderDescriptor, ProviderDefinitionError>)
        ensures
            r is Ok <==> capabilities@.len() > 0,
            r matches Ok(p) ==> p@ == (ProviderView {
                provider_id: provider_id@,
                owning_engine: owning_engine@,
                capabilities: capability_id_views(capabilities@),
                contracts: Seq::empty(),
                version: None,
                metadata: Map::empty(),
            }),
            r is Err ==> r == Err::<ProviderDescriptor, _>(ProviderDefinitionError::NoCapabilities),
    {
        let descriptor = ProviderDescriptor {
            provider_id: provider_id.to_owned(),
            owning_engine,
            capabilities,
            contracts: Vec::new(),
            version: None,
            metadata: TextMap::new(),
        };
        assert(contract_views(descriptor.contracts@) =~= Seq::<ContractView>::empty());
        match descriptor.validate() {
            Ok(()) => Ok(descriptor),
            Err(e) => Err(e),
        }
    }

    /// Adds an advertised contract whose capability the provider advertises.
    pub fn with_contract(self, contract: ContractDescriptor) -> (r: Result<
        ProviderDescriptor,
        ProviderDefinitionError,
    >)
        ensures
            r is Ok <==> advertises_capability(self@, contract@.capability_id),
            r matches Ok(p) ==> p@ == (ProviderView {
                contracts: self@.contracts.push(contract@),
                ..self@
            }),
            r matches Err(e) ==> e == (ProviderDefinitionError::ContractCapabilityNotAdvertised {
                provider_id: e->provider_id,
                capability_id: e->capability_id,
            }) && e->provider_id@ == self@.provider_id && e->capability_id@
                == contract@.capability_id,
    {
        if !capabilities_contain(&self.capabilities, &contract.capability_id) {
            return Err(
                ProviderDefinitionError::ContractCapabilityNotAdvertised {
                    provider_id: self.provider_id.clone(),
                    capability_id: contract.capability_id.clone(),
                },
            );
        }
        let mut descriptor = self;
        let ghost before = descriptor@;
        descriptor.contracts.push(contract);
        assert(contract_views(descriptor.contracts@) =~= before.contracts.push(contract@));
        Ok(descriptor)
    }

    /// Adds provider implementation-version metadata.
    pub fn with_version(self, version: Version) -> (r: ProviderDescriptor)
        ensures
            r@ == (ProviderView { version: Some(version), ..self@ }),
    {
        let mut descriptor = self;
        descriptor.version = Some(version);
        descriptor
    }

    /// Adds one provider metadata entry; keys and values must be non-empty.
    pub fn with_metadata(self, key: &str, value: &str) -> (r: Result<
        ProviderDescriptor,
        ProviderDefinitionError,
    >)
        ensures
            r is Ok <==> key@.len() > 0 && value@.len() > 0,
            r matches Ok(p) ==> p@ == (ProviderView {
                metadata: self@.metadata.insert(key@, value@),
                ..self@
            }),
            key@.len() == 0 ==> r == Err::<ProviderDescriptor, _>(
                ProviderDefinitionError::EmptyMetadataKey,
            ),
            key@.len() > 0 && value@.len() == 0 ==> r == Err::<ProviderDescriptor, _>(
                ProviderDefinitionError::EmptyMetadataValue,
            ),
    {
        if key.unicode_len() == 0 {
            return Err(ProviderDefinitionError::EmptyMetadataKey);
        }
        if value.unicode_len() == 0 {
            return Err(ProviderDefinitionError::EmptyMetadataValue);
        }
        let mut descriptor = self;
        descriptor.metadata.insert(key.to_owned(), value.to_owned());
        Ok(descriptor)
    }

    /// Returns the logical provider identifier.
    pub fn provider_id(&self) -> (r: &ProviderId)
        ensures
            r@ == self@.provider_id,
    {
        &self.provider_id
    }

    /// Returns the logical engine that owns the provider.
    pub fn owning_engine(&self) -> (r: &EngineId)
        ensures
            r@ == self@.owning_engine,
    {
        &self.owning_engine
    }

    /// Returns advertised capability identifiers.
    pub fn capabilities(&self) -> (r: &[CapabilityId])
        ensures
            capability_id_views(r@) == self@.capabilities,
    {
        self.capabilities.as_slice()
    }

    /// Returns advertised contract descriptors.
    pub fn contracts(&self) -> (r: &[ContractDescriptor])
        ensures
            contract_views(r@) == self@.contracts,
    {
        self.contracts.as_slice()
    }

    /// Returns the optional provider implementation version.
    pub fn version(&self) -> (r: Option<&Version>)
        ensures
            match r {
                Some(v) => self@.version == Some(*v),
                None => self@.version is None,
            },
    {
        self.version.as_ref()
    }

    /// Returns opaque provider metadata.
    pub fn metadata(&self) -> (r: &TextMap)
        ensures
            r@ == self@.metadata,
    {
        &self.metadata
    }

    /// Validates structural provider metadata coherence.
    #[verifier::loop_isolation(false)]
    pub fn validate(&self) -> (r: Result<(), ProviderDefinitionError>)
        ensures
            r is Ok <==> provider_error(self@) is None,
            r matches Err(e) ==> Some(provider_error_kind(e)) == provider_error(self@),
            r matches Err(ProviderDefinitionError::ContractCapabilityNotAdvertised {
                provider_id,
                capability_id,
            }) ==> provider_id@ == self@.provider_id && exists|k: int|
                first_unadvertised_contract(self@, k) && capability_id@ == self@.contracts[k].capability_id,
    {
        if self.capabilities.len() == 0 {
            return Err(ProviderDefinitionError::NoCapabilities);
        }
        let ghost v = self@;
        let mut i: usize = 0;
        while i < self.contracts.len()
            invariant
                v == self@,
                i <= self.contracts@.len(),
                forall|j: int| 0 <= j < i ==> advertises_capability(v, #[trigger] v.contracts[j].capability_id),
            decreases self.contracts@.len() - i,
        {
            assert(v.contracts[i as int] == self.contracts@[i as int]@);
            if !capabilities_contain(&self.capabilities, &self.contracts[i].capability_id) {
                assert(!advertises_capability(v, v.contracts[i as int].capability_id));
                assert(first_unadvertised_contract(v, i as int));
                assert(v.capabilities.len() > 0);
                return Err(
                    ProviderDefinitionError::ContractCapabilityNotAdvertised {
                        provider_id: self.provider_id.clone(),
                        capability_id: self.contracts[i].capability_id.clone(),
                    },
                );
            }
            i = i + 1;
        }
        if !self.metadata.all_nonempty() {
            let keys = self.metadata.keys();
            let mut j: usize = 0;
            while j < keys.len()
                invariant
                    v == self@,
                    j <= keys@.len(),
                    forall|k: Seq<char>| v.metadata.dom().contains(k) <==> exists|i: int|
                        0 <= i < keys@.len() && #[trigger] keys@[i]@ == k,
                    forall|x: int| 0 <= x < j ==> keys@[x]@.len() > 0,
                decreases keys@.len() - j,
            {
                if keys[j].as_str().unicode_len() == 0 {
                    assert(v.metadata.dom().contains(keys@[j as int]@));
                    assert(v.capabilities.len() > 0);
                    assert(!exists|i: int|
                        0 <= i < v.contracts.len() && !advertises_capability(v, #[trigger] v.contracts[i].capability_id));
                    return Err(ProviderDefinitionError::EmptyMetadataKey);
                }
                j = j + 1;
            }
            proof {
                assert forall|k: Seq<char>| #[trigger] v.metadata.dom().contains(k) implies k.len() > 0 by {
                    let x = choose|x: int| 0 <= x < keys@.len() && #[trigger] keys@[x]@ == k;
                }
                assert(v.capabilities.len() > 0);
                assert(!exists|i: int|
                    0 <= i < v.contracts.len() && !advertises_capability(v, #[trigger] v.contracts[i].capability_id));
                assert(!(forall|k: Seq<char>|
                    #[trigger] self.metadata@.dom().contains(k) ==> k.len() > 0 && self.metadata@[k].len() > 0));
                assert(v.metadata == self.metadata@);
                let k = choose|k: Seq<char>| #[trigger] v.metadata.dom().contains(k) && !(k.len() > 0 && v.metadata[k].len() > 0);
                assert(v.metadata[k].len() == 0);
            }
            return Err(ProviderDefinitionError::EmptyMetadataValue);
        }
        Ok(())
    }
}

/// Returns whether a provider advertises the requested capability.
pub fn supports_capability(provider: &ProviderDescriptor, capability: &CapabilityId) -> (r: bool)
    ensures
        r == advertises_capability(provider@, capability@),
{
    capabilities_contain(&provider.capabilities, capability)
}

/// The abstract values of a slice of providers.
pub open spec fn provider_views(p: Seq<ProviderDescriptor>) -> Seq<ProviderView> {
    p.map_values(|x: ProviderDescriptor| x@)
}

/// The abstract values of a list of borrowed providers.
pub open spec fn borrowed_provider_views(p: Seq<&ProviderDescriptor>) -> Seq<ProviderView> {
    p.map_values(|x: &ProviderDescriptor| x@)
}

/// Whether a provider advertises a capability, as a predicate.
pub open spec fn supports(capability: Seq<char>) -> spec_fn(ProviderView) -> bool {
    |p: ProviderView| advertises_capability(p, capability)
}

/// Returns all providers advertising the requested capability, in input order.
pub fn filter_by_capability<'a>(capability: &CapabilityId, providers: &'a [ProviderDescriptor]) -> (r:
    Vec<&'a ProviderDescriptor>)
    ensures
        borrowed_provider_views(r@) == provider_views(providers@).filter(supports(capability@)),
{
    let ghost vs = provider_views(providers@);
    let ghost p = supports(capability@);
    let mut r: Vec<&'a ProviderDescriptor> = Vec::new();
    let mut i: usize = 0;
    while i < providers.len()
        invariant
            vs == provider_views(providers@),
            p == supports(capability@),
            i <= providers@.len(),
            borrowed_provider_views(r@) == vs.take(i as int).filter(p),
        decreases providers@.len() - i,
    {
        proof {
            lemma_filter_take_step(vs, p, i as int);
        }
        if supports_capability(&providers[i], capability) {
            r.push(&providers[i]);
            assert(borrowed_provider_views(r@) =~= vs.take(i as int).filter(p).push(vs[i as int]));
        }
        i = i + 1;
    }
    proof {
        lemma_take_full(vs);
    }
    r
}

/// Contracts advertised by `provider` that are compatible with the required
/// contract, in advertisement order.
pub fn compatible_contracts<'a>(required: &ContractDescriptor, provider: &'a ProviderDescriptor) -> (r:
    Vec<&'a ContractDescriptor>)
    ensures
        borrowed_contract_views(r@) == provider@.contracts.filter(compatible_with(required@)),
{
    super::contract::filter_compatible(required, provider.contracts())
}

/// Whether a provider can satisfy the requested capability and contract.
pub open spec fn provider_compatible(
    capability: Seq<char>,
    required: ContractView,
    p: ProviderView,
) -> bool {
    &&& capability == required.capability_id
    &&& advertises_capability(p, capability)
    &&& exists|i: int|
        0 <= i < p.contracts.len() && compatibility(required, #[trigger] p.contracts[i])
            == Compatibility::Compatible
}

/// Returns whether a provider can satisfy the requested capability and
/// contract.
pub fn is_compatible(
    capability: &CapabilityId,
    required_contract: &ContractDescriptor,
    provider: &ProviderDescriptor,
) -> (r: bool)
    ensures
        r == provider_compatible(capability@, required_contract@, provider@),
{
    if !capability.same_as(&required_contract.capability_id) {
        return false;
    }
    if !supports_capability(provider, capability) {
        return false;
    }
    let found = compatible_contracts(required_contract, provider);
    proof {
        let cs = provider@.contracts;
        let p = compatible_with(required_contract@);
        lemma_filter_empty(cs, p);
        if exists|i: int|
            0 <= i < cs.len() && compatibility(required_contract@, #[trigger] cs[i])
                == Compatibility::Compatible {
            let i = choose|i: int|
                0 <= i < cs.len() && compatibility(required_contract@, #[trigger] cs[i])
                    == Compatibility::Compatible;
            assert(p(cs[i]));
        }
    }
    found.len() > 0
}

/// Whether a provider is compatible, as a predicate.
pub open spec fn compatible_provider(capability: Seq<char>, required: ContractView) -> spec_fn(
    ProviderView,
) -> bool {
    |p: ProviderView| provider_compatible(capability, required, p)
}

/// Returns all compatible logical providers, in input order.
pub fn filter_compatible<'a>(
    capability: &CapabilityId,
    required_contract: &ContractDescriptor,
    providers: &'a [ProviderDescriptor],
) -> (r: Vec<&'a ProviderDescriptor>)
    ensures
        borrowed_provider_views(r@) == provider_views(providers@).filter(
            compatible_provider(capability@, required_contract@),
        ),
{
    let ghost vs = provider_views(providers@);
    let ghost p = compatible_provider(capability@, required_contract@);
    let mut r: Vec<&'a ProviderDescriptor> = Vec::new();
    let mut i: usize = 0;
    while i < providers.len()
        invariant
            vs == provider_views(providers@),
            p == compatible_provider(capability@, required_contract@),
            i <= providers@.len(),
            borrowed_provider_views(r@) == vs.take(i as int).filter(p),
        decreases providers@.len() - i,
    {
        proof {
            lemma_filter_take_step(vs, p, i as int);
        }
        if is_compatible(capability, required_contract, &providers[i]) {
            r.push(&providers[i]);
            assert(borrowed_provider_views(r@) =~= vs.take(i as int).filter(p).push(vs[i as int]));
        }
        i = i + 1;
    }
    proof {
        lemma_take_full(vs);
    }
    r
}

/// Errors raised while resolving logical provider candidates.
#[derive(Clone, Debug, PartialEq, Eq)]
pub enum ProviderResolutionError {
    /// No provider advertises the requested capability.
    NoProviderForCapability { capability_id: CapabilityId },
    /// Providers advertise the capability, but none satisfies the contract.
    NoCompatibleProvider { capability_id: CapabilityId, contract_id: ContractId },
}

/// The human-readable description of a provider resolution error.
pub open spec fn provider_resolution_error_text(e: ProviderResolutionError) -> Seq<char> {
    match e {
        ProviderResolutionError::NoProviderForCapability { capability_id } => "no provider advertises capability "@
            + capability_id@,
        ProviderResolutionError::NoCompatibleProvider { capability_id, contract_id } =>
            "no compatible provider for capability "@ + capability_id@ + " and contract "@
            + contract_id@,
    }
}

impl ProviderResolutionError {
    /// Human-readable description of the error.
    pub fn to_string(&self) -> (r: String)
        ensures
            r@ == provider_resolution_error_text(*self),
    {
        match self {
            ProviderResolutionError::NoProviderForCapability { capability_id } => {
                let text = "no provider advertises capability ".to_string();
                text.concat(capability_id.as_str())
            },
            ProviderResolutionError::NoCompatibleProvider { capability_id, contract_id } => {
                let text = "no compatible provider for capability ".to_string();
                let text = text.concat(capability_id.as_str());
                let text = text.concat(" and contract ");
                text.concat(contract_id.as_str())
            },
        }
    }
}

/// Result type for logical provider resolution.
pub type ProviderResult<T> = Result<T, ProviderResolutionError>;

/// Requires at least one compatible provider and returns all of them.
pub fn require_compatible<'a>(
    capability: &CapabilityId,
    required_contract: &ContractDescriptor,
    providers: &'a [ProviderDescriptor],
) -> (r: ProviderResult<Vec<&'a ProviderDescriptor>>)
    ensures
        ({
            let vs = provider_views(providers@);
            &&& r is Ok <==> exists|i: int|
                0 <= i < vs.len() && provider_compatible(
                    capability@,
                    required_contract@,
                    #[trigger] vs[i],
                )
            &&& r matches Ok(v) ==> borrowed_provider_views(v@) == vs.filter(
                compatible_provider(capability@, required_contract@),
            )
            &&& r matches Err(ProviderResolutionError::NoProviderForCapability { capability_id })
                ==> capability_id@ == capability@ && forall|i: int|
                0 <= i < vs.len() ==> !advertises_capability(#[trigger] vs[i], capability@)
            &&& r matches Err(ProviderResolutionError::NoCompatibleProvider {
                capability_id,
                contract_id,
            }) ==> capability_id@ == capability@ && contract_id@ == required_contract@.contract_id
                && exists|i: int| 0 <= i < vs.len() && advertises_capability(#[trigger] vs[i], capability@)
        }),
{
    let ghost vs = provider_views(providers@);
    let matches = filter_compatible(capability, required_contract, providers);
    proof {
        let p = compatible_provider(capability@, required_contract@);
        lemma_filter_empty(vs, p);
        if exists|i: int|
            0 <= i < vs.len() && provider_compatible(capability@, required_contract@, #[trigger] vs[i]) {
            let i = choose|i: int|
                0 <= i < vs.len() && provider_compatible(capability@, required_contract@, #[trigger] vs[i]);
            assert(p(vs[i]));
        }
    }
    if matches.len() > 0 {
        return Ok(matches);
    }
    let supporting = filter_by_capability(capability, providers);
    proof {
        let q = supports(capability@);
        lemma_filter_empty(vs, q);
        if exists|i: int| 0 <= i < vs.len() && advertises_capability(#[trigger] vs[i], capability@) {
            let i = choose|i: int| 0 <= i < vs.len() && advertises_capability(#[trigger] vs[i], capability@);
            assert(q(vs[i]));
        }
        assert forall|i: int| 0 <= i < vs.len() && supporting.len() == 0 implies !advertises_capability(
            #[trigger] vs[i],
            capability@,
        ) by {
            assert(!q(vs[i]));
        }
    }
    if supporting.len() == 0 {
        Err(ProviderResolutionError::NoProviderForCapability { capability_id: capability.clone() })
    } else {
        Err(
            ProviderResolutionError::NoCompatibleProvider {
                capability_id: capability.clone(),
                contract_id: required_contract.contract_id.clone(),
            },
        )
    }
}

} // verus!
