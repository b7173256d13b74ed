//! Contract identification and compatibility helpers for the Control Plane.
//!
//! The canonical compatibility rule is `crate::contracts::compatibility`;
//! this module filters and checks offered contracts against it.

use vstd::prelude::*;
use crate::contracts::{
    version_text,
    compare_contracts, compatibility, ContractDescriptor, ContractMetadata, ContractView,
    UniversalRequest, Version,
};
use crate::identity::{CapabilityId, ContractId};
use crate::seq_facts::{lemma_filter_take_step, lemma_take_full};
use crate::status::{compatibility_name, Compatibility};

verus! {

/// The abstract values of a slice of contracts.
pub open spec fn contract_views(offered: Seq<ContractDescriptor>) -> Seq<ContractView> {
    offered.map_values(|c: ContractDescriptor| c@)
}

/// The abstract values of a list of borrowed contracts.
pub open spec fn borrowed_contract_views(r: Seq<&ContractDescriptor>) -> Seq<ContractView> {
    r.map_values(|c: &ContractDescriptor| c@)
}

/// Whether an offered contract is compatible with the required one.
pub open spec fn compatible_with(required: ContractView) -> spec_fn(ContractView) -> bool {
    |c: ContractView| compatibility(required, c) == Compatibility::Compatible
}

/// Identifies the contract descriptor carried by contract metadata.
pub fn identify(metadata: &ContractMetadata) -> (r: &ContractDescriptor)
    ensures
        r@ == metadata.descriptor@,
{
    &metadata.descriptor
}

/// Identifies the contract descriptor carried by a universal request.
pub fn identify_request(request: &UniversalRequest) -> (r: &ContractDescriptor)
    ensures
        r@ == request.event.envelope.metadata.descriptor@,
{
    identify(&request.event.envelope.metadata)
}

/// Compares a required contract with one offered contract.
pub fn compare(required: &ContractDescriptor, offered: &ContractDescriptor) -> (r: Compatibility)
    ensures
        r == compatibility(required@, offered@),
{
    compare_contracts(required, offered)
}

/// The offered contracts that are compatible with the required one, in
/// input order.
pub fn filter_compatible<'a>(required: &ContractDescriptor, offered: &'a [ContractDescriptor]) -> (r:
    Vec<&'a ContractDescriptor>)
    ensures
        borrowed_contract_views(r@) == contract_views(offered@).filter(compatible_with(required@)),
{
    let ghost vs = contract_views(offered@);
    let ghost p = compatible_with(required@);
    let mut r: Vec<&'a ContractDescriptor> = Vec::new();
    let mut i: usize = 0;
    while i < offered.len()
        invariant
            vs == contract_views(offered@),
            p == compatible_with(required@),
            i <= offered@.len(),
            borrowed_contract_views(r@) == vs.take(i as int).filter(p),
        decreases offered@.len() - i,
    {
        proof {
            lemma_filter_take_step(vs, p, i as int);
        }
        if compare(required, &offered[i]) == Compatibility::Compatible {
            r.push(&offered[i]);
            assert(borrowed_contract_views(r@) =~= vs.take(i as int).filter(p).push(vs[i as int]));
        }
        i = i + 1;
    }
    proof {
        lemma_take_full(vs);
    }
    r
}

/// The offered contract does not satisfy the required contract boundary.
#[derive(Clone, Debug, PartialEq, Eq)]
pub enum ContractResolutionError {
    NotCompatible {
        contract_id: ContractId,
        capability_id: CapabilityId,
        required_version: Version,
        offered_version: Version,
        compatibility: Compatibility,
    },
}

/// The human-readable description of a contract resolution error.
pub open spec fn contract_resolution_error_text(e: ContractResolutionError) -> Seq<char> {
    match e {
        ContractResolutionError::NotCompatible {
            contract_id,
            capability_id,
            required_version,
            offered_version,
            compatibility,
        } => "contract "@ + contract_id@ + " for capability "@ + capability_id@
            + " is not compatible: required version "@ + version_text(required_version)
            + ", offered version "@ + version_text(offered_version) + ", result "@
            + compatibility_name(compatibility),
    }
}

impl ContractResolutionError {
    /// Human-readable description of the error.
    pub fn to_string(&self) -> (r: String)
        ensures
            r@ == contract_resolution_error_text(*self),
    {
        match self {
            ContractResolutionError::NotCompatible {
                contract_id,
                capability_id,
                required_version,
                offered_version,
                compatibility,
            } => {
                let text = "contract ".to_string();
                let text = text.concat(contract_id.as_str());
                let text = text.concat(" for capability ");
                let text = text.concat(capability_id.as_str());
                let text = text.concat(" is not compatible: required version ");
                let required = required_version.to_string();
                let text = text.concat(required.as_str());
                let text = text.concat(", offered version ");
                let offered = offered_version.to_string();
                let text = text.concat(offered.as_str());
                let text = text.concat(", result ");
                text.concat(compatibility.name())
            },
        }
    }
}

/// Result alias for Control Plane contract compatibility operations.
pub type ContractResult<T> = Result<T, ContractResolutionError>;

/// Establishes that one offered contract is compatible with the required
/// contract; `Unknown` is a failure, not a success.
pub fn require_compatible(required: &ContractDescriptor, offered: &ContractDescriptor) -> (r:
    ContractResult<()>)
    ensures
        r is Ok <==> compatibility(required@, offered@) == Compatibility::Compatible,
        r matches Err(
            ContractResolutionError::NotCompatible {
                contract_id,
                capability_id,
                required_version,
                offered_version,
                compatibility: c,
            },
        ) ==> contract_id@ == required@.contract_id && capability_id@ == required@.capability_id
            && required_version == required@.version && offered_version == offered@.version && c
            == compatibility(required@, offered@),
{
    let c = compare(required, offered);
    if c == Compatibility::Compatible {
        Ok(())
    } else {
        Err(
            ContractResolutionError::NotCompatible {
                contract_id: required.contract_id.clone(),
                capability_id: required.capability_id.clone(),
                required_version: required.version,
                offered_version: offered.version,
                compatibility: c,
            },
        )
    }
}

} // verus!
