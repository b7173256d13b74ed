//! Control Plane capability identification and advertisement resolution.
//!
//! This module operates only on declarative capability metadata. It never
//! obtains handlers or invokes a capability.

use vstd::prelude::*;
use crate::capability::{CapabilityDefinition, CapabilityView};
use crate::contracts::{ContractMetadata, UniversalRequest};
use crate::identity::CapabilityId;
use crate::seq_facts::{lemma_filter_take_step, lemma_take_full, lemma_filter_empty};

verus! {

/// The abstract values of a slice of advertisements.
pub open spec fn capability_views(offered: Seq<CapabilityDefinition>) -> Seq<CapabilityView> {
    offered.map_values(|c: CapabilityDefinition| c@)
}

/// The abstract values of a list of borrowed advertisements.
pub open spec fn borrowed_capability_views(r: Seq<&CapabilityDefinition>) -> Seq<CapabilityView> {
    r.map_values(|c: &CapabilityDefinition| c@)
}

/// Whether an advertisement offers the required capability.
pub open spec fn advertises(required: Seq<char>) -> spec_fn(CapabilityView) -> bool {
    |c: CapabilityView| c.capability_id == required
}

/// Identifies the capability requested by contract metadata.
pub fn identify(metadata: &ContractMetadata) -> (r: &CapabilityId)
    ensures
        r@ == metadata.descriptor.capability_id@,
{
    &metadata.descriptor.capability_id
}

/// Identifies the capability requested by a universal request.
pub fn identify_request(request: &UniversalRequest) -> (r: &CapabilityId)
    ensures
        r@ == request.event.envelope.metadata.descriptor.capability_id@,
{
    identify(&request.event.envelope.metadata)
}

/// Whether an advertised capability matches the requested capability.
pub fn is_advertised(required: &CapabilityId, offered: &CapabilityDefinition) -> (r: bool)
    ensures
        r == (offered@.capability_id == required@),
{
    offered.capability_id().same_as(required)
}

/// Whether at least one advertised capability matches the requirement.
pub fn has_advertisement(required: &CapabilityId, offered: &[CapabilityDefinition]) -> (r: bool)
    ensures
        r == (exists|i: int| 0 <= i < offered@.len() && (#[trigger] offered@[i])@.capability_id
            == required@),
{
    let mut i: usize = 0;
    while i < offered.len()
        invariant
            i <= offered@.len(),
            forall|j: int| 0 <= j < i ==> (#[trigger] offered@[j])@.capability_id != required@,
        decreases offered@.len() - i,
    {
        if is_advertised(required, &offered[i]) {
            return true;
        }
        i = i + 1;
    }
    false
}

/// All advertisements matching the requested capability, in input order.
pub fn filter_advertised<'a>(required: &CapabilityId, offered: &'a [CapabilityDefinition]) -> (r:
    Vec<&'a CapabilityDefinition>)
    ensures
        borrowed_capability_views(r@) == capability_views(offered@).filter(advertises(required@)),
{
    let ghost vs = capability_views(offered@);
    let ghost p = advertises(required@);
    let mut r: Vec<&'a CapabilityDefinition> = Vec::new();
    let mut i: usize = 0;
    while i < offered.len()
        invariant
            vs == capability_views(offered@),
            p == advertises(required@),
            i <= offered@.len(),
            borrowed_capability_views(r@) == vs.take(i as int).filter(p),
        decreases offered@.len() - i,
    {
        proof {
            lemma_filter_take_step(vs, p, i as int);
        }
        if is_advertised(required, &offered[i]) {
            r.push(&offered[i]);
            assert(borrowed_capability_views(r@) =~= vs.take(i as int).filter(p).push(vs[i as int]));
        }
        i = i + 1;
    }
    proof {
        lemma_take_full(vs);
    }
    r
}

/// Errors produced while resolving declarative capability advertisements.
#[derive(Clone, Debug, PartialEq, Eq)]
pub enum CapabilityResolutionError {
    /// No advertised capability matches the requested capability identifier.
    NotAdvertised { capability_id: CapabilityId },
}

impl CapabilityResolutionError {
    /// Human-readable description of the error.
    pub fn to_string(&self) -> (r: String)
        ensures
            match self {
                CapabilityResolutionError::NotAdvertised { capability_id } => r@ == "capability "@
                    + capability_id@ + " is not advertised"@,
            },
    {
        match self {
            CapabilityResolutionError::NotAdvertised { capability_id } => {
                let text = "capability ".to_string();
                let text = text.concat(capability_id.as_str());
                text.concat(" is not advertised")
            },
        }
    }
}

/// Result type for declarative capability advertisement resolution.
pub type CapabilityResult<T> = Result<T, CapabilityResolutionError>;

/// Requires at least one matching advertisement and returns all of them.
pub fn require_advertised<'a>(required: &CapabilityId, offered: &'a [CapabilityDefinition]) -> (r:
    CapabilityResult<Vec<&'a CapabilityDefinition>>)
    ensures
        r is Ok <==> (exists|i: int| 0 <= i < offered@.len() && (#[trigger] offered@[i])@.capability_id
            == required@),
        r matches Ok(v) ==> borrowed_capability_views(v@) == capability_views(offered@).filter(
            advertises(required@),
        ),
        r matches Err(CapabilityResolutionError::NotAdvertised { capability_id }) ==> capability_id@
            == required@,
{
    let matches = filter_advertised(required, offered);
    proof {
        let vs = capability_views(offered@);
        lemma_filter_empty(vs, advertises(required@));
        if exists|i: int| 0 <= i < offered@.len() && (#[trigger] offered@[i])@.capability_id
            == required@ {
            let i = choose|i: int| 0 <= i < offered@.len() && (#[trigger] offered@[i])@.capability_id
                == required@;
            assert(advertises(required@)(vs[i]));
        }
    }
    if matches.len() == 0 {
        Err(CapabilityResolutionError::NotAdvertised { capability_id: required.clone() })
    } else {
        Ok(matches)
    }
}

} // verus!
