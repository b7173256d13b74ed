//! Canonical identities used across Core.
//!
//! Every identity is an opaque, non-blank text value. Two identities are the
//! same when their texts are equal, and identities are ordered by the
//! code-point order of their texts.

use vstd::prelude::*;
use crate::text::{is_blank, seq_lt, str_is_blank, str_equal, str_less};

verus! {

/// Error returned when an identity value is empty or whitespace-only.
#[derive(Clone, Copy, Debug, PartialEq, Eq, Structural)]
pub struct InvalidIdentifier;

/// An opaque, non-blank identity value.
#[derive(Debug)]
pub struct Identifier {
    value: String,
}

impl View for Identifier {
    type V = Seq<char>;

    closed spec fn view(&self) -> Seq<char> {
        self.value@
    }
}

impl Clone for Identifier {
    fn clone(&self) -> (r: Self)
        ensures
            r@ == self@,
    {
        Identifier { value: self.value.clone() }
    }
}

impl PartialEq for Identifier {
    fn eq(&self, other: &Self) -> (r: bool) {
        self.value == other.value
    }
}

impl Eq for Identifier {}

impl vstd::std_specs::cmp::PartialEqSpecImpl for Identifier {
    open spec fn obeys_eq_spec() -> bool {
        true
    }

    open spec fn eq_spec(&self, other: &Self) -> bool {
        self@ == other@
    }
}

impl Identifier {
    /// Creates an identity from a non-blank value.
    pub fn new(value: &str) -> (r: Result<Identifier, InvalidIdentifier>)
        ensures
            r is Ok <==> !is_blank(value@),
            r matches Ok(id) ==> id@ == value@,
    {
        if str_is_blank(value) {
            Err(InvalidIdentifier)
        } else {
            Ok(Identifier { value: value.to_owned() })
        }
    }

    /// Returns the identity text.
    pub fn as_str(&self) -> (r: &str)
        ensures
            r@ == self@,
    {
        self.value.as_str()
    }

    /// Whether both identities carry the same text.
    pub fn same_as(&self, other: &Identifier) -> (r: bool)
        ensures
            r == (self@ == other@),
    {
        str_equal(self.value.as_str(), other.value.as_str())
    }

    /// Whether this identity strictly precedes `other` in identity order.
    pub fn precedes(&self, other: &Identifier) -> (r: bool)
        ensures
            r == seq_lt(self@, other@),
    {
        str_less(self.value.as_str(), other.value.as_str())
    }
}

pub type EngineId = Identifier;
pub type EngineInstanceId = Identifier;
pub type CapabilityId = Identifier;
pub type ContractId = Identifier;
pub type NodeId = Identifier;
pub type PlanId = Identifier;
pub type OperationId = Identifier;
pub type AttemptId = Identifier;
pub type CorrelationId = Identifier;
pub type MessageId = Identifier;
pub type EventId = Identifier;
pub type ArtifactId = Identifier;

} // verus!
