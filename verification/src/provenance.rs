//! Provider-neutral provenance attributes carried with exchanged context.
//!
//! Provenance is an ordered map of opaque attributes; Core carries it
//! without interpreting it.

use vstd::prelude::*;
use crate::text_map::TextMap;

verus! {

/// Opaque provenance attributes.
#[derive(Debug, PartialEq, Eq)]
pub struct ProvenanceContext {
    attributes: TextMap,
}

impl View for ProvenanceContext {
    type V = Map<Seq<char>, Seq<char>>;

    closed spec fn view(&self) -> Map<Seq<char>, Seq<char>> {
        self.attributes@
    }
}

impl Clone for ProvenanceContext {
    fn clone(&self) -> (r: Self)
        ensures
            r@ == self@,
    {
        ProvenanceContext { attributes: self.attributes.clone() }
    }
}

impl Default for ProvenanceContext {
    fn default() -> (r: Self)
        ensures
            r@ == Map::<Seq<char>, Seq<char>>::empty(),
    {
        ProvenanceContext::new()
    }
}

impl ProvenanceContext {
    /// Creates provenance with no attributes.
    pub fn new() -> (r: ProvenanceContext)
        ensures
            r@ == Map::<Seq<char>, Seq<char>>::empty(),
    {
        ProvenanceContext { attributes: TextMap::new() }
    }

    /// Returns the provenance with one attribute added or replaced.
    pub fn with_attribute(self, key: &str, value: &str) -> (r: ProvenanceContext)
        ensures
            r@ == self@.insert(key@, value@),
    {
        let mut attributes = self.attributes;
        attributes.insert(key.to_owned(), value.to_owned());
        ProvenanceContext { attributes }
    }

    /// Returns one attribute when present.
    pub fn attribute(&self, key: &str) -> (r: Option<&str>)
        ensures
            r is Some <==> self@.dom().contains(key@),
            r matches Some(v) ==> v@ == self@[key@],
    {
        self.attributes.get(key)
    }

    /// Returns all attributes.
    pub fn attributes(&self) -> (r: &TextMap)
        ensures
            r@ == self@,
    {
        &self.attributes
    }
}

} // verus!
