//! The in-process catalog of error definitions, keyed by error code.
//!
//! A catalog holds at most one definition per code, and only definitions
//! whose owner is the first segment of their code.

use vstd::prelude::*;
use crate::text::str_equal;
use super::definition::{
    first_segment, ErrorCode, ErrorDefinition, ErrorDefinitionView,
};

verus! {

/// Reasons a definition cannot be registered.
#[derive(Clone, Debug, PartialEq, Eq)]
pub enum CatalogError {
    /// A definition with this code is already registered.
    DuplicateCode(ErrorCode),
    /// The definition's owner is not the first segment of its code.
    OwnerNamespaceMismatch,
}

/// The abstract values of a list of definitions.
pub open spec fn definition_views(defs: Seq<ErrorDefinition>) -> Seq<ErrorDefinitionView> {
    defs.map_values(|d: ErrorDefinition| d@)
}

/// Some registered definition carries the code.
pub open spec fn has_code(defs: Seq<ErrorDefinitionView>, code: Seq<char>) -> bool {
    exists|i: int| 0 <= i < defs.len() && (#[trigger] defs[i]).code == code
}

/// The registered definition carrying the code.
pub open spec fn definition_for(defs: Seq<ErrorDefinitionView>, code: Seq<char>) -> ErrorDefinitionView {
    defs[choose|i: int| 0 <= i < defs.len() && (#[trigger] defs[i]).code == code]
}

/// No two registered definitions share a code.
pub open spec fn codes_distinct(defs: Seq<ErrorDefinitionView>) -> bool {
    forall|i: int, j: int|
        0 <= i < defs.len() && 0 <= j < defs.len() && i != j ==> (#[trigger] defs[i]).code
            != (#[trigger] defs[j]).code
}

/// The catalog of registered error definitions, in registration order.
#[derive(Debug)]
pub struct ErrorCatalog {
    definitions: Vec<ErrorDefinition>,
}

impl View for ErrorCatalog {
    type V = Seq<ErrorDefinitionView>;

    closed spec fn view(&self) -> Seq<ErrorDefinitionView> {
        definition_views(self.definitions@)
    }
}

impl ErrorCatalog {
    #[verifier::type_invariant]
    spec fn codes_unique(self) -> bool {
        codes_distinct(definition_views(self.definitions@))
    }

    /// The number of registered definitions; their codes are distinct.
    pub fn len(&self) -> (r: usize)
        ensures
            r == self@.len(),
            codes_distinct(self@),
    {
        proof {
            use_type_invariant(self);
        }
        self.definitions.len()
    }
}

impl Clone for ErrorCatalog {
    fn clone(&self) -> (r: Self)
        ensures
            r@ == self@,
    {
        proof {
            use_type_invariant(self);
        }
        let mut out: Vec<ErrorDefinition> = Vec::new();
        let mut k: usize = 0;
        while k < self.definitions.len()
            invariant
                k <= self.definitions@.len(),
                definition_views(out@) == definition_views(self.definitions@).take(k as int),
            decreases self.definitions@.len() - k,
        {
            let d = self.definitions[k].clone();
            let ghost before = definition_views(out@);
            out.push(d);
            proof {
                assert(definition_views(out@) =~= before.push(d@));
                assert(definition_views(self.definitions@).take(k + 1) =~= definition_views(
                    self.definitions@,
                ).take(k as int).push(d@));
            }
            k = k + 1;
        }
        proof {
            assert(definition_views(self.definitions@).take(k as int) =~= definition_views(
                self.definitions@,
            ));
        }
        ErrorCatalog { definitions: out }
    }
}

impl Default for ErrorCatalog {
    fn default() -> (r: Self)
        ensures
            r@ == Seq::<ErrorDefinitionView>::empty(),
    {
        ErrorCatalog::new()
    }
}

impl ErrorCatalog {
    /// Creates an empty catalog.
    pub fn new() -> (r: ErrorCatalog)
        ensures
            r@ == Seq::<ErrorDefinitionView>::empty(),
    {
        let r = ErrorCatalog { definitions: Vec::new() };
        proof {
            assert(definition_views(r.definitions@) =~= Seq::<ErrorDefinitionView>::empty());
        }
        r
    }

    /// Position of the definition carrying the code.
    fn position(&self, code: &ErrorCode) -> (r: Option<usize>)
        ensures
            match r {
                Some(i) => i < self@.len() && self@[i as int].code == code@,
                None => !has_code(self@, code@),
            },
    {
        let mut k: usize = 0;
        while k < self.definitions.len()
            invariant
                k <= self@.len(),
                self@ == definition_views(self.definitions@),
                forall|j: int| 0 <= j < k ==> (#[trigger] self@[j]).code != code@,
            decreases self@.len() - k,
        {
            if crate::text::str_equal(self.definitions[k].code.as_str(), code.as_str()) {
                return Some(k);
            }
            k = k + 1;
        }
        None
    }

    /// Registers a definition; a definition whose owner is not the first
    /// segment of its code, or whose code is taken, changes nothing.
    pub fn register(&mut self, definition: ErrorDefinition) -> (r: Result<(), CatalogError>)
        ensures
            r is Ok <==> definition@.owner == first_segment(definition@.code) && !has_code(
                old(self)@,
                definition@.code,
            ),
            r is Ok ==> final(self)@ == old(self)@.push(definition@),
            r matches Err(e) ==> final(self)@ == old(self)@ && (if definition@.owner
                != first_segment(definition@.code) {
                e == CatalogError::OwnerNamespaceMismatch
            } else {
                e matches CatalogError::DuplicateCode(c) && c@ == definition@.code
            }),
    {
        proof {
            use_type_invariant(&*self);
        }
        if !str_equal(definition.code.first_segment(), definition.owner.as_str()) {
            return Err(CatalogError::OwnerNamespaceMismatch);
        }
        match self.position(&definition.code) {
            Some(_) => {
                return Err(CatalogError::DuplicateCode(definition.code));
            },
            None => {},
        }
        let ghost before = self@;
        let ghost d = definition@;
        let mut definitions: Vec<ErrorDefinition> = Vec::new();
        std::mem::swap(&mut definitions, &mut self.definitions);
        definitions.push(definition);
        proof {
            assert(definition_views(definitions@) =~= before.push(d));
            let after = definition_views(definitions@);
            assert forall|i: int, j: int|
                0 <= i < after.len() && 0 <= j < after.len() && i != j implies (
                #[trigger] after[i]).code != (#[trigger] after[j]).code by {
                if i == before.len() {
                    assert(before[j] == after[j]);
                } else if j == before.len() {
                    assert(before[i] == after[i]);
                } else {
                    assert(before[i] == after[i] && before[j] == after[j]);
                }
            }
        }
        self.definitions = definitions;
        Ok(())
    }

    /// Returns the definition registered under a code.
    pub fn get(&self, code: &ErrorCode) -> (r: Option<&ErrorDefinition>)
        ensures
            r is Some <==> has_code(self@, code@),
            r matches Some(d) ==> d@ == definition_for(self@, code@) && d@.code == code@,
    {
        proof {
            use_type_invariant(self);
        }
        match self.position(code) {
            Some(i) => {
                proof {
                    let k = choose|k: int| 0 <= k < self@.len() && (#[trigger] self@[k]).code == code@;
                    assert(k == i as int);
                }
                Some(&self.definitions[i])
            },
            None => None,
        }
    }

    /// Returns whether nothing is registered.
    pub fn is_empty(&self) -> (r: bool)
        ensures
            r == (self@.len() == 0),
    {
        self.definitions.len() == 0
    }
}

} // verus!
