//! The applicability scope of an internal event.
//!
//! A scope is an exact-equality applicability boundary: two scopes are the
//! same when their texts are equal. It carries no hierarchy, wildcard or
//! authorization meaning.

use vstd::prelude::*;
use crate::text::{is_blank, str_equal, str_is_blank};

verus! {

/// Error returned when a scope is empty or whitespace-only.
#[derive(Clone, Copy, Debug, PartialEq, Eq, Structural)]
pub struct InvalidScope;

impl InvalidScope {
    /// Human-readable description of the error.
    pub fn to_string(&self) -> (r: String)
        ensures
            r@ == "an event scope must not be empty"@,
    {
        "an event scope must not be empty".to_string()
    }
}

/// The generic applicability scope of an internal event.
#[derive(Debug, Hash)]
pub struct Scope {
    value: String,
}

impl View for Scope {
    type V = Seq<char>;

    closed spec fn view(&self) -> Seq<char> {
        self.value@
    }
}

impl Clone for Scope {
    fn clone(&self) -> (r: Self)
        ensures
            r@ == self@,
    {
        Scope { value: self.value.clone() }
    }
}

impl PartialEq for Scope {
    fn eq(&self, other: &Self) -> (r: bool) {
        self.value == other.value
    }
}

impl Eq for Scope {}

impl vstd::std_specs::cmp::PartialEqSpecImpl for Scope {
    open spec fn obeys_eq_spec() -> bool {
        true
    }

    open spec fn eq_spec(&self, other: &Self) -> bool {
        self@ == other@
    }
}

impl Scope {
    /// Creates a scope from a non-blank value, kept as given.
    pub fn new(value: &str) -> (r: Result<Scope, InvalidScope>)
        ensures
            r is Ok <==> !is_blank(value@),
            r matches Ok(s) ==> s@ == value@,
    {
        if str_is_blank(value) {
            Err(InvalidScope)
        } else {
            Ok(Scope { value: value.to_owned() })
        }
    }

    /// Returns the scope text.
    pub fn as_str(&self) -> (r: &str)
        ensures
            r@ == self@,
    {
        self.value.as_str()
    }

    /// Renders the scope as its text.
    pub fn to_string(&self) -> (r: String)
        ensures
            r@ == self@,
    {
        self.value.clone()
    }

    /// Whether both scopes carry the same text.
    pub fn same_as(&self, other: &Scope) -> (r: bool)
        ensures
            r == (self@ == other@),
    {
        str_equal(self.value.as_str(), other.value.as_str())
    }
}

} // verus!
