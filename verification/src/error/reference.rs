//! References from one error occurrence to another, such as its cause.

use vstd::prelude::*;
use crate::text::{is_blank, str_equal, str_is_blank};

verus! {

/// A non-blank reference to an error, usually its code.
#[derive(Debug)]
pub struct ErrorReference {
    value: String,
}

impl View for ErrorReference {
    type V = Seq<char>;

    closed spec fn view(&self) -> Seq<char> {
        self.value@
    }
}

impl Clone for ErrorReference {
    fn clone(&self) -> (r: Self)
        ensures
            r@ == self@,
    {
        ErrorReference { value: self.value.clone() }
    }
}

impl PartialEq for ErrorReference {
    fn eq(&self, other: &Self) -> (r: bool) {
        str_equal(self.value.as_str(), other.value.as_str())
    }
}

impl Eq for ErrorReference {}

impl vstd::std_specs::cmp::PartialEqSpecImpl for ErrorReference {
    open spec fn obeys_eq_spec() -> bool {
        true
    }

    open spec fn eq_spec(&self, other: &Self) -> bool {
        self@ == other@
    }
}

impl ErrorReference {
    /// Creates a reference; a blank value refers to nothing.
    pub fn new(value: &str) -> (r: Option<ErrorReference>)
        ensures
            r is Some <==> !is_blank(value@),
            r matches Some(x) ==> x@ == value@,
    {
        if str_is_blank(value) {
            None
        } else {
            Some(ErrorReference { value: value.to_owned() })
        }
    }

    /// Returns the reference text.
    pub fn as_str(&self) -> (r: &str)
        ensures
            r@ == self@,
    {
        self.value.as_str()
    }
}

} // verus!
