//! Shared status vocabularies.

use vstd::prelude::*;

verus! {

/// Outcome of comparing a required contract with an offered one.
#[derive(Clone, Copy, Debug, PartialEq, Eq, Structural)]
pub enum Compatibility {
    /// The offered contract satisfies the required one.
    Compatible,
    /// The offered contract cannot satisfy the required one.
    Incompatible,
    /// Compatibility cannot be established from the declared versions.
    Unknown,
}

/// The name of a compatibility outcome.
pub open spec fn compatibility_name(c: Compatibility) -> Seq<char> {
    match c {
        Compatibility::Compatible => "Compatible"@,
        Compatibility::Incompatible => "Incompatible"@,
        Compatibility::Unknown => "Unknown"@,
    }
}

impl Compatibility {
    /// Returns the name of the outcome.
    pub fn name(&self) -> (r: &'static str)
        ensures
            r@ == compatibility_name(*self),
    {
        match self {
            Compatibility::Compatible => "Compatible",
            Compatibility::Incompatible => "Incompatible",
            Compatibility::Unknown => "Unknown",
        }
    }
}

/// Whether retrying an operation may succeed.
#[derive(Clone, Copy, Debug, PartialEq, Eq, Structural)]
pub enum Retryability {
    Retryable,
    NonRetryable,
}

} // verus!
