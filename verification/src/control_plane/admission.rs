//! Control Plane admission of universal requests.
//!
//! Admission accepts a request exactly when it satisfies its own contract;
//! it neither modifies the request nor creates an attempt.

use vstd::prelude::*;
use crate::contracts::{
    request_fault, validate_request, validation_error_text, UniversalRequest, ValidationError,
};

verus! {

/// Why the Control Plane refused a request.
#[derive(Clone, Copy, Debug, PartialEq, Eq, Structural)]
pub enum AdmissionError {
    /// The request violates an existing contract invariant.
    Contract(ValidationError),
}

impl AdmissionError {
    /// Human-readable description of the error.
    pub fn to_string(&self) -> (r: String)
        ensures
            match self {
                AdmissionError::Contract(e) => r@ == "Control Plane admission rejected: "@
                    + validation_error_text(*e),
            },
    {
        match self {
            AdmissionError::Contract(error) => {
                let text = "Control Plane admission rejected: ".to_string();
                let detail = error.to_string();
                text.concat(detail.as_str())
            },
        }
    }
}

/// Admits a request that satisfies its contract.
pub fn admit_request(request: &UniversalRequest) -> (r: Result<(), AdmissionError>)
    ensures
        match request_fault(*request) {
            Some(e) => r == Err::<(), AdmissionError>(AdmissionError::Contract(e)),
            None => r is Ok,
        },
{
    match validate_request(request) {
        Ok(()) => Ok(()),
        Err(e) => Err(AdmissionError::Contract(e)),
    }
}

} // verus!
