//! Reasons an error occurrence fails validation against its definition.

use vstd::prelude::*;

verus! {

/// Reasons an error occurrence is refused.
#[derive(Clone, Copy, Debug, PartialEq, Eq, Structural)]
pub enum ValidationError {
    EmptyMessage,
    EmptyDiagnosticField,
    UnregisteredDefinition,
    DefinitionMetadataMismatch,
    InvalidMessageFormat,
    MissingRequiredField,
    ExceededMaxLength,
    DuplicateDetailKey,
}

/// The human-readable description of a validation error.
pub open spec fn validation_text(e: ValidationError) -> Seq<char> {
    match e {
        ValidationError::EmptyMessage => "an error occurrence message must not be empty"@,
        ValidationError::EmptyDiagnosticField => "diagnostic detail keys and values must not be empty"@,
        ValidationError::UnregisteredDefinition => "the error definition is not registered"@,
        ValidationError::DefinitionMetadataMismatch => "the error metadata does not match the registered definition"@,
        ValidationError::InvalidMessageFormat => "the error message format is invalid"@,
        ValidationError::MissingRequiredField => "a required field is missing"@,
        ValidationError::ExceededMaxLength => "a field exceeds the maximum allowed length"@,
        ValidationError::DuplicateDetailKey => "a diagnostic detail key is duplicated"@,
    }
}

impl ValidationError {
    /// Human-readable description of the error.
    pub fn to_string(&self) -> (r: String)
        ensures
            r@ == validation_text(*self),
    {
        match self {
            ValidationError::EmptyMessage => "an error occurrence message must not be empty".to_string(),
            ValidationError::EmptyDiagnosticField => "diagnostic detail keys and values must not be empty".to_string(),
            ValidationError::UnregisteredDefinition => "the error definition is not registered".to_string(),
            ValidationError::DefinitionMetadataMismatch => "the error metadata does not match the registered definition".to_string(),
            ValidationError::InvalidMessageFormat => "the error message format is invalid".to_string(),
            ValidationError::MissingRequiredField => "a required field is missing".to_string(),
            ValidationError::ExceededMaxLength => "a field exceeds the maximum allowed length".to_string(),
            ValidationError::DuplicateDetailKey => "a diagnostic detail key is duplicated".to_string(),
        }
    }
}

} // verus!
