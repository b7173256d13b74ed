use nizaam_core::contracts::Version;
use nizaam_core::error::{
    CatalogError, DiagnosticDetail, ErrorCatalog, ErrorClass, ErrorCode, ErrorContext,
    ErrorDefinition, ErrorOwner, ErrorReference, ErrorSystem, GlobalError, InvalidErrorCode,
    ReportError, Severity, ValidationError,
};
use nizaam_core::identity::{CapabilityId, CorrelationId, EngineId, OperationId};
use nizaam_core::operation::{Operation, OperationContext};
use nizaam_core::status::Retryability;

#[test]
fn codes_require_an_uppercase_namespace_and_numeric_suffix() {
    assert!(ErrorCode::new("CORE.CONTRACT.001").is_ok());
    assert_eq!(
        ErrorCode::new("core.contract.001"),
        Err(InvalidErrorCode::InvalidNamespace)
    );
    assert_eq!(
        ErrorCode::new("CORE.CONTRACT.BAD"),
        Err(InvalidErrorCode::MissingNumericSuffix)
    );
}

#[test]
fn definitions_require_matching_ownership() {
    let code = ErrorCode::new("CORE.CONTRACT.001").unwrap();
    let owner = ErrorOwner::new("CORE").unwrap();
    assert!(
        ErrorDefinition::new(
            code,
            owner,
            Version::new(1, 0, 0),
            ErrorClass::Contract,
            Severity::Error,
            "Contract rejected",
            Retryability::NonRetryable,
        )
        .is_ok()
    );
}




fn definition() -> ErrorDefinition {
    ErrorDefinition::new(
        ErrorCode::new("CORE.CONTRACT.001").unwrap(),
        ErrorOwner::new("CORE").unwrap(),
        Version::new(1, 0, 0),
        ErrorClass::Contract,
        Severity::Error,
        "Contract rejected",
        Retryability::NonRetryable,
    )
    .unwrap()
}

#[test]
fn catalog_rejects_duplicate_codes() {
    let mut catalog = ErrorCatalog::new();
    catalog.register(definition()).unwrap();
    assert!(matches!(
        catalog.register(definition()),
        Err(CatalogError::DuplicateCode(_))
    ));
}

