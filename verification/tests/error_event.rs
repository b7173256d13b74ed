use nizaam_core::contracts::Version;
use nizaam_core::error::{
    CatalogError, DiagnosticDetail, ErrorCatalog, ErrorClass, ErrorCode, ErrorContext,
    ErrorDefinition, ErrorOwner, ErrorReference, ErrorSystem, GlobalError, InvalidErrorCode,
    ReportError, Severity, ValidationError,
};
use nizaam_core::identity::{CapabilityId, CorrelationId, EngineId, OperationId};
use nizaam_core::operation::{Operation, OperationContext};
use nizaam_core::status::Retryability;

fn operation_context() -> OperationContext {
    OperationContext::new(Operation::new(
        OperationId::new("test-op").unwrap(),
        CorrelationId::new("test-corr").unwrap(),
    ))
}

fn global_error() -> GlobalError {
    GlobalError {
        code: ErrorCode::new("CORE.TEST.001").unwrap(),
        owner: ErrorOwner::new("CORE").unwrap(),
        version: Version::new(1, 0, 0),
        class: ErrorClass::Contract,
        severity: Severity::Error,
        retryability: Retryability::NonRetryable,
        message: "Test error".to_string(),
        details: Vec::new(),
        solution_reference: None,
        context: ErrorContext::new(operation_context()),
        cause: None,
    }
}

#[test]
fn diagnostic_detail_rejects_empty_key() {
    let detail = DiagnosticDetail::new("", "value");
    assert!(detail.is_none());
}

#[test]
fn diagnostic_detail_rejects_empty_value() {
    let detail = DiagnosticDetail::new("key", "");
    assert!(detail.is_none());
}

#[test]
fn diagnostic_detail_accepts_valid_fields() {
    let detail = DiagnosticDetail::new("key", "value").unwrap();
    assert_eq!(detail.key, "key");
    assert_eq!(detail.value, "value");
}

#[test]
fn error_context_starts_without_engine_or_capability() {
    let context = ErrorContext::new(operation_context());
    assert!(context.engine_id.is_none());
    assert!(context.capability_id.is_none());
}

#[test]
fn error_context_builder_methods_set_fields() {
    let context = ErrorContext::new(operation_context())
        .from_engine(EngineId::new("engine-1").unwrap())
        .for_capability(CapabilityId::new("cap-1").unwrap());
    assert!(context.engine_id.is_some());
    assert!(context.capability_id.is_some());
}

#[test]
fn global_error_with_message_overrides_default() {
    let mut error = global_error();
    error = error.with_message("Custom message");
    assert_eq!(error.message, "Custom message");
}

#[test]
fn global_error_with_detail_adds_to_details() {
    let mut error = global_error();
    error = error.with_detail(DiagnosticDetail::new("key", "value").unwrap());
    assert_eq!(error.details.len(), 1);
    assert_eq!(error.details[0].key, "key");
}

#[test]
fn global_error_caused_by_sets_cause() {
    let mut error = global_error();
    let cause = ErrorReference::new("CORE.CAUSE.001").unwrap();
    error = error.caused_by(cause.clone());
    assert_eq!(error.cause, Some(cause));
}

