use nizaam_core::contracts::Version;
use nizaam_core::error::{
    CatalogError, DiagnosticDetail, ErrorCatalog, ErrorClass, ErrorCode, ErrorContext,
    ErrorDefinition, ErrorOwner, ErrorReference, ErrorSystem, GlobalError, InvalidErrorCode,
    ReportError, Severity, ValidationError,
};
use nizaam_core::identity::{CapabilityId, CorrelationId, EngineId, OperationId};
use nizaam_core::operation::{Operation, OperationContext};
use nizaam_core::status::Retryability;

fn operation_context() -> OperationContext {
    OperationContext::new(Operation::new(
        OperationId::new("test-op").unwrap(),
        CorrelationId::new("test-corr").unwrap(),
    ))
}

#[test]
fn error_system_new_creates_empty_system() {
    let system = ErrorSystem::new();
    assert!(system.catalog().is_empty());
}

#[test]
fn error_system_register_adds_definition() {
    let mut system = ErrorSystem::new();
    let def = ErrorDefinition::new(
        ErrorCode::new("CORE.TEST.002").unwrap(),
        ErrorOwner::new("CORE").unwrap(),
        Version::new(1, 0, 0),
        ErrorClass::Contract,
        Severity::Warning,
        "Warning message",
        Retryability::Retryable,
    )
    .unwrap();
    system.register(def.clone()).unwrap();
    assert!(system.catalog().get(&def.code).is_some());
    let retrieved = system.catalog().get(&def.code).unwrap();
    assert_eq!(retrieved.owner, def.owner);
    assert_eq!(retrieved.severity, def.severity);
}

#[test]
fn error_system_instance_reports_errors() {
    let mut system = ErrorSystem::new();
    let def = ErrorDefinition::new(
        ErrorCode::new("CORE.TEST.003").unwrap(),
        ErrorOwner::new("CORE").unwrap(),
        Version::new(1, 0, 0),
        ErrorClass::Contract,
        Severity::Error,
        "Test error",
        Retryability::Retryable,
    )
    .unwrap();
    system.register(def.clone()).unwrap();
    let instance = system.instance();
    let event = instance.report(&def.code, ErrorContext::new(operation_context()));
    assert!(event.is_ok());
    let event = event.unwrap();
    assert_eq!(event.error.code.as_str(), "CORE.TEST.003");
}

#[test]
fn error_system_instance_rejects_unregistered_code() {
    let system = ErrorSystem::new();
    let instance = system.instance();
    let unknown_code = ErrorCode::new("CORE.UNKNOWN.999").unwrap();
    let event = instance.report(&unknown_code, ErrorContext::new(operation_context()));
    assert!(event.is_err());
}

#[test]
fn error_system_instance_clone_is_independent() {
    let mut system = ErrorSystem::new();
    let def = ErrorDefinition::new(
        ErrorCode::new("CORE.TEST.004").unwrap(),
        ErrorOwner::new("CORE").unwrap(),
        Version::new(1, 0, 0),
        ErrorClass::Contract,
        Severity::Error,
        "Clone test",
        Retryability::Retryable,
    )
    .unwrap();
    system.register(def).unwrap();

    let instance1 = system.instance();
    let instance2 = system.instance();

    assert!(
        instance1
            .catalog()
            .get(&ErrorCode::new("CORE.TEST.004").unwrap())
            .is_some()
    );
    assert!(
        instance2
            .catalog()
            .get(&ErrorCode::new("CORE.TEST.004").unwrap())
            .is_some()
    );
}

#[test]
fn error_system_report_error_rejects_metadata_mismatch() {
    let mut system = ErrorSystem::new();
    let def = ErrorDefinition::new(
        ErrorCode::new("CORE.TEST.005").unwrap(),
        ErrorOwner::new("CORE").unwrap(),
        Version::new(1, 0, 0),
        ErrorClass::Contract,
        Severity::Error,
        "Original message",
        Retryability::NonRetryable,
    )
    .unwrap();
    system.register(def.clone()).unwrap();
    let instance = system.instance();

    let mut error = instance
        .report(&def.code, ErrorContext::new(operation_context()))
        .unwrap()
        .error;
    error.severity = Severity::Critical;
    let result = instance.report_error(error);
    assert!(result.is_err());
}

#[test]
fn error_system_report_error_with_details() {
    let mut system = ErrorSystem::new();
    let def = ErrorDefinition::new(
        ErrorCode::new("CORE.TEST.006").unwrap(),
        ErrorOwner::new("CORE").unwrap(),
        Version::new(1, 0, 0),
        ErrorClass::Contract,
        Severity::Error,
        "Error with details",
        Retryability::Retryable,
    )
    .unwrap();
    system.register(def.clone()).unwrap();
    let instance = system.instance();

    let error = instance
        .report(&def.code, ErrorContext::new(operation_context()))
        .unwrap()
        .error;
    let error_with_detail = error.with_detail(DiagnosticDetail::new("key", "value").unwrap());
    let result = instance.report_error(error_with_detail);
    assert!(result.is_ok());
}

#[test]
fn error_system_report_error_rejects_empty_message() {
    let mut system = ErrorSystem::new();
    let def = ErrorDefinition::new(
        ErrorCode::new("CORE.TEST.007").unwrap(),
        ErrorOwner::new("CORE").unwrap(),
        Version::new(1, 0, 0),
        ErrorClass::Contract,
        Severity::Error,
        "Original message",
        Retryability::Retryable,
    )
    .unwrap();
    system.register(def.clone()).unwrap();
    let instance = system.instance();

    let mut error = instance
        .report(&def.code, ErrorContext::new(operation_context()))
        .unwrap()
        .error;
    error = error.with_message("");
    let result = instance.report_error(error);
    assert!(result.is_err());
}

