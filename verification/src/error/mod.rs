//! The Error System: static error definitions, their in-process catalog,
//! and validated runtime error occurrences.

pub mod definition;
pub mod reference;
pub mod validation;

pub use definition::{
    ErrorClass, ErrorCode, ErrorDefinition, ErrorOwner, InvalidDefinition, InvalidErrorCode,
    InvalidErrorOwner, Severity,
};
pub use reference::ErrorReference;
pub use validation::ValidationError;
pub mod event;

pub use event::{DiagnosticDetail, ErrorContext, ErrorEvent, GlobalError};
pub mod catalog;

pub use catalog::{CatalogError, ErrorCatalog};
pub mod system;

pub use system::{ErrorSystem, ErrorSystemInstance, ReportError};
