//! The Error System: registration of definitions, and reporting of error
//! occurrences against a frozen copy of the catalog.
//!
//! An occurrence is reported only for a registered code. A reported
//! occurrence built from a definition carries exactly that definition's
//! metadata; an occurrence supplied whole must agree with its definition's
//! metadata, carry a message, and carry only complete details.

use vstd::prelude::*;
use crate::text::{is_blank, str_is_blank};
use super::catalog::{definition_for, has_code, CatalogError, ErrorCatalog};
use super::definition::{
    first_segment, lemma_code_not_blank, opt_text_equal, ErrorCode, ErrorDefinition,
    ErrorDefinitionView,
};
use super::event::{
    occurrence_of, ErrorContext, ErrorEvent, ErrorEventView, GlobalError, GlobalErrorView,
};
use super::reference::ErrorReference;
use super::validation::ValidationError;

verus! {

/// Reasons registration or reporting fails.
#[derive(Clone, Debug, PartialEq, Eq)]
pub enum ReportError {
    Catalog(CatalogError),
    Validation(ValidationError),
}

/// The Error System: a catalog of registered definitions.
#[derive(Debug)]
pub struct ErrorSystem {
    catalog: ErrorCatalog,
}

/// A frozen view of the Error System used for reporting.
#[derive(Debug)]
pub struct ErrorSystemInstance {
    catalog: ErrorCatalog,
}

impl View for ErrorSystem {
    type V = Seq<ErrorDefinitionView>;

    closed spec fn view(&self) -> Seq<ErrorDefinitionView> {
        self.catalog@
    }
}

impl View for ErrorSystemInstance {
    type V = Seq<ErrorDefinitionView>;

    closed spec fn view(&self) -> Seq<ErrorDefinitionView> {
        self.catalog@
    }
}

impl Clone for ErrorSystem {
    fn clone(&self) -> (r: Self)
        ensures
            r@ == self@,
    {
        ErrorSystem { catalog: self.catalog.clone() }
    }
}

impl Clone for ErrorSystemInstance {
    fn clone(&self) -> (r: Self)
        ensures
            r@ == self@,
    {
        ErrorSystemInstance { catalog: self.catalog.clone() }
    }
}

impl Default for ErrorSystem {
    fn default() -> (r: Self)
        ensures
            r@ == Seq::<ErrorDefinitionView>::empty(),
    {
        ErrorSystem::new()
    }
}

impl ErrorSystem {
    /// Creates a system with an empty catalog.
    pub fn new() -> (r: ErrorSystem)
        ensures
            r@ == Seq::<ErrorDefinitionView>::empty(),
    {
        ErrorSystem { catalog: ErrorCatalog::new() }
    }

    /// Registers a definition in the catalog.
    pub fn register(&mut self, definition: ErrorDefinition) -> (r: Result<(), ReportError>)
        ensures
            r is Ok <==> definition@.owner == first_segment(definition@.code) && !has_code(
                old(self)@,
                definition@.code,
            ),
            r is Ok ==> final(self)@ == old(self)@.push(definition@),
            r matches Err(e) ==> final(self)@ == old(self)@ && (if definition@.owner
                != first_segment(definition@.code) {
                e == ReportError::Catalog(CatalogError::OwnerNamespaceMismatch)
            } else {
                e matches ReportError::Catalog(CatalogError::DuplicateCode(c)) && c@
                    == definition@.code
            }),
    {
        match self.catalog.register(definition) {
            Ok(()) => Ok(()),
            Err(e) => Err(ReportError::Catalog(e)),
        }
    }

    /// Returns a reporting instance over a copy of the current catalog.
    pub fn instance(&self) -> (r: ErrorSystemInstance)
        ensures
            r@ == self@,
    {
        ErrorSystemInstance { catalog: self.catalog.clone() }
    }

    /// Returns the catalog.
    pub fn catalog(&self) -> (r: &ErrorCatalog)
        ensures
            r@ == self@,
    {
        &self.catalog
    }
}

/// How a supplied occurrence disagrees with the catalog, in the order the
/// checks apply, or `None` when it can be reported.
pub open spec fn occurrence_fault(
    catalog: Seq<ErrorDefinitionView>,
    error: GlobalErrorView,
) -> Option<ValidationError> {
    if !has_code(catalog, error.code) {
        Some(ValidationError::UnregisteredDefinition)
    } else if is_blank(error.message) {
        Some(ValidationError::EmptyMessage)
    } else if !metadata_matches(definition_for(catalog, error.code), error) {
        Some(ValidationError::DefinitionMetadataMismatch)
    } else if exists|i: int|
        0 <= i < error.details.len() && (is_blank((#[trigger] error.details[i]).0) || is_blank(
            error.details[i].1,
        )) {
        Some(ValidationError::EmptyDiagnosticField)
    } else {
        None
    }
}

/// An occurrence carries its definition's owner, version, class, severity,
/// retryability and solution reference.
pub open spec fn metadata_matches(definition: ErrorDefinitionView, error: GlobalErrorView) -> bool {
    &&& error.owner == definition.owner
    &&& error.version == definition.version
    &&& error.class == definition.class
    &&& error.severity == definition.severity
    &&& error.retryability == definition.retryability
    &&& error.solution_reference == definition.solution_reference
}

impl ErrorSystemInstance {
    /// Returns the frozen catalog the instance reports against.
    pub fn catalog(&self) -> (r: &ErrorCatalog)
        ensures
            r@ == self@,
    {
        &self.catalog
    }

    /// Reports the occurrence of a registered code in a context, carrying
    /// the definition's metadata and default message.
    pub fn report(&self, code: &ErrorCode, context: ErrorContext) -> (r: Result<
        ErrorEvent,
        ReportError,
    >)
        ensures
            r is Ok <==> has_code(self@, code@),
            r matches Ok(event) ==> event@ == (ErrorEventView {
                reference: code@,
                error: occurrence_of(definition_for(self@, code@), context@, None),
            }),
            r matches Err(e) ==> e == ReportError::Validation(ValidationError::UnregisteredDefinition),
    {
        let definition = match self.catalog.get(code) {
            Some(d) => d,
            None => {
                return Err(ReportError::Validation(ValidationError::UnregisteredDefinition));
            },
        };
        let error = GlobalError::from_definition(definition, context, None);
        let text = code.as_str();
        proof {
            lemma_code_not_blank(code@);
        }
        match ErrorReference::new(text) {
            Some(reference) => Ok(ErrorEvent { reference, error }),
            None => Err(ReportError::Validation(ValidationError::UnregisteredDefinition)),
        }
    }

    /// Reports an occurrence supplied whole, after checking it against its
    /// registered definition.
    pub fn report_error(&self, error: GlobalError) -> (r: Result<ErrorEvent, ReportError>)
        ensures
            match occurrence_fault(self@, error@) {
                Some(v) => r == Err::<ErrorEvent, ReportError>(ReportError::Validation(v)),
                None => r matches Ok(event) && event@ == (ErrorEventView {
                    reference: error@.code,
                    error: error@,
                }),
            },
    {
        let definition = match self.catalog.get(&error.code) {
            Some(d) => d,
            None => {
                return Err(ReportError::Validation(ValidationError::UnregisteredDefinition));
            },
        };
        if str_is_blank(error.message.as_str()) {
            return Err(ReportError::Validation(ValidationError::EmptyMessage));
        }
        if !(error.owner == definition.owner) || error.version != definition.version || error.class
            != definition.class || error.severity != definition.severity || error.retryability
            != definition.retryability || !opt_text_equal(
            &error.solution_reference,
            &definition.solution_reference,
        ) {
            return Err(ReportError::Validation(ValidationError::DefinitionMetadataMismatch));
        }
        let mut k: usize = 0;
        while k < error.details.len()
            invariant
                k <= error.details@.len(),
                has_code(self@, error@.code),
                !is_blank(error@.message),
                metadata_matches(definition_for(self@, error@.code), error@),
                forall|i: int|
                    0 <= i < k ==> !(is_blank((#[trigger] error@.details[i]).0) || is_blank(
                        error@.details[i].1,
                    )),
            decreases error.details@.len() - k,
        {
            let detail = &error.details[k];
            proof {
                assert(error@.details[k as int] == detail@);
            }
            if str_is_blank(detail.key.as_str()) || str_is_blank(detail.value.as_str()) {
                proof {
                    assert(is_blank(error@.details[k as int].0) || is_blank(
                        error@.details[k as int].1,
                    ));
                }
                return Err(ReportError::Validation(ValidationError::EmptyDiagnosticField));
            }
            k = k + 1;
        }
        let text = definition.code.as_str();
        proof {
            lemma_code_not_blank(definition@.code);
        }
        match ErrorReference::new(text) {
            Some(reference) => Ok(ErrorEvent { reference, error }),
            None => Err(ReportError::Validation(ValidationError::UnregisteredDefinition)),
        }
    }
}

/// An occurrence reported from a registered definition always passes
/// whole-occurrence validation, as long as the definition's default message
/// is not blank; enriching it with a non-blank message, complete details
/// and a cause keeps it valid.
pub proof fn lemma_reported_occurrence_validates(
    catalog: Seq<ErrorDefinitionView>,
    code: Seq<char>,
    context: super::event::ErrorContextView,
    message: Seq<char>,
    details: Seq<(Seq<char>, Seq<char>)>,
    cause: Option<Seq<char>>,
)
    requires
        has_code(catalog, code),
        !is_blank(definition_for(catalog, code).default_message),
        !is_blank(message),
        forall|i: int| 0 <= i < details.len() ==> !is_blank((#[trigger] details[i]).0) && !is_blank(details[i].1),
    ensures
        occurrence_fault(catalog, occurrence_of(definition_for(catalog, code), context, None)) is None,
        occurrence_fault(
            catalog,
            GlobalErrorView {
                message,
                details,
                cause,
                ..occurrence_of(definition_for(catalog, code), context, None)
            },
        ) is None,
{
    let i = choose|i: int| 0 <= i < catalog.len() && (#[trigger] catalog[i]).code == code;
    assert(definition_for(catalog, code).code == code);
}


/// An occurrence of a registered code with a non-blank message that differs
/// from its registered definition in owner, version, class, severity,
/// retryability or solution reference is rejected as a metadata mismatch.
pub proof fn lemma_metadata_mismatch_is_rejected(
    catalog: Seq<ErrorDefinitionView>,
    error: GlobalErrorView,
)
    requires
        has_code(catalog, error.code),
        !is_blank(error.message),
        ({
            let d = definition_for(catalog, error.code);
            ||| error.owner != d.owner
            ||| error.version != d.version
            ||| error.class != d.class
            ||| error.severity != d.severity
            ||| error.retryability != d.retryability
            ||| error.solution_reference != d.solution_reference
        }),
    ensures
        occurrence_fault(catalog, error) == Some(ValidationError::DefinitionMetadataMismatch),
{
}

} // verus!
