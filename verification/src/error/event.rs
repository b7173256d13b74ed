//! Error occurrences: the global error record, its context and details.

use vstd::prelude::*;
use crate::contracts::Version;
use crate::identity::{CapabilityId, EngineId};
use crate::operation::{OperationContext, OperationContextView};
use crate::status::Retryability;
use crate::text::{is_blank, str_is_blank};
use super::definition::{
    copy_opt_text, opt_text, ErrorClass, ErrorCode, ErrorDefinition, ErrorDefinitionView, ErrorOwner,
    Severity,
};
use super::reference::ErrorReference;
use crate::events::event::EventName;

verus! {

/// One key-value diagnostic attached to an error occurrence.
#[derive(Debug, PartialEq, Eq)]
pub struct DiagnosticDetail {
    pub key: String,
    pub value: String,
}

impl View for DiagnosticDetail {
    type V = (Seq<char>, Seq<char>);

    open spec fn view(&self) -> (Seq<char>, Seq<char>) {
        (self.key@, self.value@)
    }
}

impl Clone for DiagnosticDetail {
    fn clone(&self) -> (r: Self)
        ensures
            r@ == self@,
    {
        DiagnosticDetail { key: self.key.clone(), value: self.value.clone() }
    }
}

impl DiagnosticDetail {
    /// Creates a detail; neither key nor value may be blank.
    pub fn new(key: &str, value: &str) -> (r: Option<DiagnosticDetail>)
        ensures
            r is Some <==> !is_blank(key@) && !is_blank(value@),
            r matches Some(d) ==> d@ == (key@, value@),
    {
        if !str_is_blank(key) && !str_is_blank(value) {
            Some(DiagnosticDetail { key: key.to_owned(), value: value.to_owned() })
        } else {
            None
        }
    }
}

/// Abstract value of an error context.
pub struct ErrorContextView {
    pub operation: OperationContextView,
    pub engine_id: Option<Seq<char>>,
    pub capability_id: Option<Seq<char>>,
}

/// Where an error occurred: the operation, and optionally the engine and
/// capability.
#[derive(Debug, PartialEq, Eq)]
pub struct ErrorContext {
    pub operation: OperationContext,
    pub engine_id: Option<EngineId>,
    pub capability_id: Option<CapabilityId>,
}

impl View for ErrorContext {
    type V = ErrorContextView;

    open spec fn view(&self) -> ErrorContextView {
        ErrorContextView {
            operation: self.operation@,
            engine_id: match self.engine_id {
                Some(e) => Some(e@),
                None => None,
            },
            capability_id: match self.capability_id {
                Some(c) => Some(c@),
                None => None,
            },
        }
    }
}

impl Clone for ErrorContext {
    fn clone(&self) -> (r: Self)
        ensures
            r@ == self@,
    {
        let engine_id = match &self.engine_id {
            Some(e) => Some(e.clone()),
            None => None,
        };
        let capability_id = match &self.capability_id {
            Some(c) => Some(c.clone()),
            None => None,
        };
        ErrorContext { operation: self.operation.clone(), engine_id, capability_id }
    }
}

impl ErrorContext {
    /// Creates a context for an operation, without engine or capability.
    pub fn new(operation: OperationContext) -> (r: ErrorContext)
        ensures
            r@ == (ErrorContextView {
                operation: operation@,
                engine_id: None,
                capability_id: None,
            }),
    {
        ErrorContext { operation, engine_id: None, capability_id: None }
    }

    /// Returns the context attributed to an engine.
    pub fn from_engine(self, engine_id: EngineId) -> (r: ErrorContext)
        ensures
            r@ == (ErrorContextView { engine_id: Some(engine_id@), ..self@ }),
    {
        ErrorContext { engine_id: Some(engine_id), ..self }
    }

    /// Returns the context attributed to a capability.
    pub fn for_capability(self, capability_id: CapabilityId) -> (r: ErrorContext)
        ensures
            r@ == (ErrorContextView { capability_id: Some(capability_id@), ..self@ }),
    {
        ErrorContext { capability_id: Some(capability_id), ..self }
    }
}

/// Abstract value of a global error.
pub struct GlobalErrorView {
    pub code: Seq<char>,
    pub owner: Seq<char>,
    pub version: Version,
    pub class: ErrorClass,
    pub severity: Severity,
    pub retryability: Retryability,
    pub message: Seq<char>,
    pub details: Seq<(Seq<char>, Seq<char>)>,
    pub solution_reference: Option<Seq<char>>,
    pub context: ErrorContextView,
    pub cause: Option<Seq<char>>,
}

/// The abstract values of a list of details.
pub open spec fn detail_views(details: Seq<DiagnosticDetail>) -> Seq<(Seq<char>, Seq<char>)> {
    details.map_values(|d: DiagnosticDetail| d@)
}

/// One occurrence of a defined error.
#[derive(Debug, PartialEq, Eq)]
pub struct GlobalError {
    pub code: ErrorCode,
    pub owner: ErrorOwner,
    pub version: Version,
    pub class: ErrorClass,
    pub severity: Severity,
    pub retryability: Retryability,
    pub message: String,
    pub details: Vec<DiagnosticDetail>,
    pub solution_reference: Option<String>,
    pub context: ErrorContext,
    pub cause: Option<ErrorReference>,
}

impl View for GlobalError {
    type V = GlobalErrorView;

    open spec fn view(&self) -> GlobalErrorView {
        GlobalErrorView {
            code: self.code@,
            owner: self.owner@,
            version: self.version,
            class: self.class,
            severity: self.severity,
            retryability: self.retryability,
            message: self.message@,
            details: detail_views(self.details@),
            solution_reference: opt_text(self.solution_reference),
            context: self.context@,
            cause: match self.cause {
                Some(c) => Some(c@),
                None => None,
            },
        }
    }
}

fn copy_details(details: &Vec<DiagnosticDetail>) -> (r: Vec<DiagnosticDetail>)
    ensures
        detail_views(r@) == detail_views(details@),
{
    let mut out: Vec<DiagnosticDetail> = Vec::new();
    let mut k: usize = 0;
    while k < details.len()
        invariant
            k <= details@.len(),
            detail_views(out@) == detail_views(details@).take(k as int),
        decreases details@.len() - k,
    {
        let d = details[k].clone();
        let ghost before = detail_views(out@);
        out.push(d);
        proof {
            assert(detail_views(out@) =~= before.push(d@));
            assert(detail_views(details@).take(k + 1) =~= detail_views(details@).take(k as int).push(
                d@,
            ));
        }
        k = k + 1;
    }
    proof {
        assert(detail_views(details@).take(k as int) =~= detail_views(details@));
    }
    out
}

impl Clone for GlobalError {
    fn clone(&self) -> (r: Self)
        ensures
            r@ == self@,
    {
        let cause = match &self.cause {
            Some(c) => Some(c.clone()),
            None => None,
        };
        GlobalError {
            code: self.code.clone(),
            owner: self.owner.clone(),
            version: self.version,
            class: self.class,
            severity: self.severity,
            retryability: self.retryability,
            message: self.message.clone(),
            details: copy_details(&self.details),
            solution_reference: copy_opt_text(&self.solution_reference),
            context: self.context.clone(),
            cause,
        }
    }
}

/// The occurrence a definition yields in a context: the definition's
/// metadata, the given message or else the default message, no details and
/// no cause.
pub open spec fn occurrence_of(
    definition: ErrorDefinitionView,
    context: ErrorContextView,
    message: Option<Seq<char>>,
) -> GlobalErrorView {
    GlobalErrorView {
        code: definition.code,
        owner: definition.owner,
        version: definition.version,
        class: definition.class,
        severity: definition.severity,
        retryability: definition.retryability,
        message: match message {
            Some(m) => m,
            None => definition.default_message,
        },
        details: Seq::empty(),
        solution_reference: definition.solution_reference,
        context,
        cause: None,
    }
}

impl GlobalError {
    /// Creates the occurrence of a definition in a context.
    pub(crate) fn from_definition(
        definition: &ErrorDefinition,
        context: ErrorContext,
        message: Option<String>,
    ) -> (r: GlobalError)
        ensures
            r@ == occurrence_of(definition@, context@, opt_text(message)),
    {
        let message = match message {
            Some(m) => m,
            None => definition.default_message.clone(),
        };
        let r = GlobalError {
            code: definition.code.clone(),
            owner: definition.owner.clone(),
            version: definition.version,
            class: definition.class,
            severity: definition.severity,
            retryability: definition.retryability,
            message,
            details: Vec::new(),
            solution_reference: copy_opt_text(&definition.solution_reference),
            context,
            cause: None,
        };
        proof {
            assert(detail_views(r.details@) =~= Seq::<(Seq<char>, Seq<char>)>::empty());
        }
        r
    }

    /// Returns the error with one more detail.
    pub fn with_detail(self, detail: DiagnosticDetail) -> (r: GlobalError)
        ensures
            r@ == (GlobalErrorView { details: self@.details.push(detail@), ..self@ }),
    {
        let mut error = self;
        let ghost before = detail_views(error.details@);
        let ghost d = detail@;
        error.details.push(detail);
        proof {
            assert(detail_views(error.details@) =~= before.push(d));
        }
        error
    }

    /// Returns the details.
    pub fn details(&self) -> (r: &[DiagnosticDetail])
        ensures
            detail_views(r@) == self@.details,
    {
        self.details.as_slice()
    }

    /// Returns the error with another message.
    pub fn with_message(self, message: &str) -> (r: GlobalError)
        ensures
            r@ == (GlobalErrorView { message: message@, ..self@ }),
    {
        GlobalError { message: message.to_owned(), ..self }
    }

    /// Returns the error with a cause.
    pub fn caused_by(self, cause: ErrorReference) -> (r: GlobalError)
        ensures
            r@ == (GlobalErrorView { cause: Some(cause@), ..self@ }),
    {
        GlobalError { cause: Some(cause), ..self }
    }
}

/// Abstract value of an error event.
pub struct ErrorEventView {
    pub reference: Seq<char>,
    pub error: GlobalErrorView,
}

/// A reported error occurrence and the reference it is reported under.
#[derive(Debug, PartialEq, Eq)]
pub struct ErrorEvent {
    pub reference: ErrorReference,
    pub error: GlobalError,
}

impl View for ErrorEvent {
    type V = ErrorEventView;

    open spec fn view(&self) -> ErrorEventView {
        ErrorEventView { reference: self.reference@, error: self.error@ }
    }
}

impl Clone for ErrorEvent {
    fn clone(&self) -> (r: Self)
        ensures
            r@ == self@,
    {
        ErrorEvent { reference: self.reference.clone(), error: self.error.clone() }
    }
}

/// The scope an error event applies to: the engine it came from, or Core
/// itself when no engine is named.
pub open spec fn error_scope(context: ErrorContextView) -> Seq<char> {
    match context.engine_id {
        Some(engine) => "engine:"@ + engine,
        None => "core"@,
    }
}

impl ErrorEvent {
    /// Returns the reference the occurrence is reported under.
    pub fn reference(&self) -> (r: &ErrorReference)
        ensures
            r@ == self@.reference,
    {
        &self.reference
    }

    /// The name under which error occurrences are published as events.
    pub fn event_name(&self) -> (r: EventName)
        ensures
            r@ == "error.occurred"@,
    {
        proof {
            reveal_strlit("error.occurred");
            assert(!crate::text::is_space("error.occurred"@[0]));
        }
        let name = EventName::new("error.occurred");
        name.unwrap()
    }

    /// The event type under which error occurrences are published.
    pub fn event_type(&self) -> (r: &'static str)
        ensures
            r@ == "error"@,
    {
        "error"
    }

    /// The scope of the event: `engine:` followed by the engine the error
    /// came from, or `core` when the context names no engine.
    pub fn event_scope(&self) -> (r: String)
        ensures
            r@ == error_scope(self@.error.context),
    {
        match &self.error.context.engine_id {
            Some(engine) => {
                let text = "engine:".to_string();
                text.concat(engine.as_str())
            },
            None => "core".to_string(),
        }
    }
}

} // verus!
