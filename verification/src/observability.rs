//! Diagnostics attached to operational observations.

use vstd::prelude::*;
use crate::text::{is_blank, str_is_blank};

verus! {

/// Area a diagnostic concerns.
#[derive(Clone, Copy, Debug, PartialEq, Eq, Structural)]
pub enum DiagnosticKind {
    Runtime,
    Transport,
    Capability,
    Resource,
}

/// Condition a diagnostic reports.
#[derive(Clone, Copy, Debug, PartialEq, Eq, Structural)]
pub enum DiagnosticCondition {
    Degraded,
    Failed,
    Recovered,
}

/// Error returned when a diagnostic message is blank.
#[derive(Clone, Copy, Debug, PartialEq, Eq, Structural)]
pub struct InvalidDiagnostic;

/// Abstract value of a diagnostic.
pub struct DiagnosticView {
    pub kind: DiagnosticKind,
    pub condition: DiagnosticCondition,
    pub message: Seq<char>,
}

/// One diagnostic observation.
#[derive(Debug, PartialEq, Eq)]
pub struct Diagnostic {
    kind: DiagnosticKind,
    condition: DiagnosticCondition,
    message: String,
}

impl View for Diagnostic {
    type V = DiagnosticView;

    closed spec fn view(&self) -> DiagnosticView {
        DiagnosticView { kind: self.kind, condition: self.condition, message: self.message@ }
    }
}

impl Clone for Diagnostic {
    fn clone(&self) -> (r: Self)
        ensures
            r@ == self@,
    {
        Diagnostic { kind: self.kind, condition: self.condition, message: self.message.clone() }
    }
}

impl Diagnostic {
    /// Creates a diagnostic with a non-blank message.
    pub fn new(kind: DiagnosticKind, condition: DiagnosticCondition, message: &str) -> (r: Result<
        Diagnostic,
        InvalidDiagnostic,
    >)
        ensures
            r is Ok <==> !is_blank(message@),
            r matches Ok(d) ==> d@ == (DiagnosticView { kind, condition, message: message@ }),
    {
        if str_is_blank(message) {
            return Err(InvalidDiagnostic);
        }
        Ok(Diagnostic { kind, condition, message: message.to_owned() })
    }

    /// Returns the diagnostic message.
    pub fn message(&self) -> (r: &str)
        ensures
            r@ == self@.message,
    {
        self.message.as_str()
    }
}

} // verus!
