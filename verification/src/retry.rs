//! Execution attempts of an operation.

use vstd::prelude::*;
use crate::identity::{AttemptId, OperationId};

verus! {

/// Error returned when an attempt number is zero.
#[derive(Clone, Copy, Debug, PartialEq, Eq, Structural)]
pub struct InvalidAttempt;

/// Lifecycle of one execution attempt.
#[derive(Clone, Copy, Debug, PartialEq, Eq, Structural)]
pub enum AttemptLifecycleState {
    /// The attempt exists and has not started.
    Created,
    /// The attempt is executing.
    Running,
    /// The attempt finished successfully.
    Succeeded,
    /// The attempt finished with a failure.
    Failed,
}

/// One numbered execution attempt of an operation.
#[derive(Debug, PartialEq, Eq)]
pub struct Attempt {
    operation_id: OperationId,
    attempt_id: AttemptId,
    number: u32,
    state: AttemptLifecycleState,
}

/// Abstract value of an attempt.
pub struct AttemptView {
    pub operation_id: Seq<char>,
    pub attempt_id: Seq<char>,
    pub number: u32,
    pub state: AttemptLifecycleState,
}

impl View for Attempt {
    type V = AttemptView;

    closed spec fn view(&self) -> AttemptView {
        AttemptView {
            operation_id: self.operation_id@,
            attempt_id: self.attempt_id@,
            number: self.number,
            state: self.state,
        }
    }
}

impl Attempt {
    /// Attempt numbers start at one.
    pub fn new(operation_id: OperationId, attempt_id: AttemptId, number: u32) -> (r: Result<
        Attempt,
        InvalidAttempt,
    >)
        ensures
            r is Ok <==> number >= 1,
            r matches Ok(a) ==> a@ == (AttemptView {
                operation_id: operation_id@,
                attempt_id: attempt_id@,
                number,
                state: AttemptLifecycleState::Created,
            }),
    {
        if number == 0 {
            Err(InvalidAttempt)
        } else {
            Ok(Attempt { operation_id, attempt_id, number, state: AttemptLifecycleState::Created })
        }
    }

    /// Returns the operation the attempt belongs to.
    pub fn operation_id(&self) -> (r: &OperationId)
        ensures
            r@ == self@.operation_id,
    {
        &self.operation_id
    }

    /// Returns the identity of the attempt.
    pub fn attempt_id(&self) -> (r: &AttemptId)
        ensures
            r@ == self@.attempt_id,
    {
        &self.attempt_id
    }

    /// Returns the attempt number, starting at one.
    pub fn attempt_number(&self) -> (r: u32)
        ensures
            r == self@.number,
    {
        self.number
    }

    /// Returns the lifecycle state of the attempt.
    pub fn state(&self) -> (r: AttemptLifecycleState)
        ensures
            r == self@.state,
    {
        self.state
    }
}

} // verus!
