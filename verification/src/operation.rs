//! Operation identity and the trusted context propagated with it.

use vstd::prelude::*;
use crate::identity::{AttemptId, CorrelationId, NodeId, OperationId};

verus! {

/// One logical operation.
#[derive(Debug, PartialEq, Eq)]
pub struct Operation {
    pub id: OperationId,
    pub correlation_id: CorrelationId,
}

/// Abstract value of an operation context.
pub struct OperationContextView {
    pub operation_id: Seq<char>,
    pub correlation_id: Seq<char>,
    pub node_id: Option<Seq<char>>,
    pub attempt_id: Option<Seq<char>>,
}

impl Clone for Operation {
    fn clone(&self) -> (r: Self)
        ensures
            r.id@ == self.id@,
            r.correlation_id@ == self.correlation_id@,
    {
        Operation { id: self.id.clone(), correlation_id: self.correlation_id.clone() }
    }
}

impl Operation {
    /// Creates an operation.
    pub fn new(id: OperationId, correlation_id: CorrelationId) -> (r: Operation)
        ensures
            r.id@ == id@,
            r.correlation_id@ == correlation_id@,
    {
        Operation { id, correlation_id }
    }
}

/// Context of an operation, optionally bound to one execution attempt on
/// one node.
#[derive(Debug, PartialEq, Eq)]
pub struct OperationContext {
    pub operation: Operation,
    pub node_id: Option<NodeId>,
    pub attempt_id: Option<AttemptId>,
}

impl View for OperationContext {
    type V = OperationContextView;

    open spec fn view(&self) -> OperationContextView {
        OperationContextView {
            operation_id: self.operation.id@,
            correlation_id: self.operation.correlation_id@,
            node_id: match self.node_id {
                Some(n) => Some(n@),
                None => None,
            },
            attempt_id: match self.attempt_id {
                Some(a) => Some(a@),
                None => None,
            },
        }
    }
}

impl Clone for OperationContext {
    fn clone(&self) -> (r: Self)
        ensures
            r@ == self@,
    {
        let node_id = match &self.node_id {
            Some(n) => Some(n.clone()),
            None => None,
        };
        let attempt_id = match &self.attempt_id {
            Some(a) => Some(a.clone()),
            None => None,
        };
        OperationContext { operation: self.operation.clone(), node_id, attempt_id }
    }
}

impl OperationContext {
    /// Creates a context that is not yet bound to an attempt.
    pub fn new(operation: Operation) -> (r: OperationContext)
        ensures
            r@ == (OperationContextView {
                operation_id: operation.id@,
                correlation_id: operation.correlation_id@,
                node_id: None,
                attempt_id: None,
            }),
    {
        OperationContext { operation, node_id: None, attempt_id: None }
    }

    /// Binds the context to one execution attempt on one node.
    pub fn for_attempt(self, node_id: NodeId, attempt_id: AttemptId) -> (r: OperationContext)
        ensures
            r@ == (OperationContextView {
                node_id: Some(node_id@),
                attempt_id: Some(attempt_id@),
                ..self@
            }),
    {
        OperationContext {
            operation: self.operation,
            node_id: Some(node_id),
            attempt_id: Some(attempt_id),
        }
    }
}

} // verus!
