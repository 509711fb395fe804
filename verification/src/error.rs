//! Errors of operation execution.
use vstd::prelude::*;
use crate::operation::{OperationId, operation_id_text};
use crate::text::{decimal, push_decimal, push_str, empty_string, to_owned_string};

verus! {

/// Errors that can occur during operation execution.
#[derive(Debug, Clone, PartialEq, Eq)]
pub enum OperationError {
    /// The operation timed out.
    Timeout { op_id: OperationId, elapsed_ms: u64 },
    /// The operation was cancelled.
    Cancelled(OperationId),
    /// The operation failed with a retryable error.
    Retryable { op_id: OperationId, message: String },
    /// The operation failed with a non-retryable error.
    Failed { op_id: OperationId, message: String },
    /// Invalid operation state transition.
    InvalidStateTransition { op_id: OperationId, details: String },
    /// The operation arguments were invalid.
    InvalidArguments { op_id: OperationId, details: String },
}

/// The display text of an operation error.
pub open spec fn operation_error_text(e: OperationError) -> Seq<char> {
    match e {
        OperationError::Timeout { op_id, elapsed_ms } =>
            "operation "@ + operation_id_text(op_id) + " timed out after "@ + decimal(elapsed_ms as nat) + "ms"@,
        OperationError::Cancelled(op_id) => "operation "@ + operation_id_text(op_id) + " was cancelled"@,
        OperationError::Retryable { op_id, message } =>
            "retryable error in operation "@ + operation_id_text(op_id) + ": "@ + message@,
        OperationError::Failed { op_id, message } =>
            "operation "@ + operation_id_text(op_id) + " failed: "@ + message@,
        OperationError::InvalidStateTransition { op_id, details } =>
            "invalid state transition for operation "@ + operation_id_text(op_id) + ": "@ + details@,
        OperationError::InvalidArguments { op_id, details } =>
            "invalid arguments for operation "@ + operation_id_text(op_id) + ": "@ + details@,
    }
}

impl OperationError {
    /// A timeout error.
    pub fn timeout(op_id: OperationId, elapsed_ms: u64) -> (r: Self)
        ensures
            r == (OperationError::Timeout { op_id, elapsed_ms }),
    {
        OperationError::Timeout { op_id, elapsed_ms }
    }

    /// A retryable error.
    pub fn retryable(op_id: OperationId, message: &str) -> (r: Self)
        ensures
            r matches OperationError::Retryable { op_id: id, message: m } && id == op_id && m@ == message@,
    {
        OperationError::Retryable { op_id, message: to_owned_string(message) }
    }

    /// A non-retryable failure.
    pub fn failed(op_id: OperationId, message: &str) -> (r: Self)
        ensures
            r matches OperationError::Failed { op_id: id, message: m } && id == op_id && m@ == message@,
    {
        OperationError::Failed { op_id, message: to_owned_string(message) }
    }

    /// An invalid state transition error.
    pub fn invalid_state_transition(op_id: OperationId, details: &str) -> (r: Self)
        ensures
            r matches OperationError::InvalidStateTransition { op_id: id, details: d } && id == op_id && d@ == details@,
    {
        OperationError::InvalidStateTransition { op_id, details: to_owned_string(details) }
    }

    /// An invalid arguments error.
    pub fn invalid_arguments(op_id: OperationId, details: &str) -> (r: Self)
        ensures
            r matches OperationError::InvalidArguments { op_id: id, details: d } && id == op_id && d@ == details@,
    {
        OperationError::InvalidArguments { op_id, details: to_owned_string(details) }
    }

    /// Whether the error is retryable: a retryable error or a timeout.
    pub fn is_retryable(&self) -> (r: bool)
        ensures
            r == (self is Retryable || self is Timeout),
    {
        match self {
            OperationError::Retryable { .. } | OperationError::Timeout { .. } => true,
            _ => false,
        }
    }

    /// The display text.
    pub fn to_string(&self) -> (s: String)
        ensures
            s@ == operation_error_text(*self),
    {
        let mut s = empty_string();
        match self {
            OperationError::Timeout { op_id, elapsed_ms } => {
                push_str(&mut s, "operation ");
                op_id.push_text(&mut s);
                push_str(&mut s, " timed out after ");
                push_decimal(&mut s, *elapsed_ms as u128);
                push_str(&mut s, "ms");
            },
            OperationError::Cancelled(op_id) => {
                push_str(&mut s, "operation ");
                op_id.push_text(&mut s);
                push_str(&mut s, " was cancelled");
            },
            OperationError::Retryable { op_id, message } => {
                push_str(&mut s, "retryable error in operation ");
                op_id.push_text(&mut s);
                push_str(&mut s, ": ");
                push_str(&mut s, message.as_str());
            },
            OperationError::Failed { op_id, message } => {
                push_str(&mut s, "operation ");
                op_id.push_text(&mut s);
                push_str(&mut s, " failed: ");
                push_str(&mut s, message.as_str());
            },
            OperationError::InvalidStateTransition { op_id, details } => {
                push_str(&mut s, "invalid state transition for operation ");
                op_id.push_text(&mut s);
                push_str(&mut s, ": ");
                push_str(&mut s, details.as_str());
            },
            OperationError::InvalidArguments { op_id, details } => {
                push_str(&mut s, "invalid arguments for operation ");
                op_id.push_text(&mut s);
                push_str(&mut s, ": ");
                push_str(&mut s, details.as_str());
            },
        }
        s
    }
}

} // verus!
