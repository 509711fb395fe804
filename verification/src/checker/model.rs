//! Sequential specifications (models) and the mapping from recorded
//! operations to model operations.
use vstd::prelude::*;
use crate::operation::Operation;

verus! {

/// Expected result of executing an operation on a model.
#[derive(Debug, Clone, PartialEq)]
pub enum ExpectedResult {
    /// Operation should succeed.
    Success,
    /// Operation should fail.
    Failure(String),
    /// Any result is acceptable.
    Any,
    /// Custom validation result.
    Custom(bool, String),
}

impl ExpectedResult {
    /// Success and Any indicate success.
    pub fn is_ok(&self) -> (r: bool)
        ensures
            r == (self is Success || self is Any),
    {
        match self {
            ExpectedResult::Success => true,
            ExpectedResult::Any => true,
            _ => false,
        }
    }

    /// Failure indicates an expected error.
    pub fn is_err(&self) -> (r: bool)
        ensures
            r == (self is Failure),
    {
        match self {
            ExpectedResult::Failure(_) => true,
            _ => false,
        }
    }
}

/// A sequential specification of a data structure, implemented by users.
/// Each executable method is tied to a spec function that states what it
/// computes.
pub trait Model {
    /// Operations the model executes.
    type Op;
    /// The model's state.
    type State;

    /// The initial state.
    spec fn init_spec(&self) -> Self::State;

    /// The state and expected result after executing `op` in `state`.
    spec fn step_spec(&self, state: Self::State, op: Self::Op) -> (Self::State, ExpectedResult);

    /// Whether `op` may be executed in `state`.
    spec fn can_execute_spec(&self, state: Self::State, op: Self::Op) -> bool;

    /// Creates the initial state.
    fn init(&self) -> (s: Self::State)
        ensures
            s == self.init_spec();

    /// Executes one operation.
    fn step(&self, state: &Self::State, op: &Self::Op) -> (r: (Self::State, ExpectedResult))
        ensures
            r == self.step_spec(*state, *op);

    /// Whether two states are equivalent (the search does not use it).
    fn equivalent(&self, s1: &Self::State, s2: &Self::State) -> bool;

    /// Whether `op` may be executed in `state` (used to prune the search).
    fn can_execute(&self, state: &Self::State, op: &Self::Op) -> (r: bool)
        ensures
            r == self.can_execute_spec(*state, *op);
}

/// A model whose states are compared with `==`; it is a `Model` that can
/// execute any operation in any state.
pub trait SimpleModel {
    /// Operations the model executes.
    type Op;
    /// The model's state.
    type State: PartialEq;

    /// The initial state.
    spec fn init_spec(&self) -> Self::State;

    /// The state and expected result after executing `op` in `state`.
    spec fn step_spec(&self, state: Self::State, op: Self::Op) -> (Self::State, ExpectedResult);

    /// Creates the initial state.
    fn init(&self) -> (s: Self::State)
        ensures
            s == self.init_spec();

    /// Executes one operation.
    fn step(&self, state: &Self::State, op: &Self::Op) -> (r: (Self::State, ExpectedResult))
        ensures
            r == self.step_spec(*state, *op);
}

impl<T: SimpleModel> Model for T {
    type Op = <T as SimpleModel>::Op;
    type State = <T as SimpleModel>::State;

    open spec fn init_spec(&self) -> <T as SimpleModel>::State {
        <T as SimpleModel>::init_spec(self)
    }

    open spec fn step_spec(&self, state: <T as SimpleModel>::State, op: <T as SimpleModel>::Op) -> (<T as SimpleModel>::State, ExpectedResult) {
        <T as SimpleModel>::step_spec(self, state, op)
    }

    open spec fn can_execute_spec(&self, state: <T as SimpleModel>::State, op: <T as SimpleModel>::Op) -> bool {
        true
    }

    fn init(&self) -> (s: <T as SimpleModel>::State) {
        <T as SimpleModel>::init(self)
    }

    fn step(&self, state: &<T as SimpleModel>::State, op: &<T as SimpleModel>::Op) -> (r: (<T as SimpleModel>::State, ExpectedResult)) {
        <T as SimpleModel>::step(self, state, op)
    }

    fn equivalent(&self, s1: &<T as SimpleModel>::State, s2: &<T as SimpleModel>::State) -> bool {
        s1 == s2
    }

    fn can_execute(&self, state: &<T as SimpleModel>::State, op: &<T as SimpleModel>::Op) -> (r: bool) {
        true
    }
}

/// Extracts model operations from recorded operations and validates
/// recorded results against the model's expectation; implemented by users.
pub trait OperationExtractor<V> {
    /// The model operation type.
    type ModelOp;

    /// The model operation of a recorded operation.
    spec fn extract_spec(&self, op: Operation<V>) -> Self::ModelOp;

    /// Whether the recorded operation agrees with the expected result.
    spec fn validate_spec(&self, op: Operation<V>, expected: ExpectedResult) -> bool;

    /// Extracts the model operation.
    fn extract(&self, op: &Operation<V>) -> (r: Self::ModelOp)
        ensures
            r == self.extract_spec(*op);

    /// Validates a recorded operation against the expected result.
    fn validate(&self, op: &Operation<V>, expected: &ExpectedResult) -> (r: bool)
        ensures
            r == self.validate_spec(*op, *expected);
}

} // verus!
