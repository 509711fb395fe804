//! Consistency checking of histories: linearizability, sequential and
//! causal consistency, custom invariants, and TLC integration.
pub mod result;
pub mod model;
pub mod precedence;
pub mod search;
pub mod linearizability;
pub mod sequential;
pub mod causal;
pub mod invariants;
pub mod tlaplus;

pub use result::{CheckResult, CheckStats, CheckStatus, Counterexample, CounterexampleOp, Violation, ViolationType};
pub use model::{ExpectedResult, Model, OperationExtractor, SimpleModel};
