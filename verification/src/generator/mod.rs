//! Operation generation: the context generators see, the operations they
//! produce, replay of recorded histories, and the state of combinators.
pub mod error;
pub mod context;
pub mod generated;
pub mod replay;
pub mod combinators;

pub use error::GeneratorError;
pub use context::{ActiveFault, FaultType, GeneratorContext, HistorySummary};
pub use generated::{GeneratedOp, OperationMetadata};
pub use replay::{RecordedOp, ReplayGenerator, ReplayMode};
pub use combinators::{Filter, Take, WithTimeout};



