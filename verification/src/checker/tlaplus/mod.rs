//! TLA+ integration: TLC configuration, results and traces.
pub mod config;

pub use config::{ConstantValue, TlcConfig, TlcConfigBuilder, TlcWorkerConfig};
pub mod result;

pub use result::{CounterexampleState, CounterexampleTrace, CoverageInfo, ParsedTlcOutput, PropertyType, PropertyViolation, TlcError, TlcExitStatus, ValidationResult, ValidationStatus};
pub mod trace;

pub use trace::{TraceClock, TraceError, TraceFile, TraceMetadata, TraceStep, VectorClock};
pub mod tla_value;
pub mod runner;
pub mod binding;
