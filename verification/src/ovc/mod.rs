//! The Omniscient Verification Clock: controller time, observed time,
//! vector clocks and time-fault context.
pub mod controller_time;

pub use controller_time::ControllerTime;
pub mod observed_time;
pub use observed_time::{NodeId, ObservedTime};
pub mod vector_clock;
pub use vector_clock::VectorClock;
pub mod clock_order;
pub mod fault_context;
pub use fault_context::{FaultSeverity, TimeFaultContext, TimeFaultType};
pub mod compact;
pub use compact::{CompactVectorClock, OVCBatch, OVCCompact};
pub mod bounds;
pub use bounds::TimeBounds;
