//! Mamut: a verified core for recording and checking histories of
//! distributed-system operations.
pub mod text;
pub mod text_order;
pub mod text_scan;
pub mod error;
pub mod named;
pub mod json;
pub mod clock;
pub mod node;
pub mod operation;
pub mod ovc;
pub mod checker;
pub mod history;
pub mod generator;
pub mod ffi;
pub mod handles;
