//! Renders instrumentation events as single human-readable lines and
//! routes each line to standard output or standard error by severity.

pub mod digits;
pub mod layer;
pub mod level;
pub mod render;
pub mod visitor;

pub use layer::FmtLayer;
