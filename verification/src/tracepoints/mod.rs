//! Tracepoint infrastructure: the static id and name registry, and the
//! built-in statistics kept for every instrumentation point.

pub mod histogram;
pub mod hypervisor_helpers;
pub mod registry;
pub mod shell;
pub mod stats;
