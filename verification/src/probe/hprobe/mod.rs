//! Host probes: self-introspection of the hypervisor's own text through
//! breakpoint injection and out-of-line single-stepping.

pub mod handler;
pub mod manager;
