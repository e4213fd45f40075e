//! Guest kernel probes: cross-privilege probing of guest-kernel text from
//! the host, by Stage-2 execute faults or breakpoint injection.

pub mod addr_translate;
pub mod handler;
pub mod manager;
