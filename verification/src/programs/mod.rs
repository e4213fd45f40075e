//! Pre-compiled program management.

pub mod registry;
