//! Platform state: monotonic time, current CPU id, and current VM context.
//!
//! The hardware clock and CPU register are outside this library; callers (or
//! tests) set the fields through the mock setters and the rest of the crate
//! reads them through `time_ns` / `cpu_id`.

use vstd::prelude::*;

verus! {

/// Monotonic time and CPU identity as plain state.
pub struct Platform {
    /// Current monotonic time in nanoseconds.
    pub mock_time_ns: u64,
    /// Current CPU id.
    pub mock_cpu_id: u32,
}

impl Platform {
    /// A platform whose clock starts at one second, matching the initial
    /// mock state the subsystem boots with.
    pub fn new() -> (r: Platform)
        ensures
            r.mock_time_ns == 1_000_000_000u64,
            r.mock_cpu_id == 0u32,
    {
        Platform { mock_time_ns: 1_000_000_000, mock_cpu_id: 0 }
    }

    /// Get current monotonic time in nanoseconds.
    pub fn time_ns(&self) -> (r: u64)
        ensures
            r == self.mock_time_ns,
    {
        self.mock_time_ns
    }

    /// Get current CPU id.
    pub fn cpu_id(&self) -> (r: u32)
        ensures
            r == self.mock_cpu_id,
    {
        self.mock_cpu_id
    }

    /// Set the clock to an absolute value.
    pub fn set_mock_time(&mut self, ns: u64)
        ensures
            final(self).mock_time_ns == ns,
            final(self).mock_cpu_id == old(self).mock_cpu_id,
    {
        self.mock_time_ns = ns;
    }

    /// Advance the clock by the given number of nanoseconds, saturating at
    /// the largest representable instant.
    pub fn advance_mock_time(&mut self, ns: u64)
        ensures
            final(self).mock_time_ns == if old(self).mock_time_ns + ns <= u64::MAX {
                old(self).mock_time_ns + ns
            } else {
                u64::MAX as int
            },
            final(self).mock_cpu_id == old(self).mock_cpu_id,
    {
        self.mock_time_ns = self.mock_time_ns.saturating_add(ns);
    }

    /// Set the CPU id.
    pub fn set_mock_cpu_id(&mut self, id: u32)
        ensures
            final(self).mock_cpu_id == id,
            final(self).mock_time_ns == old(self).mock_time_ns,
    {
        self.mock_cpu_id = id;
    }

    /// Current VM id; zero while in host context.
    pub fn current_vm_id(&self) -> (r: u32)
        ensures
            r == 0u32,
    {
        0
    }

    /// Current vCPU id; zero while not in vCPU context.
    pub fn current_vcpu_id(&self) -> (r: u32)
        ensures
            r == 0u32,
    {
        0
    }
}

} // verus!
