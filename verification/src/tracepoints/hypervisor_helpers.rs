//! Hypervisor-specific helpers: the per-CPU VM context set before a
//! program runs, and the numbered helpers that read it.

use vstd::prelude::*;

verus! {

/// Helper number: current VM id.
pub const GET_CURRENT_VM_ID: u32 = 100;

/// Helper number: current vCPU id.
pub const GET_CURRENT_VCPU_ID: u32 = 101;

/// Helper number: current exit reason.
pub const GET_EXIT_REASON: u32 = 102;

/// The hypervisor helper a number dispatches to.
#[derive(Debug, Clone, Copy, PartialEq, Eq, Structural)]
pub enum HypervisorHelperKind {
    /// Current VM id.
    CurrentVmId,
    /// Current vCPU id.
    CurrentVcpuId,
    /// Current exit reason.
    ExitReason,
}

/// The VM context current while a program runs.
pub struct HypervisorContext {
    /// Current VM id.
    pub vm_id: u32,
    /// Current vCPU id.
    pub vcpu_id: u32,
    /// Current exit reason.
    pub exit_reason: u64,
}

impl HypervisorContext {
    /// The cleared context: host, no vCPU, no exit.
    pub fn new() -> (r: HypervisorContext)
        ensures
            r.vm_id == 0,
            r.vcpu_id == 0,
            r.exit_reason == 0,
    {
        HypervisorContext { vm_id: 0, vcpu_id: 0, exit_reason: 0 }
    }

    /// Set the context before a program runs.
    pub fn set_current_context(&mut self, vm_id: u32, vcpu_id: u32, exit_reason: u64)
        ensures
            final(self).vm_id == vm_id,
            final(self).vcpu_id == vcpu_id,
            final(self).exit_reason == exit_reason,
    {
        self.vm_id = vm_id;
        self.vcpu_id = vcpu_id;
        self.exit_reason = exit_reason;
    }

    /// Clear the context after a program ran.
    pub fn clear_current_context(&mut self)
        ensures
            final(self).vm_id == 0,
            final(self).vcpu_id == 0,
            final(self).exit_reason == 0,
    {
        self.vm_id = 0;
        self.vcpu_id = 0;
        self.exit_reason = 0;
    }

    /// Evaluate one hypervisor helper against the current context.
    pub fn read(&self, kind: HypervisorHelperKind) -> (r: u64)
        ensures
            kind is CurrentVmId ==> r == self.vm_id as u64,
            kind is CurrentVcpuId ==> r == self.vcpu_id as u64,
            kind is ExitReason ==> r == self.exit_reason,
    {
        match kind {
            HypervisorHelperKind::CurrentVmId => self.vm_id as u64,
            HypervisorHelperKind::CurrentVcpuId => self.vcpu_id as u64,
            HypervisorHelperKind::ExitReason => self.exit_reason,
        }
    }
}

/// The hypervisor helper registered under a number, if any.
pub fn get_hypervisor_helper(id: u32) -> (r: Option<HypervisorHelperKind>)
    ensures
        id == 100 ==> r == Some(HypervisorHelperKind::CurrentVmId),
        id == 101 ==> r == Some(HypervisorHelperKind::CurrentVcpuId),
        id == 102 ==> r == Some(HypervisorHelperKind::ExitReason),
        !(id == 100 || id == 101 || id == 102) ==> r is None,
{
    if id == 100 {
        Some(HypervisorHelperKind::CurrentVmId)
    } else if id == 101 {
        Some(HypervisorHelperKind::CurrentVcpuId)
    } else if id == 102 {
        Some(HypervisorHelperKind::ExitReason)
    } else {
        None
    }
}

} // verus!
