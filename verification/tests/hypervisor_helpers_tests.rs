//! Hypervisor helper tests: the per-run VM context and its helpers.

use axebpf::tracepoints::hypervisor_helpers::{
    get_hypervisor_helper, HypervisorContext, HypervisorHelperKind, GET_CURRENT_VCPU_ID,
    GET_CURRENT_VM_ID, GET_EXIT_REASON,
};

#[test]
fn context_set_and_clear() {
    let mut ctx = HypervisorContext::new();
    ctx.set_current_context(3, 1, 0x16);
    assert_eq!(ctx.read(HypervisorHelperKind::CurrentVmId), 3);
    assert_eq!(ctx.read(HypervisorHelperKind::CurrentVcpuId), 1);
    assert_eq!(ctx.read(HypervisorHelperKind::ExitReason), 0x16);
    ctx.clear_current_context();
    assert_eq!(ctx.read(HypervisorHelperKind::CurrentVmId), 0);
    assert_eq!(ctx.read(HypervisorHelperKind::ExitReason), 0);
}

#[test]
fn hypervisor_helper_numbers_dispatch() {
    assert_eq!(get_hypervisor_helper(GET_CURRENT_VM_ID), Some(HypervisorHelperKind::CurrentVmId));
    assert_eq!(
        get_hypervisor_helper(GET_CURRENT_VCPU_ID),
        Some(HypervisorHelperKind::CurrentVcpuId)
    );
    assert_eq!(get_hypervisor_helper(GET_EXIT_REASON), Some(HypervisorHelperKind::ExitReason));
    assert_eq!(get_hypervisor_helper(99), None);
}
