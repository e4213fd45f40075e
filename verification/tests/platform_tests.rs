//! Platform state tests: the mock clock and CPU id.

use axebpf::platform::Platform;

#[test]
fn test_mock_time() {
    let mut platform = Platform::new();
    platform.set_mock_time(5000);
    assert_eq!(platform.time_ns(), 5000);

    platform.advance_mock_time(1000);
    assert_eq!(platform.time_ns(), 6000);
}

#[test]
fn test_mock_cpu_id() {
    let mut platform = Platform::new();
    platform.set_mock_cpu_id(3);
    assert_eq!(platform.cpu_id(), 3);

    platform.set_mock_cpu_id(7);
    assert_eq!(platform.cpu_id(), 7);
}

#[test]
fn host_context_has_zero_vm_ids() {
    let platform = Platform::new();
    assert_eq!(platform.current_vm_id(), 0);
    assert_eq!(platform.current_vcpu_id(), 0);
}
