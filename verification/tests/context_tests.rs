//! Trace context tests: construction, builders and serialisation.

use axebpf::context::TraceContext;
use axebpf::platform::Platform;
use axebpf::probe::ProbeType;

#[test]
fn context_builders_fill_fields() {
    let mut platform = Platform::new();
    platform.set_mock_time(4242);
    let ctx = TraceContext::new(&platform, 7).with_vm(2, 3).with_args(10, 20, 30, 40)
        .with_probe_type(4);
    assert_eq!(ctx.tracepoint_id, 7);
    assert_eq!(ctx.timestamp_ns, 4242);
    assert_eq!(ctx.vm_id, 2);
    assert_eq!(ctx.vcpu_id, 3);
    assert_eq!(ctx.arg0, 10);
    assert_eq!(ctx.arg3, 40);
    assert_eq!(ctx.probe_type, 4);
}

#[test]
fn context_serialises_to_sixty_four_bytes() {
    let platform = Platform::new();
    let ctx = TraceContext::new(&platform, 9).with_args(1, 2, 3, 4);
    let bytes = ctx.as_bytes();
    assert_eq!(bytes.len(), 64);
    assert_eq!(&bytes[0..4], &9u32.to_le_bytes());
    assert_eq!(&bytes[24..32], &1u64.to_le_bytes());
    assert_eq!(&bytes[48..56], &4u64.to_le_bytes());
}

#[test]
fn probe_type_classification() {
    assert!(ProbeType::Kprobe.is_guest_probe());
    assert!(ProbeType::Kretprobe.is_guest_probe());
    assert!(!ProbeType::Hprobe.is_guest_probe());
    assert!(ProbeType::Hretprobe.is_return_probe());
    assert!(ProbeType::Kretprobe.is_return_probe());
    assert!(!ProbeType::Tracepoint.is_return_probe());
    assert_eq!(ProbeType::Tracepoint.label(), "tracepoint");
    assert_eq!(ProbeType::Hprobe.label(), "hprobe");
}
