//! Return-probe event tests: a synthetic return hit flows through the
//! pipeline with its return value as the first argument.

use axebpf::attach::AttachRegistry;
use axebpf::event::{EventPipeline, PROBE_HRETPROBE};
use axebpf::maps::MapStore;
use axebpf::platform::Platform;
use axebpf::probe::hprobe::handler::emit_hretprobe_event;
use axebpf::runtime::ProgramStore;

#[test]
fn hretprobe_event_reaches_consumer() {
    let mut pipeline = EventPipeline::new();
    let mut maps = MapStore::new();
    let attachments = AttachRegistry::new();
    let progs = ProgramStore::new();
    let platform = Platform::new();

    emit_hretprobe_event(&mut pipeline, &mut maps, &attachments, &progs, &platform, 0x1234,
        0x77);

    let events = pipeline.consume_events(&mut maps, 0);
    assert_eq!(events.len(), 1);
    assert_eq!(events[0].probe_type, PROBE_HRETPROBE);
    assert_eq!(events[0].event_id, 0x1234);
    assert_eq!(events[0].nr_args, 1);
    assert_eq!(events[0].args[0], 0x77);
}
