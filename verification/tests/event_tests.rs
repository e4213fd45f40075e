//! Event pipeline tests: record layout, name registration, statistics,
//! and end-to-end emission and consumption.

use axebpf::event::{EventPipeline, ProbeStats, TraceEvent};
use axebpf::attach::AttachRegistry;
use axebpf::maps::MapStore;
use axebpf::platform::Platform;
use axebpf::runtime::ProgramStore;

fn sample_event(event_id: u32, name_offset: u16, duration_ns: u64) -> TraceEvent {
    TraceEvent {
        timestamp_ns: 1_000_000,
        probe_type: 1,
        cpu_id: 0,
        vm_id: 0,
        event_id,
        name_offset,
        nr_args: 1,
        _pad: 0,
        args: [7, 0, 0, 0],
        duration_ns,
    }
}

#[test]
fn trace_event_layout_is_stable() {
    let platform = Platform::new();
    let ev = TraceEvent::new(&platform, 0, 1);
    assert_eq!(ev.as_bytes().len(), 64);
}

#[test]
fn name_registration_is_idempotent() {
    let mut pipeline = EventPipeline::new();
    let a = pipeline.register_event_name("tp:test");
    let b = pipeline.register_event_name("tp:test");
    assert_eq!(a, b);
    assert_eq!(pipeline.get_event_name(a).as_deref(), Some("tp:test"));
}

#[test]
fn stats_records_duration() {
    let mut stats = ProbeStats::new();
    stats.record(100, 0);
    stats.record(200, 400);
    let snap = stats.snapshot();
    assert_eq!(snap.count, 2);
    assert_eq!(snap.duration_samples, 1);
    assert_eq!(snap.duration_sum, 400);
    assert_eq!(snap.duration_avg, 400);
}

#[test]
fn event_serialisation_round_trips() {
    let ev = sample_event(42, 3, 400);
    let bytes = ev.as_bytes();
    assert_eq!(bytes.len(), 64);
    let back = TraceEvent::from_bytes(bytes.as_slice()).unwrap();
    assert_eq!(back, ev);
}

#[test]
fn short_record_does_not_parse() {
    let bytes = [0u8; 63];
    assert!(TraceEvent::from_bytes(&bytes).is_none());
}

#[test]
fn emit_then_consume_yields_record() {
    let mut pipeline = EventPipeline::new();
    let mut maps = MapStore::new();
    let attachments = AttachRegistry::new();
    let progs = ProgramStore::new();

    let off = pipeline.register_event_name("t");
    let ev = sample_event(42, off, 400);
    pipeline.emit_event(&mut maps, &attachments, &progs, &ev);

    let consumed = pipeline.consume_events(&mut maps, 0);
    assert_eq!(consumed.len(), 1);
    assert_eq!(consumed[0], ev);
}

#[test]
fn end_to_end_event_emission() {
    let mut pipeline = EventPipeline::new();
    let mut maps = MapStore::new();
    let attachments = AttachRegistry::new();
    let progs = ProgramStore::new();

    let o = pipeline.register_event_name("t");
    let ev = sample_event(42, o, 400);
    pipeline.emit_event(&mut maps, &attachments, &progs, &ev);

    let consumed = pipeline.consume_events(&mut maps, 0);
    assert_eq!(consumed.len(), 1);
    assert_eq!(consumed[0].event_id, 42);

    let stats = pipeline.all_stats();
    let entry = stats.iter().find(|(id, _)| *id == 42).unwrap();
    assert_eq!(entry.1.count, 1);
    assert_eq!(entry.1.duration_samples, 1);
    assert_eq!(entry.1.duration_min, 400);
    assert_eq!(entry.1.duration_max, 400);
    assert_eq!(entry.1.duration_sum, 400);
    assert_eq!(entry.1.duration_avg, 400);
}

#[test]
fn emission_flows_through_ring_buffer() {
    let mut pipeline = EventPipeline::new();
    let mut maps = MapStore::new();
    let attachments = AttachRegistry::new();
    let progs = ProgramStore::new();

    pipeline.init_ringbuf(&mut maps);
    assert!(pipeline.ringbuf_fd().is_some());

    let off = pipeline.register_event_name("rb:event");
    let ev = sample_event(9, off, 0);
    let pushed = pipeline.ringbuf_push(&mut maps, &ev);
    assert!(pushed);

    let consumed = pipeline.consume_events(&mut maps, 1);
    assert_eq!(consumed.len(), 1);
    assert_eq!(consumed[0], ev);
}

#[test]
fn name_table_resolves_offsets() {
    let mut pipeline = EventPipeline::new();
    let a = pipeline.register_event_name("first");
    let b = pipeline.register_event_name("second");
    assert_ne!(a, b);
    assert_eq!(pipeline.get_event_name(b).as_deref(), Some("second"));
    assert!(pipeline.get_event_name(100).is_none());
}

#[test]
fn event_name_for_id_uses_first_emission() {
    let mut pipeline = EventPipeline::new();
    let mut maps = MapStore::new();
    let attachments = AttachRegistry::new();
    let progs = ProgramStore::new();

    let a = pipeline.register_event_name("one");
    let b = pipeline.register_event_name("two");
    let ev1 = sample_event(5, a, 0);
    let ev2 = sample_event(5, b, 0);
    pipeline.emit_event(&mut maps, &attachments, &progs, &ev1);
    pipeline.emit_event(&mut maps, &attachments, &progs, &ev2);
    assert_eq!(pipeline.event_name_for_id(5).as_deref(), Some("one"));
}

#[test]
fn probe_type_names_cover_all_kinds() {
    let platform = Platform::new();
    let mut ev = TraceEvent::new(&platform, 0, 1);
    assert_eq!(ev.probe_type_str(), "tracepoint");
    ev.probe_type = 1;
    assert_eq!(ev.probe_type_str(), "hprobe");
    ev.probe_type = 2;
    assert_eq!(ev.probe_type_str(), "hretprobe");
    ev.probe_type = 3;
    assert_eq!(ev.probe_type_str(), "kprobe");
    ev.probe_type = 4;
    assert_eq!(ev.probe_type_str(), "kretprobe");
    ev.probe_type = 9;
    assert_eq!(ev.probe_type_str(), "unknown");
}
