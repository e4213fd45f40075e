//! Statistics tests: per-tracepoint counters and the roster-wide manager.

use axebpf::platform::Platform;
use axebpf::tracepoints::shell::{trace_shell_command, trace_shell_init};
use axebpf::tracepoints::stats::{StatsManager, TracepointStats};

#[test]
fn test_stats_new() {
    let stats = TracepointStats::new();
    let snapshot = stats.snapshot();
    assert_eq!(snapshot.count, 0);
    assert_eq!(snapshot.total_ns, 0);
    assert_eq!(snapshot.min_ns, 0);
    assert_eq!(snapshot.max_ns, 0);
    assert_eq!(snapshot.avg_ns, 0);
}

#[test]
fn test_record_hit() {
    let mut stats = TracepointStats::new();
    stats.record_hit(1000);

    let snapshot = stats.snapshot();
    assert_eq!(snapshot.count, 1);
    assert_eq!(snapshot.total_ns, 0);
}

#[test]
fn test_record_hit_multiple() {
    let mut stats = TracepointStats::new();

    for i in 0..10 {
        stats.record_hit(i * 1000);
    }

    let snapshot = stats.snapshot();
    assert_eq!(snapshot.count, 10);
}

#[test]
fn test_record_duration() {
    let mut stats = TracepointStats::new();
    stats.record_duration(1000, 500);

    let snapshot = stats.snapshot();
    assert_eq!(snapshot.count, 1);
    assert_eq!(snapshot.total_ns, 500);
    assert_eq!(snapshot.min_ns, 500);
    assert_eq!(snapshot.max_ns, 500);
    assert_eq!(snapshot.avg_ns, 500);
}

#[test]
fn test_record_duration_multiple() {
    let mut stats = TracepointStats::new();

    stats.record_duration(1000, 100);
    stats.record_duration(2000, 200);
    stats.record_duration(3000, 300);

    let snapshot = stats.snapshot();
    assert_eq!(snapshot.count, 3);
    assert_eq!(snapshot.total_ns, 600);
    assert_eq!(snapshot.min_ns, 100);
    assert_eq!(snapshot.max_ns, 300);
    assert_eq!(snapshot.avg_ns, 200);
}

#[test]
fn test_record_duration_min_max_update() {
    let mut stats = TracepointStats::new();

    stats.record_duration(1000, 500);
    stats.record_duration(2000, 100);
    stats.record_duration(3000, 900);

    let snapshot = stats.snapshot();
    assert_eq!(snapshot.min_ns, 100);
    assert_eq!(snapshot.max_ns, 900);
}

#[test]
fn test_histogram_snapshot() {
    let mut stats = TracepointStats::new();

    stats.record_duration(1000, 500);
    stats.record_duration(2000, 5_000);

    let hist_snapshot = stats.histogram_snapshot();
    assert_eq!(hist_snapshot.total, 2);
}

#[test]
fn test_stats_reset() {
    let mut stats = TracepointStats::new();

    stats.record_duration(1000, 500);
    stats.record_duration(2000, 1000);

    let before = stats.snapshot();
    assert_eq!(before.count, 2);

    stats.reset();

    let after = stats.snapshot();
    assert_eq!(after.count, 0);
    assert_eq!(after.total_ns, 0);
    assert_eq!(after.min_ns, 0);
    assert_eq!(after.max_ns, 0);
}

#[test]
fn test_stats_manager_new() {
    let manager = StatsManager::new();
    let snapshots = manager.all_snapshots();
    assert!(!snapshots.is_empty());
}

#[test]
fn test_stats_manager_get_known_tracepoint() {
    let manager = StatsManager::new();

    let vm_create = manager.get("vmm:vm_create");
    assert!(vm_create.is_some());

    let vcpu_run = manager.get("vmm:vcpu_run_enter");
    assert!(vcpu_run.is_some());
}

#[test]
fn test_stats_manager_get_unknown_tracepoint() {
    let manager = StatsManager::new();

    let unknown = manager.get("unknown:tracepoint");
    assert!(unknown.is_none());
}

#[test]
fn test_stats_manager_all_snapshots() {
    let manager = StatsManager::new();
    let snapshots = manager.all_snapshots();

    let has_vm_create = snapshots.iter().any(|(name, _)| name == "vmm:vm_create");
    let has_vcpu_run = snapshots.iter().any(|(name, _)| name == "vmm:vcpu_run_enter");

    assert!(has_vm_create);
    assert!(has_vcpu_run);
}

#[test]
fn test_stats_manager_reset_all() {
    let mut manager = StatsManager::new();

    manager.record_hit("vmm:vm_create", 1000);
    manager.record_hit("vmm:vm_create", 2000);

    manager.reset_all();

    let stats = manager.get("vmm:vm_create").unwrap();
    let snapshot = stats.snapshot();
    assert_eq!(snapshot.count, 0);
}

#[test]
fn test_stats_snapshot_clone() {
    let mut stats = TracepointStats::new();
    stats.record_duration(1000, 500);

    let snapshot1 = stats.snapshot();
    let snapshot2 = snapshot1.clone();

    assert_eq!(snapshot1.count, snapshot2.count);
    assert_eq!(snapshot1.total_ns, snapshot2.total_ns);
}

#[test]
fn test_avg_with_zero_count() {
    let stats = TracepointStats::new();
    let snapshot = stats.snapshot();
    assert_eq!(snapshot.avg_ns, 0);
}

#[test]
fn manager_records_durations_by_name() {
    let mut manager = StatsManager::new();
    manager.record_duration("vmm:vcpu_run_exit", 1000, 250);
    manager.record_duration("vmm:vcpu_run_exit", 2000, 750);
    let stats = manager.get("vmm:vcpu_run_exit").unwrap();
    let snap = stats.snapshot();
    assert_eq!(snap.count, 2);
    assert_eq!(snap.min_ns, 250);
    assert_eq!(snap.max_ns, 750);
    assert_eq!(snap.avg_ns, 500);
}

#[test]
fn shell_triggers_record_durations() {
    let mut manager = StatsManager::new();
    let platform = Platform::new();
    trace_shell_command(&mut manager, &platform, 1, 900);
    trace_shell_init(&mut manager, &platform, 300);

    assert_eq!(manager.get("shell:command").unwrap().snapshot().max_ns, 900);
    assert_eq!(manager.get("shell:init").unwrap().snapshot().max_ns, 300);
}
