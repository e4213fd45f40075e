//! Histogram tests: bucket distribution, percentiles and reset.

use axebpf::tracepoints::histogram::{bucket_bound, LatencyHistogram, NUM_BUCKETS};

#[test]
fn test_histogram_new() {
    let hist = LatencyHistogram::new();
    let snapshot = hist.snapshot();
    assert_eq!(snapshot.total, 0);
    assert_eq!(snapshot.buckets, [0u64; 8]);
}

#[test]
fn test_bucket_bounds_count() {
    assert_eq!(NUM_BUCKETS, 8);
}

#[test]
fn test_bucket_bounds_order() {
    for i in 0..NUM_BUCKETS - 1 {
        assert!(bucket_bound(i) < bucket_bound(i + 1), "bucket bounds should be increasing");
    }
}

#[test]
fn test_record_sub_microsecond() {
    let mut hist = LatencyHistogram::new();
    hist.record(500);
    let snapshot = hist.snapshot();
    assert_eq!(snapshot.buckets[0], 1);
    assert_eq!(snapshot.total, 1);
}

#[test]
fn test_record_microsecond_range() {
    let mut hist = LatencyHistogram::new();
    hist.record(5_000);
    let snapshot = hist.snapshot();
    assert_eq!(snapshot.buckets[1], 1);
    assert_eq!(snapshot.total, 1);
}

#[test]
fn test_record_millisecond_range() {
    let mut hist = LatencyHistogram::new();
    hist.record(5_000_000);
    let snapshot = hist.snapshot();
    assert_eq!(snapshot.buckets[4], 1);
    assert_eq!(snapshot.total, 1);
}

#[test]
fn test_record_over_second() {
    let mut hist = LatencyHistogram::new();
    hist.record(2_000_000_000);
    let snapshot = hist.snapshot();
    assert_eq!(snapshot.buckets[7], 1);
    assert_eq!(snapshot.total, 1);
}

#[test]
fn test_record_multiple_samples() {
    let mut hist = LatencyHistogram::new();

    hist.record(500);
    hist.record(5_000);
    hist.record(50_000);
    hist.record(500_000);

    let snapshot = hist.snapshot();
    assert_eq!(snapshot.buckets[0], 1);
    assert_eq!(snapshot.buckets[1], 1);
    assert_eq!(snapshot.buckets[2], 1);
    assert_eq!(snapshot.buckets[3], 1);
    assert_eq!(snapshot.total, 4);
}

#[test]
fn test_record_same_bucket_multiple() {
    let mut hist = LatencyHistogram::new();

    for _ in 0..10 {
        hist.record(500);
    }

    let snapshot = hist.snapshot();
    assert_eq!(snapshot.buckets[0], 10);
    assert_eq!(snapshot.total, 10);
}

#[test]
fn test_percentile_empty_histogram() {
    let hist = LatencyHistogram::new();
    let snapshot = hist.snapshot();
    assert_eq!(snapshot.p50_ns, 0);
    assert_eq!(snapshot.p90_ns, 0);
    assert_eq!(snapshot.p99_ns, 0);
}

#[test]
fn test_percentile_single_bucket() {
    let mut hist = LatencyHistogram::new();

    for _ in 0..100 {
        hist.record(500);
    }

    let snapshot = hist.snapshot();
    assert_eq!(snapshot.p50_ns, bucket_bound(0));
    assert_eq!(snapshot.p90_ns, bucket_bound(0));
    assert_eq!(snapshot.p99_ns, bucket_bound(0));
}

#[test]
fn test_percentile_distributed() {
    let mut hist = LatencyHistogram::new();

    for _ in 0..50 {
        hist.record(500);
    }
    for _ in 0..50 {
        hist.record(5_000);
    }

    let snapshot = hist.snapshot();
    assert_eq!(snapshot.total, 100);
    assert_eq!(snapshot.p50_ns, bucket_bound(0));
    assert_eq!(snapshot.p90_ns, bucket_bound(1));
}

#[test]
fn test_histogram_reset() {
    let mut hist = LatencyHistogram::new();

    hist.record(500);
    hist.record(5_000);
    hist.record(50_000);

    let snapshot_before = hist.snapshot();
    assert_eq!(snapshot_before.total, 3);

    hist.reset();

    let snapshot_after = hist.snapshot();
    assert_eq!(snapshot_after.total, 0);
    assert_eq!(snapshot_after.buckets, [0u64; 8]);
}

#[test]
fn test_record_zero_duration() {
    let mut hist = LatencyHistogram::new();
    hist.record(0);
    let snapshot = hist.snapshot();
    assert_eq!(snapshot.buckets[0], 1);
    assert_eq!(snapshot.total, 1);
}

#[test]
fn test_record_max_u64() {
    let mut hist = LatencyHistogram::new();
    hist.record(u64::MAX);
    let snapshot = hist.snapshot();
    assert_eq!(snapshot.buckets[7], 1);
    assert_eq!(snapshot.total, 1);
}

#[test]
fn test_record_bucket_boundary() {
    let mut hist = LatencyHistogram::new();
    hist.record(1_000);
    let snapshot = hist.snapshot();
    assert_eq!(snapshot.buckets[1], 1);
}

#[test]
fn test_record_just_below_boundary() {
    let mut hist = LatencyHistogram::new();
    hist.record(999);
    let snapshot = hist.snapshot();
    assert_eq!(snapshot.buckets[0], 1);
}
