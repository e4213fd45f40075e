//! Fixed logarithmic latency histogram with eight buckets bounded at
//! 1µs, 10µs, 100µs, 1ms, 10ms, 100ms, 1s and infinity.

use vstd::prelude::*;

verus! {

/// Number of buckets.
pub const NUM_BUCKETS: usize = 8;

/// The upper bound of one bucket in nanoseconds; the last bucket is
/// unbounded.
pub open spec fn spec_bucket_bound(i: int) -> u64 {
    if i == 0 {
        1_000
    } else if i == 1 {
        10_000
    } else if i == 2 {
        100_000
    } else if i == 3 {
        1_000_000
    } else if i == 4 {
        10_000_000
    } else if i == 5 {
        100_000_000
    } else if i == 6 {
        1_000_000_000
    } else {
        u64::MAX
    }
}

/// The upper bound of one bucket in nanoseconds.
pub fn bucket_bound(i: usize) -> (r: u64)
    ensures
        r == spec_bucket_bound(i as int),
{
    if i == 0 {
        1_000
    } else if i == 1 {
        10_000
    } else if i == 2 {
        100_000
    } else if i == 3 {
        1_000_000
    } else if i == 4 {
        10_000_000
    } else if i == 5 {
        100_000_000
    } else if i == 6 {
        1_000_000_000
    } else {
        u64::MAX
    }
}

/// The bucket a duration falls into: the first whose bound exceeds it.
pub open spec fn spec_find_bucket(duration_ns: u64) -> int {
    if duration_ns < 1_000 {
        0
    } else if duration_ns < 10_000 {
        1
    } else if duration_ns < 100_000 {
        2
    } else if duration_ns < 1_000_000 {
        3
    } else if duration_ns < 10_000_000 {
        4
    } else if duration_ns < 100_000_000 {
        5
    } else if duration_ns < 1_000_000_000 {
        6
    } else {
        7
    }
}

/// Latency histogram with eight logarithmic buckets.
pub struct LatencyHistogram {
    /// Sample count per bucket.
    pub buckets: [u64; 8],
}

/// Immutable snapshot of histogram data.
#[derive(Debug, Clone)]
pub struct HistogramSnapshot {
    /// Count in each bucket.
    pub buckets: [u64; 8],
    /// Total sample count, saturating.
    pub total: u64,
    /// Approximate 50th percentile in nanoseconds.
    pub p50_ns: u64,
    /// Approximate 90th percentile in nanoseconds.
    pub p90_ns: u64,
    /// Approximate 99th percentile in nanoseconds.
    pub p99_ns: u64,
}

/// Saturating total of all buckets.
pub open spec fn spec_total(buckets: Seq<u64>) -> u64
    decreases buckets.len(),
{
    if buckets.len() == 0 {
        0
    } else {
        let rest = spec_total(buckets.drop_last());
        if rest + buckets.last() <= u64::MAX {
            (rest + buckets.last()) as u64
        } else {
            u64::MAX
        }
    }
}

/// The bound of the first bucket whose cumulative count reaches the
/// `pct`-percent target, reading the distribution as a step function.
pub open spec fn spec_percentile(buckets: Seq<u64>, total: u64, pct: u64) -> u64 {
    if total == 0 {
        0
    } else {
        spec_percentile_from(buckets, (total as nat * pct as nat) / 100, 0)
    }
}

/// Walk of the cumulative counts, from bucket `i` on.
pub open spec fn spec_percentile_from(buckets: Seq<u64>, target: nat, i: int) -> u64
    decreases buckets.len() - i,
{
    if i < 0 || i >= buckets.len() {
        u64::MAX
    } else if buckets[i] >= target {
        spec_bucket_bound(i)
    } else {
        spec_percentile_from(buckets, (target - buckets[i]) as nat, i + 1)
    }
}

impl LatencyHistogram {
    /// A histogram with every bucket empty.
    pub fn new() -> (r: LatencyHistogram)
        ensures
            forall|i: int| 0 <= i < 8 ==> r.buckets@[i] == 0,
    {
        LatencyHistogram { buckets: [0, 0, 0, 0, 0, 0, 0, 0] }
    }

    /// Record one latency sample in its bucket, saturating the count.
    pub fn record(&mut self, duration_ns: u64)
        ensures
            ({
                let idx = spec_find_bucket(duration_ns);
                let c = old(self).buckets@[idx];
                final(self).buckets@ == old(self).buckets@.update(
                    idx,
                    if c < u64::MAX {
                        (c + 1) as u64
                    } else {
                        c
                    },
                )
            }),
    {
        let idx = self.find_bucket(duration_ns);
        let c = self.buckets[idx];
        if c < u64::MAX {
            self.buckets[idx] = c + 1;
        } else {
            proof {
                assert(final(self).buckets@ =~= old(self).buckets@.update(idx as int, c));
            }
        }
    }

    /// The bucket index for a duration.
    pub fn find_bucket(&self, duration_ns: u64) -> (r: usize)
        ensures
            r == spec_find_bucket(duration_ns),
            r < 8,
    {
        if duration_ns < 1_000 {
            0
        } else if duration_ns < 10_000 {
            1
        } else if duration_ns < 100_000 {
            2
        } else if duration_ns < 1_000_000 {
            3
        } else if duration_ns < 10_000_000 {
            4
        } else if duration_ns < 100_000_000 {
            5
        } else if duration_ns < 1_000_000_000 {
            6
        } else {
            7
        }
    }

    /// Snapshot the distribution with approximate percentiles.
    pub fn snapshot(&self) -> (r: HistogramSnapshot)
        ensures
            r.buckets@ == self.buckets@,
            r.total == spec_total(self.buckets@),
            r.p50_ns == spec_percentile(self.buckets@, spec_total(self.buckets@), 50),
            r.p90_ns == spec_percentile(self.buckets@, spec_total(self.buckets@), 90),
            r.p99_ns == spec_percentile(self.buckets@, spec_total(self.buckets@), 99),
    {
        let mut total: u64 = 0;
        let mut i: usize = 0;
        while i < 8
            invariant
                i <= 8,
                total == spec_total(self.buckets@.subrange(0, i as int)),
            decreases 8 - i,
        {
            proof {
                assert(self.buckets@.subrange(0, i as int + 1).drop_last() =~= self.buckets@
                    .subrange(0, i as int));
                assert(self.buckets@.subrange(0, i as int + 1).last() == self.buckets@[i as int]);
            }
            if total <= u64::MAX - self.buckets[i] {
                total = total + self.buckets[i];
            } else {
                total = u64::MAX;
            }
            i = i + 1;
        }
        proof {
            assert(self.buckets@.subrange(0, 8) =~= self.buckets@);
        }
        HistogramSnapshot {
            buckets: self.buckets,
            total,
            p50_ns: self.percentile(total, 50),
            p90_ns: self.percentile(total, 90),
            p99_ns: self.percentile(total, 99),
        }
    }

    /// Approximate percentile read from cumulative bucket counts.
    fn percentile(&self, total: u64, pct: u64) -> (r: u64)
        requires
            pct <= 100,
        ensures
            r == spec_percentile(self.buckets@, total, pct),
    {
        if total == 0 {
            return 0;
        }
        let t128: u128 = total as u128;
        let p128: u128 = pct as u128;
        proof {
            assert(t128 * p128 <= (u64::MAX as u128) * 100) by (nonlinear_arith)
                requires
                    t128 <= u64::MAX as u128,
                    p128 <= 100,
            ;
            assert((t128 * p128) / 100 <= u64::MAX as u128) by (nonlinear_arith)
                requires
                    t128 * p128 <= (u64::MAX as u128) * 100,
            ;
        }
        let target_wide: u128 = t128 * p128 / 100;
        let target: u64 = target_wide as u64;
        proof {
            assert(target as nat == (total as nat * pct as nat) / 100);
        }
        let mut remaining: u64 = target;
        let mut i: usize = 0;
        while i < 8
            invariant
                i <= 8,
                spec_percentile_from(self.buckets@, remaining as nat, i as int)
                    == spec_percentile_from(
                    self.buckets@,
                    (total as nat * pct as nat) / 100,
                    0,
                ),
            decreases 8 - i,
        {
            if self.buckets[i] >= remaining {
                proof {
                    assert(spec_percentile_from(self.buckets@, remaining as nat, i as int)
                        == spec_bucket_bound(i as int));
                }
                return bucket_bound(i);
            }
            remaining = remaining - self.buckets[i];
            i = i + 1;
        }
        u64::MAX
    }

    /// Reset every bucket to zero.
    pub fn reset(&mut self)
        ensures
            forall|i: int| 0 <= i < 8 ==> final(self).buckets@[i] == 0,
    {
        self.buckets = [0, 0, 0, 0, 0, 0, 0, 0];
    }
}

} // verus!
