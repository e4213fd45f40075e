//! Built-in per-tracepoint statistics: hit counter, duration extremes and
//! totals, and a latency histogram, kept under the tracepoint's name.

use vstd::prelude::*;

use crate::assoc::{assoc_view, find_key, key_contains, key_index_of, keys_unique,
    lemma_key_witness};
use crate::tracepoints::histogram::{spec_find_bucket, HistogramSnapshot, LatencyHistogram};

verus! {

/// Statistics for a single tracepoint.
pub struct TracepointStats {
    /// Number of times the tracepoint was triggered.
    pub count: u64,
    /// Total duration in nanoseconds, saturating.
    pub total_ns: u64,
    /// Minimum duration seen; `u64::MAX` until the first sample.
    pub min_ns: u64,
    /// Maximum duration seen.
    pub max_ns: u64,
    /// Timestamp of the last trigger.
    pub last_timestamp: u64,
    /// Latency distribution.
    pub histogram: LatencyHistogram,
}

/// Immutable snapshot of tracepoint statistics.
#[derive(Debug, Clone)]
pub struct StatsSnapshot {
    /// Number of triggers.
    pub count: u64,
    /// Total duration in nanoseconds.
    pub total_ns: u64,
    /// Minimum duration, or zero before the first sample.
    pub min_ns: u64,
    /// Maximum duration.
    pub max_ns: u64,
    /// Mean duration.
    pub avg_ns: u64,
}

impl TracepointStats {
    /// Fresh statistics: no hits, minimum still at its sentinel.
    pub fn new() -> (r: TracepointStats)
        ensures
            r.count == 0,
            r.total_ns == 0,
            r.min_ns == u64::MAX,
            r.max_ns == 0,
            r.last_timestamp == 0,
            forall|i: int| 0 <= i < 8 ==> r.histogram.buckets@[i] == 0,
    {
        TracepointStats {
            count: 0,
            total_ns: 0,
            min_ns: u64::MAX,
            max_ns: 0,
            last_timestamp: 0,
            histogram: LatencyHistogram::new(),
        }
    }

    /// Record a hit without a duration.
    pub fn record_hit(&mut self, timestamp: u64)
        ensures
            final(self).count == if old(self).count < u64::MAX {
                old(self).count + 1
            } else {
                u64::MAX as int
            },
            final(self).last_timestamp == timestamp,
            final(self).total_ns == old(self).total_ns,
            final(self).min_ns == old(self).min_ns,
            final(self).max_ns == old(self).max_ns,
            final(self).histogram == old(self).histogram,
    {
        if self.count < u64::MAX {
            self.count = self.count + 1;
        }
        self.last_timestamp = timestamp;
    }

    /// Record a hit with a duration: count, total, extremes and histogram.
    pub fn record_duration(&mut self, timestamp: u64, duration_ns: u64)
        ensures
            final(self).count == if old(self).count < u64::MAX {
                old(self).count + 1
            } else {
                u64::MAX as int
            },
            final(self).last_timestamp == timestamp,
            final(self).total_ns == if old(self).total_ns + duration_ns <= u64::MAX {
                old(self).total_ns + duration_ns
            } else {
                u64::MAX as int
            },
            final(self).min_ns == if duration_ns < old(self).min_ns {
                duration_ns
            } else {
                old(self).min_ns
            },
            final(self).max_ns == if duration_ns > old(self).max_ns {
                duration_ns
            } else {
                old(self).max_ns
            },
            ({
                let idx = spec_find_bucket(duration_ns);
                let c = old(self).histogram.buckets@[idx];
                final(self).histogram.buckets@ == old(self).histogram.buckets@.update(
                    idx,
                    if c < u64::MAX {
                        (c + 1) as u64
                    } else {
                        c
                    },
                )
            }),
    {
        if self.count < u64::MAX {
            self.count = self.count + 1;
        }
        if self.total_ns <= u64::MAX - duration_ns {
            self.total_ns = self.total_ns + duration_ns;
        } else {
            self.total_ns = u64::MAX;
        }
        self.last_timestamp = timestamp;
        if duration_ns < self.min_ns {
            self.min_ns = duration_ns;
        }
        if duration_ns > self.max_ns {
            self.max_ns = duration_ns;
        }
        self.histogram.record(duration_ns);
    }

    /// A snapshot of the current counters.
    pub fn snapshot(&self) -> (r: StatsSnapshot)
        ensures
            r.count == self.count,
            r.total_ns == self.total_ns,
            r.min_ns == if self.min_ns == u64::MAX {
                0
            } else {
                self.min_ns as int
            },
            r.max_ns == self.max_ns,
            r.avg_ns == if self.count > 0 {
                self.total_ns as int / self.count as int
            } else {
                0
            },
    {
        StatsSnapshot {
            count: self.count,
            total_ns: self.total_ns,
            min_ns: if self.min_ns == u64::MAX {
                0
            } else {
                self.min_ns
            },
            max_ns: self.max_ns,
            avg_ns: if self.count > 0 {
                self.total_ns / self.count
            } else {
                0
            },
        }
    }

    /// A snapshot of the latency distribution.
    pub fn histogram_snapshot(&self) -> (r: HistogramSnapshot)
        ensures
            r.buckets@ == self.histogram.buckets@,
    {
        self.histogram.snapshot()
    }

    /// Reset every counter.
    pub fn reset(&mut self)
        ensures
            final(self).count == 0,
            final(self).total_ns == 0,
            final(self).min_ns == u64::MAX,
            final(self).max_ns == 0,
            final(self).last_timestamp == 0,
            forall|i: int| 0 <= i < 8 ==> final(self).histogram.buckets@[i] == 0,
    {
        self.count = 0;
        self.total_ns = 0;
        self.min_ns = u64::MAX;
        self.max_ns = 0;
        self.last_timestamp = 0;
        self.histogram.reset();
    }
}

/// Statistics for every known tracepoint, keyed by its full name.
pub struct StatsManager {
    /// One statistics record per tracepoint name.
    pub stats: Vec<(String, TracepointStats)>,
}

impl StatsManager {
    /// Names are pairwise distinct.
    pub open spec fn wf(&self) -> bool {
        keys_unique(assoc_view(self.stats@))
    }

    /// Whether statistics are kept under a name.
    pub open spec fn knows(&self, name: Seq<char>) -> bool {
        key_contains(assoc_view(self.stats@), name)
    }

    /// The index of a known name.
    pub open spec fn index_of(&self, name: Seq<char>) -> int {
        key_index_of(assoc_view(self.stats@), name)
    }

    /// A manager pre-seeded with every VMM and shell tracepoint name.
    pub fn new() -> (r: StatsManager)
        ensures
            r.wf(),
    {
        let mut m = StatsManager { stats: Vec::new() };
        proof {
            assert(keys_unique(assoc_view(m.stats@)));
        }
        m.seed("vmm:vm_create");
        m.seed("vmm:vm_boot");
        m.seed("vmm:vm_shutdown");
        m.seed("vmm:vm_destroy");
        m.seed("vmm:vcpu_create");
        m.seed("vmm:vcpu_destroy");
        m.seed("vmm:vcpu_state_change");
        m.seed("vmm:vcpu_run_enter");
        m.seed("vmm:vcpu_run_exit");
        m.seed("vmm:hypercall");
        m.seed("vmm:external_interrupt");
        m.seed("vmm:vcpu_halt");
        m.seed("vmm:cpu_up");
        m.seed("vmm:ipi_send");
        m.seed("vmm:memory_map");
        m.seed("vmm:memory_unmap");
        m.seed("vmm:page_fault");
        m.seed("vmm:device_access");
        m.seed("vmm:irq_inject");
        m.seed("vmm:irq_handle");
        m.seed("vmm:vmm_init");
        m.seed("vmm:vhal_init");
        m.seed("vmm:config_load");
        m.seed("vmm:image_load");
        m.seed("shell:command");
        m.seed("shell:init");
        m.seed("vmm:timer_tick");
        m.seed("vmm:timer_event");
        m.seed("vmm:task_switch");
        m
    }

    /// Add a fresh record under a name unless one already exists.
    pub fn seed(&mut self, name: &str)
        requires
            old(self).wf(),
        ensures
            final(self).wf(),
            final(self).knows(name@),
            old(self).knows(name@) ==> final(self).stats@ == old(self).stats@,
    {
        match find_key(&self.stats, name) {
            Some(i) => {
                proof {
                    assert(assoc_view(self.stats@)[i as int].0 == name@);
                    assert(self.knows(name@));
                }
            },
            None => {
                let ghost av0 = assoc_view(self.stats@);
                self.stats.push((name.to_owned(), TracepointStats::new()));
                proof {
                    let av = assoc_view(self.stats@);
                    assert(av.len() == av0.len() + 1);
                    assert(forall|j: int| 0 <= j < av0.len() ==> av[j] == av0[j]);
                    assert(av[av0.len() as int].0 == name@);
                    assert(keys_unique(av));
                }
            },
        }
    }

    /// The statistics kept under a name.
    pub fn get(&self, name: &str) -> (r: Option<&TracepointStats>)
        requires
            self.wf(),
        ensures
            match r {
                Some(s) => self.knows(name@) && *s == self.stats@[self.index_of(name@)].1,
                None => !self.knows(name@),
            },
    {
        match find_key(&self.stats, name) {
            Some(i) => {
                proof {
                    lemma_key_witness(assoc_view(self.stats@), name@, i as int);
                }
                Some(&self.stats[i].1)
            },
            None => None,
        }
    }

    /// Record a hit for a tracepoint; an unknown name is ignored.
    pub fn record_hit(&mut self, name: &str, timestamp: u64)
        requires
            old(self).wf(),
        ensures
            final(self).wf(),
            !old(self).knows(name@) ==> final(self).stats@ == old(self).stats@,
            old(self).knows(name@) ==> {
                let i = old(self).index_of(name@);
                &&& final(self).stats@.len() == old(self).stats@.len()
                &&& final(self).stats@[i].1.count == if old(self).stats@[i].1.count < u64::MAX {
                    old(self).stats@[i].1.count + 1
                } else {
                    u64::MAX as int
                }
                &&& final(self).stats@[i].1.last_timestamp == timestamp
                &&& forall|j: int|
                    0 <= j < final(self).stats@.len() && j != i ==> final(self).stats@[j]
                        == old(self).stats@[j]
            },
    {
        match find_key(&self.stats, name) {
            Some(i) => {
                proof {
                    lemma_key_witness(assoc_view(self.stats@), name@, i as int);
                }
                let pair = &mut self.stats[i];
                pair.1.record_hit(timestamp);
                proof {
                    let av0 = assoc_view(old(self).stats@);
                    let av = assoc_view(self.stats@);
                    assert(forall|j: int| 0 <= j < av.len() ==> av[j].0 == av0[j].0);
                    assert(keys_unique(av));
                }
            },
            None => {},
        }
    }

    /// Record a duration for a tracepoint; an unknown name is ignored.
    pub fn record_duration(&mut self, name: &str, timestamp: u64, duration_ns: u64)
        requires
            old(self).wf(),
        ensures
            final(self).wf(),
            !old(self).knows(name@) ==> final(self).stats@ == old(self).stats@,
            old(self).knows(name@) ==> {
                let i = old(self).index_of(name@);
                &&& final(self).stats@.len() == old(self).stats@.len()
                &&& final(self).stats@[i].1.count == if old(self).stats@[i].1.count < u64::MAX {
                    old(self).stats@[i].1.count + 1
                } else {
                    u64::MAX as int
                }
                &&& final(self).stats@[i].1.max_ns == if duration_ns > old(
                    self,
                ).stats@[i].1.max_ns {
                    duration_ns
                } else {
                    old(self).stats@[i].1.max_ns
                }
                &&& final(self).stats@[i].1.min_ns == if duration_ns < old(
                    self,
                ).stats@[i].1.min_ns {
                    duration_ns
                } else {
                    old(self).stats@[i].1.min_ns
                }
                &&& forall|j: int|
                    0 <= j < final(self).stats@.len() && j != i ==> final(self).stats@[j]
                        == old(self).stats@[j]
            },
    {
        match find_key(&self.stats, name) {
            Some(i) => {
                proof {
                    lemma_key_witness(assoc_view(self.stats@), name@, i as int);
                }
                let pair = &mut self.stats[i];
                pair.1.record_duration(timestamp, duration_ns);
                proof {
                    let av0 = assoc_view(old(self).stats@);
                    let av = assoc_view(self.stats@);
                    assert(forall|j: int| 0 <= j < av.len() ==> av[j].0 == av0[j].0);
                    assert(keys_unique(av));
                }
            },
            None => {},
        }
    }

    /// Snapshots of every tracepoint's statistics, in roster order.
    pub fn all_snapshots(&self) -> (r: Vec<(String, StatsSnapshot)>)
        ensures
            r@.len() == self.stats@.len(),
            forall|i: int|
                0 <= i < r@.len() ==> (#[trigger] r@[i]).0@ == self.stats@[i].0@ && r@[i].1.count
                    == self.stats@[i].1.count,
    {
        let mut out: Vec<(String, StatsSnapshot)> = Vec::new();
        let mut i: usize = 0;
        while i < self.stats.len()
            invariant
                i <= self.stats@.len(),
                out@.len() == i,
                forall|j: int|
                    0 <= j < i ==> (#[trigger] out@[j]).0@ == self.stats@[j].0@ && out@[j].1.count
                        == self.stats@[j].1.count,
            decreases self.stats@.len() - i,
        {
            let name: String = self.stats[i].0.clone();
            out.push((name, self.stats[i].1.snapshot()));
            i = i + 1;
        }
        out
    }

    /// Reset every tracepoint's statistics.
    pub fn reset_all(&mut self)
        requires
            old(self).wf(),
        ensures
            final(self).wf(),
            final(self).stats@.len() == old(self).stats@.len(),
            forall|i: int|
                0 <= i < final(self).stats@.len() ==> (#[trigger] final(self).stats@[i]).0@
                    == old(self).stats@[i].0@ && final(self).stats@[i].1.count == 0,
    {
        let ghost olds = self.stats@;
        let mut i: usize = 0;
        while i < self.stats.len()
            invariant
                i <= self.stats@.len(),
                self.stats@.len() == olds.len(),
                forall|j: int|
                    0 <= j < self.stats@.len() ==> (#[trigger] self.stats@[j]).0@ == olds[j].0@,
                forall|j: int| 0 <= j < i ==> (#[trigger] self.stats@[j]).1.count == 0,
                keys_unique(assoc_view(self.stats@)),
            decreases self.stats@.len() - i,
        {
            let ghost avb = assoc_view(self.stats@);
            let pair = &mut self.stats[i];
            pair.1.reset();
            proof {
                let av = assoc_view(self.stats@);
                assert(forall|j: int| 0 <= j < av.len() ==> av[j].0 == avb[j].0);
                assert(keys_unique(av));
            }
            i = i + 1;
        }
    }
}

} // verus!
