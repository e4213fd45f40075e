//! Unified trace event pipeline: the fixed 64-byte event record, the
//! process-wide event name table, the ring-buffer push with its bounded
//! fallback queue, and per-event built-in statistics.

use vstd::prelude::*;

use crate::attach::AttachRegistry;
use crate::bytes::{le_bytes_of, le_bytes_to_nat, lemma_le_roundtrip, pow256, push_le, read_le};
use crate::maps::{self, MapDef, MapStore, MapType};
use crate::platform::Platform;
use crate::runtime::ProgramStore;
use crate::tracepoints::histogram::{spec_find_bucket, HistogramSnapshot, LatencyHistogram};

verus! {

/// Probe kind tag: static tracepoint.
pub const PROBE_TRACEPOINT: u8 = 0;

/// Probe kind tag: host probe at function entry.
pub const PROBE_HPROBE: u8 = 1;

/// Probe kind tag: host probe at function return.
pub const PROBE_HRETPROBE: u8 = 2;

/// Probe kind tag: guest probe at function entry.
pub const PROBE_KPROBE: u8 = 3;

/// Probe kind tag: guest probe at function return.
pub const PROBE_KRETPROBE: u8 = 4;

/// Byte capacity of the default trace ring buffer.
pub const DEFAULT_RINGBUF_SIZE: u32 = 65536;

/// Capacity of the fallback queue in records.
pub const FALLBACK_QUEUE_CAPACITY: usize = 8192;

/// Offset returned once the name table is full.
pub const NAME_OFFSET_SENTINEL: u16 = 65535;

/// Unified trace event record with a fixed 64-byte wire format.
#[derive(Debug, Clone, Copy, PartialEq)]
pub struct TraceEvent {
    /// Monotonic timestamp in nanoseconds.
    pub timestamp_ns: u64,
    /// Probe kind (`PROBE_TRACEPOINT`, `PROBE_HPROBE`, ...).
    pub probe_type: u8,
    /// Physical CPU id.
    pub cpu_id: u8,
    /// VM id; zero for host context.
    pub vm_id: u16,
    /// Event identifier.
    pub event_id: u32,
    /// Index into the event name table.
    pub name_offset: u16,
    /// Number of valid argument slots.
    pub nr_args: u8,
    /// Reserved byte kept for layout stability.
    pub _pad: u8,
    /// Generic argument slots.
    pub args: [u64; 4],
    /// Optional duration in nanoseconds; zero when absent.
    pub duration_ns: u64,
}

/// The 64-byte wire encoding of an event record.
pub open spec fn event_bytes(e: TraceEvent) -> Seq<u8> {
    le_bytes_of(e.timestamp_ns as nat, 8) + seq![e.probe_type] + seq![e.cpu_id] + le_bytes_of(
        e.vm_id as nat,
        2,
    ) + le_bytes_of(e.event_id as nat, 4) + le_bytes_of(e.name_offset as nat, 2)
        + seq![e.nr_args] + seq![e._pad] + le_bytes_of(0, 4) + le_bytes_of(
        e.args@[0] as nat,
        8,
    ) + le_bytes_of(e.args@[1] as nat, 8) + le_bytes_of(e.args@[2] as nat, 8) + le_bytes_of(
        e.args@[3] as nat,
        8,
    ) + le_bytes_of(e.duration_ns as nat, 8)
}

/// The event a 64-byte (or longer) byte string decodes to.
pub open spec fn spec_parse_event(data: Seq<u8>) -> TraceEvent {
    TraceEvent {
        timestamp_ns: le_bytes_to_nat(data.subrange(0, 8)) as u64,
        probe_type: data[8],
        cpu_id: data[9],
        vm_id: le_bytes_to_nat(data.subrange(10, 12)) as u16,
        event_id: le_bytes_to_nat(data.subrange(12, 16)) as u32,
        name_offset: le_bytes_to_nat(data.subrange(16, 18)) as u16,
        nr_args: data[18],
        _pad: data[19],
        args: [
            le_bytes_to_nat(data.subrange(24, 32)) as u64,
            le_bytes_to_nat(data.subrange(32, 40)) as u64,
            le_bytes_to_nat(data.subrange(40, 48)) as u64,
            le_bytes_to_nat(data.subrange(48, 56)) as u64,
        ],
        duration_ns: le_bytes_to_nat(data.subrange(56, 64)) as u64,
    }
}

impl TraceEvent {
    /// A fresh record stamped with the current time and CPU.
    pub fn new(platform: &Platform, probe_type: u8, event_id: u32) -> (r: TraceEvent)
        ensures
            r.timestamp_ns == platform.mock_time_ns,
            r.probe_type == probe_type,
            r.cpu_id == platform.mock_cpu_id as u8,
            r.vm_id == 0,
            r.event_id == event_id,
            r.name_offset == 0,
            r.nr_args == 0,
            r._pad == 0,
            r.args@ =~= seq![0u64, 0u64, 0u64, 0u64],
            r.duration_ns == 0,
    {
        TraceEvent {
            timestamp_ns: platform.time_ns(),
            probe_type,
            cpu_id: platform.cpu_id() as u8,
            vm_id: 0,
            event_id,
            name_offset: 0,
            nr_args: 0,
            _pad: 0,
            args: [0, 0, 0, 0],
            duration_ns: 0,
        }
    }

    /// Serialise this record to its 64-byte wire format.
    pub fn as_bytes(&self) -> (r: Vec<u8>)
        ensures
            r@ == event_bytes(*self),
            r@.len() == 64,
    {
        let mut out: Vec<u8> = Vec::new();
        push_le(&mut out, self.timestamp_ns, 8);
        out.push(self.probe_type);
        out.push(self.cpu_id);
        push_le(&mut out, self.vm_id as u64, 2);
        push_le(&mut out, self.event_id as u64, 4);
        push_le(&mut out, self.name_offset as u64, 2);
        out.push(self.nr_args);
        out.push(self._pad);
        push_le(&mut out, 0, 4);
        push_le(&mut out, self.args[0], 8);
        push_le(&mut out, self.args[1], 8);
        push_le(&mut out, self.args[2], 8);
        push_le(&mut out, self.args[3], 8);
        push_le(&mut out, self.duration_ns, 8);
        proof {
            assert(out@ =~= event_bytes(*self));
        }
        out
    }

    /// Parse one record out of a byte string; at least 64 bytes must be
    /// present, further bytes are ignored.
    pub fn from_bytes(data: &[u8]) -> (r: Option<TraceEvent>)
        ensures
            match r {
                Some(e) => data@.len() >= 64 && e == spec_parse_event(data@),
                None => data@.len() < 64,
            },
    {
        if data.len() < 64 {
            return None;
        }
        proof {
            reveal_with_fuel(pow256, 9);
            lemma_le_fits(data@, 0, 8);
            lemma_le_fits(data@, 10, 2);
            lemma_le_fits(data@, 12, 4);
            lemma_le_fits(data@, 16, 2);
            lemma_le_fits(data@, 24, 8);
            lemma_le_fits(data@, 32, 8);
            lemma_le_fits(data@, 40, 8);
            lemma_le_fits(data@, 48, 8);
            lemma_le_fits(data@, 56, 8);
        }
        let ev = TraceEvent {
            timestamp_ns: read_le(data, 0, 8),
            probe_type: data[8],
            cpu_id: data[9],
            vm_id: read_le(data, 10, 2) as u16,
            event_id: read_le(data, 12, 4) as u32,
            name_offset: read_le(data, 16, 2) as u16,
            nr_args: data[18],
            _pad: data[19],
            args: [read_le(data, 24, 8), read_le(data, 32, 8), read_le(data, 40, 8), read_le(
                data,
                48,
                8,
            )],
            duration_ns: read_le(data, 56, 8),
        };
        proof {
            assert(ev.args@ =~= spec_parse_event(data@).args@);
            assert(ev.args == spec_parse_event(data@).args);
        }
        Some(ev)
    }

    /// The probe kind as text.
    pub fn probe_type_str(&self) -> (r: &'static str)
        ensures
            self.probe_type == 0 ==> r@ == "tracepoint"@,
            self.probe_type == 1 ==> r@ == "hprobe"@,
            self.probe_type == 2 ==> r@ == "hretprobe"@,
            self.probe_type == 3 ==> r@ == "kprobe"@,
            self.probe_type == 4 ==> r@ == "kretprobe"@,
            self.probe_type > 4 ==> r@ == "unknown"@,
    {
        if self.probe_type == 0 {
            "tracepoint"
        } else if self.probe_type == 1 {
            "hprobe"
        } else if self.probe_type == 2 {
            "hretprobe"
        } else if self.probe_type == 3 {
            "kprobe"
        } else if self.probe_type == 4 {
            "kretprobe"
        } else {
            "unknown"
        }
    }
}

/// Per-event statistics updated on every emission.
pub struct ProbeStats {
    /// Number of emissions.
    pub count: u64,
    /// Timestamp of the last emission.
    pub last_ts: u64,
    /// Number of emissions that carried a nonzero duration.
    pub duration_samples: u64,
    /// Smallest duration seen; `u64::MAX` until the first sample.
    pub duration_min: u64,
    /// Largest duration seen.
    pub duration_max: u64,
    /// Sum of durations, saturating.
    pub duration_sum: u64,
    /// Latency distribution of the durations.
    pub histogram: LatencyHistogram,
}

/// Immutable snapshot of per-event statistics.
#[derive(Debug, Clone)]
pub struct ProbeStatsSnapshot {
    /// Number of emissions.
    pub count: u64,
    /// Timestamp of the last emission.
    pub last_ts: u64,
    /// Number of emissions that carried a nonzero duration.
    pub duration_samples: u64,
    /// Smallest duration seen.
    pub duration_min: u64,
    /// Largest duration seen.
    pub duration_max: u64,
    /// Sum of durations.
    pub duration_sum: u64,
    /// Mean duration over the samples.
    pub duration_avg: u64,
    /// Latency distribution.
    pub histogram: HistogramSnapshot,
}

impl ProbeStats {
    /// Fresh statistics.
    pub fn new() -> (r: ProbeStats)
        ensures
            r.count == 0,
            r.last_ts == 0,
            r.duration_samples == 0,
            r.duration_min == u64::MAX,
            r.duration_max == 0,
            r.duration_sum == 0,
            forall|i: int| 0 <= i < 8 ==> r.histogram.buckets@[i] == 0,
    {
        ProbeStats {
            count: 0,
            last_ts: 0,
            duration_samples: 0,
            duration_min: u64::MAX,
            duration_max: 0,
            duration_sum: 0,
            histogram: LatencyHistogram::new(),
        }
    }

    /// Record one emission; a zero duration only counts the hit.
    pub fn record(&mut self, timestamp: u64, duration_ns: u64)
        ensures
            final(self).count == if old(self).count < u64::MAX {
                old(self).count + 1
            } else {
                u64::MAX as int
            },
            final(self).last_ts == timestamp,
            duration_ns == 0 ==> {
                &&& final(self).duration_samples == old(self).duration_samples
                &&& final(self).duration_min == old(self).duration_min
                &&& final(self).duration_max == old(self).duration_max
                &&& final(self).duration_sum == old(self).duration_sum
                &&& final(self).histogram == old(self).histogram
            },
            duration_ns > 0 ==> {
                &&& final(self).duration_samples == if old(self).duration_samples < u64::MAX {
                    old(self).duration_samples + 1
                } else {
                    u64::MAX as int
                }
                &&& final(self).duration_min == if duration_ns < old(self).duration_min {
                    duration_ns
                } else {
                    old(self).duration_min
                }
                &&& final(self).duration_max == if duration_ns > old(self).duration_max {
                    duration_ns
                } else {
                    old(self).duration_max
                }
                &&& final(self).duration_sum == if old(self).duration_sum + duration_ns
                    <= u64::MAX {
                    old(self).duration_sum + duration_ns
                } else {
                    u64::MAX as int
                }
                &&& final(self).histogram.buckets@ == old(self).histogram.buckets@.update(
                    spec_find_bucket(duration_ns),
                    if old(self).histogram.buckets@[spec_find_bucket(duration_ns)] < u64::MAX {
                        (old(self).histogram.buckets@[spec_find_bucket(duration_ns)] + 1) as u64
                    } else {
                        old(self).histogram.buckets@[spec_find_bucket(duration_ns)]
                    },
                )
            },
    {
        if self.count < u64::MAX {
            self.count = self.count + 1;
        }
        self.last_ts = timestamp;
        if duration_ns == 0 {
            return ;
        }
        if self.duration_samples < u64::MAX {
            self.duration_samples = self.duration_samples + 1;
        }
        if duration_ns < self.duration_min {
            self.duration_min = duration_ns;
        }
        if duration_ns > self.duration_max {
            self.duration_max = duration_ns;
        }
        if self.duration_sum <= u64::MAX - duration_ns {
            self.duration_sum = self.duration_sum + duration_ns;
        } else {
            self.duration_sum = u64::MAX;
        }
        self.histogram.record(duration_ns);
    }

    /// A snapshot of the counters, with the mean computed over samples.
    pub fn snapshot(&self) -> (r: ProbeStatsSnapshot)
        ensures
            r.count == self.count,
            r.last_ts == self.last_ts,
            r.duration_samples == self.duration_samples,
            r.duration_min == self.duration_min,
            r.duration_max == self.duration_max,
            r.duration_sum == self.duration_sum,
            r.duration_avg == if self.duration_samples > 0 {
                self.duration_sum as int / self.duration_samples as int
            } else {
                0
            },
    {
        ProbeStatsSnapshot {
            count: self.count,
            last_ts: self.last_ts,
            duration_samples: self.duration_samples,
            duration_min: self.duration_min,
            duration_max: self.duration_max,
            duration_sum: self.duration_sum,
            duration_avg: if self.duration_samples > 0 {
                self.duration_sum / self.duration_samples
            } else {
                0
            },
            histogram: self.histogram.snapshot(),
        }
    }
}

/// The events a stream of wire records parses to, in order; short records
/// are dropped.
pub open spec fn parsed_events(records: Seq<Seq<u8>>) -> Seq<TraceEvent>
    decreases records.len(),
{
    if records.len() == 0 {
        Seq::empty()
    } else {
        parsed_events(records.drop_last()) + (if records.last().len() >= 64 {
            seq![spec_parse_event(records.last())]
        } else {
            Seq::empty()
        })
    }
}

/// Parsing distributes over appending one record at the end.
pub proof fn lemma_parsed_events_snoc(records: Seq<Seq<u8>>, rec: Seq<u8>)
    ensures
        parsed_events(records.push(rec)) == parsed_events(records) + (if rec.len() >= 64 {
            seq![spec_parse_event(rec)]
        } else {
            Seq::<TraceEvent>::empty()
        }),
{
    assert(records.push(rec).drop_last() =~= records);
    assert(records.push(rec).last() == rec);
}

/// A fallback queue after one append: the record goes to the back, and at
/// capacity the oldest record leaves.
pub open spec fn event_push(fallback: Seq<TraceEvent>, ev: TraceEvent) -> Seq<TraceEvent> {
    if fallback.len() < FALLBACK_QUEUE_CAPACITY {
        fallback.push(ev)
    } else {
        fallback.drop_first().push(ev)
    }
}

/// The event pipeline: name table, ring-buffer handle, fallback queue and
/// per-event statistics.
pub struct EventPipeline {
    /// Append-only table of event names; the offset of a name is its index.
    pub name_table: Vec<String>,
    /// First-wins mapping from event id to name offset.
    pub event_name_map: Vec<(u32, u16)>,
    /// Handle of the trace ring-buffer map, once initialised.
    pub ringbuf_fd: Option<u32>,
    /// Bounded FIFO mirror of the ring buffer, oldest first.
    pub fallback: Vec<TraceEvent>,
    /// Per-event-id statistics.
    pub stats: Vec<(u32, ProbeStats)>,
}

/// Whether a table of names holds a name.
pub open spec fn table_contains(table: Seq<Seq<char>>, name: Seq<char>) -> bool {
    exists|i: int| 0 <= i < table.len() && table[i] == name
}

/// The first offset of a name in the table.
pub open spec fn table_offset_of(table: Seq<Seq<char>>, name: Seq<char>) -> int {
    choose|i: int| 0 <= i < table.len() && table[i] == name
}

/// The outcome of registering a name: the offset handed out and the table
/// afterwards.
pub open spec fn spec_register(table: Seq<Seq<char>>, name: Seq<char>) -> (u16, Seq<Seq<char>>) {
    if table_contains(table, name) {
        (table_offset_of(table, name) as u16, table)
    } else if table.len() < 65534 {
        (table.len() as u16, table.push(name))
    } else {
        (NAME_OFFSET_SENTINEL, table)
    }
}

/// Registering an event name is a pure function of the table: a second
/// registration of the same name returns the same offset and leaves the
/// table unchanged, and a non-sentinel offset resolves back to the name.
pub proof fn lemma_register_idempotent(table: Seq<Seq<char>>, name: Seq<char>)
    requires
        forall|i: int, j: int| 0 <= i < j < table.len() ==> table[i] != table[j],
        table.len() <= 65534,
    ensures
        ({
            let (o1, t1) = spec_register(table, name);
            let (o2, t2) = spec_register(t1, name);
            &&& o2 == o1
            &&& t2 == t1
            &&& o1 != NAME_OFFSET_SENTINEL ==> 0 <= o1 < t1.len() && t1[o1 as int] == name
        }),
{
    let (o1, t1) = spec_register(table, name);
    if table_contains(table, name) {
        let i = table_offset_of(table, name);
        assert(0 <= i < table.len() && table[i] == name);
        assert(forall|j: int| 0 <= j < table.len() && table[j] == name ==> j == i);
    } else if table.len() < 65534 {
        assert(t1[table.len() as int] == name);
        assert(table_contains(t1, name));
        let k = table_offset_of(t1, name);
        assert(0 <= k < t1.len() && t1[k] == name);
        assert(forall|j: int| 0 <= j < table.len() ==> t1[j] == table[j]);
        if k < table.len() {
            assert(table[k] == name);
            assert(false);
        }
        assert(k == table.len());
    }
}

impl EventPipeline {
    /// Names in the table are pairwise distinct, and the table stays under
    /// the sentinel offset.
    pub open spec fn wf(&self) -> bool {
        &&& forall|i: int, j: int|
            0 <= i < j < self.name_table@.len() ==> self.name_table@[i]@ != self.name_table@[j]@
        &&& self.name_table@.len() <= 65534
        &&& self.fallback@.len() <= FALLBACK_QUEUE_CAPACITY
        &&& forall|i: int, j: int|
            0 <= i < j < self.stats@.len() ==> self.stats@[i].0 != self.stats@[j].0
    }

    /// The view of the name table.
    pub open spec fn table(&self) -> Seq<Seq<char>> {
        self.name_table@.map_values(|s: String| s@)
    }

    /// An empty pipeline with no ring buffer.
    pub fn new() -> (r: EventPipeline)
        ensures
            r.wf(),
            r.table().len() == 0,
            r.ringbuf_fd is None,
            r.fallback@.len() == 0,
            r.stats@.len() == 0,
    {
        EventPipeline {
            name_table: Vec::new(),
            event_name_map: Vec::new(),
            ringbuf_fd: None,
            fallback: Vec::new(),
            stats: Vec::new(),
        }
    }

    /// Register an event name and return its offset; registration is
    /// idempotent, and a full table yields the sentinel offset.
    pub fn register_event_name(&mut self, name: &str) -> (r: u16)
        requires
            old(self).wf(),
        ensures
            final(self).wf(),
            r == spec_register(old(self).table(), name@).0,
            final(self).table() == spec_register(old(self).table(), name@).1,
            final(self).event_name_map@ == old(self).event_name_map@,
            final(self).ringbuf_fd == old(self).ringbuf_fd,
            final(self).fallback@ == old(self).fallback@,
            final(self).stats@ == old(self).stats@,
    {
        let owned: String = name.to_owned();
        let mut i: usize = 0;
        while i < self.name_table.len()
            invariant
                i <= self.name_table@.len(),
                owned@ == name@,
                forall|j: int| 0 <= j < i ==> self.name_table@[j]@ != name@,
            decreases self.name_table@.len() - i,
        {
            if self.name_table[i] == owned {
                proof {
                    let t = self.table();
                    assert(t[i as int] == name@);
                    assert(table_contains(t, name@));
                    let k = table_offset_of(t, name@);
                    if k != i as int {
                        assert(false);
                    }
                }
                return i as u16;
            }
            i = i + 1;
        }
        if self.name_table.len() >= 65534 {
            return NAME_OFFSET_SENTINEL;
        }
        let idx = self.name_table.len() as u16;
        let ghost t0 = self.table();
        self.name_table.push(owned);
        proof {
            let t = self.table();
            assert(forall|j: int| 0 <= j < t0.len() ==> t[j] == t0[j]);
            assert(t[t0.len() as int] == name@);
            assert(t =~= t0.push(name@));
            assert(!table_contains(t0, name@));
        }
        idx
    }

    /// The name stored at an offset.
    pub fn get_event_name(&self, offset: u16) -> (r: Option<String>)
        ensures
            match r {
                Some(s) => offset < self.table().len() && s@ == self.table()[offset as int],
                None => offset >= self.table().len(),
            },
    {
        if (offset as usize) < self.name_table.len() {
            Some(self.name_table[offset as usize].clone())
        } else {
            None
        }
    }

    /// The name recorded for an event id, through the first-wins id map.
    pub fn event_name_for_id(&self, event_id: u32) -> (r: Option<String>)
    {
        let mut i: usize = 0;
        while i < self.event_name_map.len()
            decreases self.event_name_map@.len() - i,
        {
            if self.event_name_map[i].0 == event_id {
                return self.get_event_name(self.event_name_map[i].1);
            }
            i = i + 1;
        }
        None
    }

    /// Record the name offset for an event id; the first record wins and a
    /// sentinel offset is never recorded.
    fn remember_event_name(&mut self, event_id: u32, name_offset: u16)
        requires
            old(self).wf(),
        ensures
            final(self).wf(),
            final(self).name_table@ == old(self).name_table@,
            final(self).ringbuf_fd == old(self).ringbuf_fd,
            final(self).fallback@ == old(self).fallback@,
            final(self).stats@ == old(self).stats@,
    {
        if name_offset == NAME_OFFSET_SENTINEL {
            return ;
        }
        let mut i: usize = 0;
        while i < self.event_name_map.len()
            decreases self.event_name_map@.len() - i,
        {
            if self.event_name_map[i].0 == event_id {
                return ;
            }
            i = i + 1;
        }
        self.event_name_map.push((event_id, name_offset));
    }

    /// The handle of the trace ring buffer, if initialised.
    pub fn ringbuf_fd(&self) -> (r: Option<u32>)
        ensures
            r == self.ringbuf_fd,
    {
        self.ringbuf_fd
    }

    /// Create the trace ring buffer with the default byte capacity.
    pub fn init_ringbuf(&mut self, maps: &mut MapStore)
        requires
            old(self).wf(),
            old(maps).wf(),
        ensures
            final(self).wf(),
            final(maps).wf(),
    {
        self.init_ringbuf_with_size(maps, DEFAULT_RINGBUF_SIZE / 1024);
    }

    /// Create the trace ring buffer with a capacity given in kilobytes; the
    /// byte size must come out as a power of two and page-aligned, else the
    /// pipeline is left without a ring buffer.
    pub fn init_ringbuf_with_size(&mut self, maps: &mut MapStore, size_kb: u32)
        requires
            old(self).wf(),
            old(maps).wf(),
        ensures
            final(self).wf(),
            final(maps).wf(),
    {
        if size_kb > u32::MAX / 1024 {
            return ;
        }
        let size_bytes = size_kb * 1024;
        if size_bytes == 0 || (size_bytes & (size_bytes - 1)) != 0 || (size_bytes % 4096) != 0 {
            return ;
        }
        let def = MapDef {
            map_type: MapType::RingBuf,
            key_size: 0,
            value_size: 0,
            max_entries: size_bytes,
        };
        match maps.create(&def) {
            Ok(fd) => {
                self.ringbuf_fd = Some(fd);
            },
            Err(_) => {},
        }
    }

    /// Append one event to the fallback queue, discarding the oldest at
    /// capacity.
    fn fallback_push(&mut self, event: &TraceEvent)
        requires
            old(self).wf(),
        ensures
            final(self).wf(),
            final(self).fallback@ == event_push(old(self).fallback@, *event),
            final(self).name_table@ == old(self).name_table@,
            final(self).event_name_map@ == old(self).event_name_map@,
            final(self).ringbuf_fd == old(self).ringbuf_fd,
            final(self).stats@ == old(self).stats@,
    {
        if self.fallback.len() >= FALLBACK_QUEUE_CAPACITY {
            let _ = self.fallback.remove(0);
            proof {
                assert(self.fallback@ =~= old(self).fallback@.drop_first());
            }
        }
        self.fallback.push(*event);
    }

    /// Write one event into the stream: best-effort push into the ring
    /// buffer, and always into the fallback queue. Returns whether the
    /// ring-buffer write succeeded.
    pub fn ringbuf_push(&mut self, maps: &mut MapStore, event: &TraceEvent) -> (r: bool)
        requires
            old(self).wf(),
            old(maps).wf(),
        ensures
            final(self).wf(),
            final(maps).wf(),
            final(self).fallback@ == event_push(old(self).fallback@, *event),
            old(self).ringbuf_fd is None ==> r == false && final(maps)@ == old(maps)@,
            final(self).name_table@ == old(self).name_table@,
            final(self).ringbuf_fd == old(self).ringbuf_fd,
            final(self).stats@ == old(self).stats@,
            ({
                let fd = old(self).ringbuf_fd->Some_0;
                old(self).ringbuf_fd is Some && old(maps).live(fd) && old(maps).map_at(
                    fd,
                ).kind is RingBuf ==> {
                    let (pr, v2) = maps::spec_push(old(maps).map_at(fd), event_bytes(*event));
                    &&& r == (pr is Ok)
                    &&& final(maps)@ == old(maps)@.update(fd as int, Some(v2))
                }
            }),
    {
        let pushed: bool = match self.ringbuf_fd {
            Some(fd) => {
                let rec = event.as_bytes();
                match maps.push_elem(fd, rec.as_slice()) {
                    Ok(()) => true,
                    Err(_) => false,
                }
            },
            None => false,
        };
        self.fallback_push(event);
        pushed
    }

    /// Read and consume events: first the ring buffer, then the fallback
    /// queue. A `max_events` of zero means no limit; the pipeline and the
    /// ring buffer are then fully drained.
    pub fn consume_events(&mut self, maps: &mut MapStore, max_events: usize) -> (r: Vec<
        TraceEvent,
    >)
        requires
            old(self).wf(),
            old(maps).wf(),
        ensures
            final(self).wf(),
            final(maps).wf(),
            final(self).name_table@ == old(self).name_table@,
            final(self).ringbuf_fd == old(self).ringbuf_fd,
            final(self).stats@ == old(self).stats@,
            max_events > 0 ==> r@.len() <= max_events,
            old(self).ringbuf_fd is None && max_events == 0 ==> r@ == old(self).fallback@
                && final(self).fallback@.len() == 0 && final(maps)@ == old(maps)@,
            old(self).ringbuf_fd is None && max_events > 0 ==> {
                let take = if old(self).fallback@.len() < max_events {
                    old(self).fallback@.len() as int
                } else {
                    max_events as int
                };
                &&& r@ == old(self).fallback@.subrange(0, take)
                &&& final(self).fallback@ == old(self).fallback@.subrange(
                    take,
                    old(self).fallback@.len() as int,
                )
                &&& final(maps)@ == old(maps)@
            },
            ({
                let fd = old(self).ringbuf_fd->Some_0;
                let rb = old(maps).map_at(fd).records;
                old(self).ringbuf_fd is Some && old(maps).live(fd) && old(maps).map_at(
                    fd,
                ).kind is RingBuf && max_events > 0 ==> exists|n1: int, n2: int|
                    #![trigger rb.subrange(0, n1), old(self).fallback@.subrange(0, n2)]
                    {
                        &&& 0 <= n1 <= rb.len()
                        &&& 0 <= n2 <= old(self).fallback@.len()
                        &&& r@ == parsed_events(rb.subrange(0, n1)) + old(
                            self,
                        ).fallback@.subrange(0, n2)
                        &&& final(self).fallback@ == old(self).fallback@.subrange(
                            n2,
                            old(self).fallback@.len() as int,
                        )
                        &&& (n2 > 0 ==> n1 == rb.len())
                    }
            }),
            ({
                let fd = old(self).ringbuf_fd->Some_0;
                old(self).ringbuf_fd is Some && old(maps).live(fd) && old(maps).map_at(
                    fd,
                ).kind is RingBuf && max_events == 0 ==> {
                    &&& r@ == parsed_events(old(maps).map_at(fd).records) + old(self).fallback@
                    &&& final(self).fallback@.len() == 0
                    &&& final(maps)@ == old(maps)@.update(
                        fd as int,
                        Some(
                            maps::MapView {
                                records: Seq::empty(),
                                ..old(maps).map_at(fd)
                            },
                        ),
                    )
                }
            }),
    {
        let mut events: Vec<TraceEvent> = Vec::new();
        let ghost fd0: u32 = if old(self).ringbuf_fd is Some {
            old(self).ringbuf_fd->Some_0
        } else {
            0
        };
        let ghost rb_live: bool = old(self).ringbuf_fd is Some && old(maps).live(fd0) && old(
            maps,
        ).map_at(fd0).kind is RingBuf;
        let ghost rb0: Seq<Seq<u8>> = if rb_live {
            old(maps).map_at(fd0).records
        } else {
            Seq::empty()
        };
        let ghost mut consumed: Seq<Seq<u8>> = Seq::empty();
        match self.ringbuf_fd {
            Some(fd) if matches!(maps.map_kind(fd), Some(MapType::RingBuf)) => {
                proof {
                    assert(fd == fd0);
                    assert(rb_live);
                }
                proof {
                    if old(maps).live(fd) && old(maps).map_at(fd).kind is RingBuf {
                        let m0 = old(maps).map_at(fd);
                        assert(rb0.subrange(0, rb0.len() as int) =~= rb0);
                        assert((maps::MapView {
                            records: rb0.subrange(0, rb0.len() as int),
                            ..m0
                        }) =~= m0);
                        assert(maps@ =~= old(maps)@.update(
                            fd as int,
                            Some(
                                maps::MapView {
                                    records: rb0.subrange(0, rb0.len() as int),
                                    ..m0
                                },
                            ),
                        ));
                    }
                }
                let mut done = false;
                while !done
                    invariant
                        old(maps).live(fd) && old(maps).map_at(fd).kind is RingBuf ==> {
                            &&& rb0 == consumed + maps.map_at(fd).records
                            &&& maps.live(fd)
                            &&& maps.map_at(fd).kind is RingBuf
                            &&& maps@ == old(maps)@.update(
                                fd as int,
                                Some(
                                    maps::MapView {
                                        records: rb0.subrange(
                                            consumed.len() as int,
                                            rb0.len() as int,
                                        ),
                                        ..old(maps).map_at(fd)
                                    },
                                ),
                            )
                            &&& (done && max_events == 0 ==> maps.map_at(fd).records.len() == 0)
                        },
                        !(old(maps).live(fd) && old(maps).map_at(fd).kind is RingBuf)
                            ==> maps@ == old(maps)@,
                        consumed.len() <= rb0.len(),
                        events@ == parsed_events(consumed),
                        maps.wf(),
                        max_events > 0 ==> events@.len() <= max_events,
                        max_events > 0 && !done ==> events@.len() < max_events,
                        done ==> (max_events > 0 && events@.len() >= max_events)
                            || consumed.len() == rb0.len(),
                        *self == *old(self),
                    decreases rb0.len() - consumed.len() + (if done {
                        0int
                    } else {
                        1int
                    }),
                {
                    let ghost pre_maps = maps@;
                    match maps.pop_elem(fd) {
                        Ok(Some(rec)) => {
                            proof {
                                if old(maps).live(fd) && old(maps).map_at(fd).kind is RingBuf {
                                    assert(rb0.subrange(
                                        consumed.len() as int,
                                        rb0.len() as int,
                                    )[0] == rec@);
                                    assert(consumed.push(rec@) + rb0.subrange(
                                        consumed.len() as int + 1,
                                        rb0.len() as int,
                                    ) =~= rb0);
                                    assert(rb0.subrange(
                                        consumed.len() as int,
                                        rb0.len() as int,
                                    ).drop_first() =~= rb0.subrange(
                                        consumed.len() as int + 1,
                                        rb0.len() as int,
                                    ));
                                }
                                lemma_parsed_events_snoc(consumed, rec@);
                            }
                            proof {
                                consumed = consumed.push(rec@);
                            }
                            match TraceEvent::from_bytes(rec.as_slice()) {
                                Some(ev) => {
                                    events.push(ev);
                                    proof {
                                        assert(events@ =~= parsed_events(consumed));
                                    }
                                },
                                None => {
                                    proof {
                                        assert(events@ =~= parsed_events(consumed));
                                    }
                                },
                            }
                            if max_events != 0 && events.len() >= max_events {
                                done = true;
                            }
                            proof {
                                if old(maps).live(fd) && old(maps).map_at(fd).kind is RingBuf {
                                    assert(maps@ =~= old(maps)@.update(
                                        fd as int,
                                        Some(
                                            maps::MapView {
                                                records: rb0.subrange(
                                                    consumed.len() as int,
                                                    rb0.len() as int,
                                                ),
                                                ..old(maps).map_at(fd)
                                            },
                                        ),
                                    ));
                                }
                            }
                        },
                        Ok(None) => {
                            done = true;
                            proof {
                                assert(maps@ =~= pre_maps);
                                assert(rb0.subrange(consumed.len() as int, rb0.len() as int)
                                    .len() == 0);
                                assert(consumed.len() == rb0.len());
                            }
                        },
                        Err(_) => {
                            done = true;
                            proof {
                                assert(maps@ =~= pre_maps);
                                assert(false);
                            }
                        },
                    }
                }
                proof {
                    if old(maps).live(fd) && old(maps).map_at(fd).kind is RingBuf && max_events
                        == 0 {
                        assert(consumed =~= rb0);
                        assert(rb0.subrange(rb0.len() as int, rb0.len() as int)
                            =~= Seq::<Seq<u8>>::empty());
                        assert((maps::MapView {
                            records: rb0.subrange(rb0.len() as int, rb0.len() as int),
                            ..old(maps).map_at(fd)
                        }) =~= (maps::MapView {
                            records: Seq::empty(),
                            ..old(maps).map_at(fd)
                        }));
                    }
                }
            },
            _ => {
                proof {
                    assert(!rb_live);
                }
            },
        }
        let ghost rb_short: bool = max_events > 0 && events@.len() >= max_events;
        proof {
            assert(rb_live ==> rb_short || consumed.len() == rb0.len());
        }
        let ghost mid_events = events@;
        let ghost fb0 = self.fallback@;
        let ghost mut taken: int = 0;
        while self.fallback.len() > 0 && (max_events == 0 || events.len() < max_events)
            invariant
                0 <= taken <= fb0.len(),
                self.fallback@ == fb0.subrange(taken, fb0.len() as int),
                events@ == mid_events + fb0.subrange(0, taken),
                max_events > 0 ==> events@.len() <= max_events,
                max_events > 0 && taken > 0 ==> mid_events.len() < max_events,
                self.name_table@ == old(self).name_table@,
                self.event_name_map@ == old(self).event_name_map@,
                self.ringbuf_fd == old(self).ringbuf_fd,
                self.stats@ == old(self).stats@,
                self.wf(),
            decreases self.fallback@.len(),
        {
            let ev = self.fallback.remove(0);
            events.push(ev);
            proof {
                assert(fb0.subrange(taken, fb0.len() as int)[0] == ev);
                assert(fb0.subrange(taken, fb0.len() as int).drop_first() =~= fb0.subrange(
                    taken + 1,
                    fb0.len() as int,
                ));
                assert(events@ =~= mid_events + fb0.subrange(0, taken + 1));
                taken = taken + 1;
            }
        }
        proof {
            if max_events == 0 {
                assert(taken == fb0.len());
                assert(fb0.subrange(0, fb0.len() as int) =~= fb0);
            }
            if old(self).ringbuf_fd is None {
                assert(mid_events =~= Seq::<TraceEvent>::empty());
                assert(events@ =~= fb0.subrange(0, taken));
                if max_events > 0 {
                    let take = if fb0.len() < max_events {
                        fb0.len() as int
                    } else {
                        max_events as int
                    };
                    assert(taken == take);
                }
            }
            if rb_live && max_events > 0 {
                let n1 = consumed.len() as int;
                let n2 = taken;
                assert(fb0 == old(self).fallback@);
                assert(consumed =~= rb0.subrange(0, n1));
                assert(mid_events == parsed_events(consumed));
                assert(events@ == parsed_events(rb0.subrange(0, n1)) + old(
                    self,
                ).fallback@.subrange(0, n2));
                if n2 > 0 {
                    assert(mid_events.len() < max_events);
                    assert(!rb_short);
                    assert(n1 == rb0.len());
                }
                assert(self.fallback@ == old(self).fallback@.subrange(
                    n2,
                    old(self).fallback@.len() as int,
                ));
            }
        }
        events
    }

    /// Whether statistics exist for an event id.
    pub open spec fn has_stats(&self, event_id: u32) -> bool {
        exists|i: int| 0 <= i < self.stats@.len() && self.stats@[i].0 == event_id
    }

    /// The index of the statistics for an event id.
    pub open spec fn stats_at(&self, event_id: u32) -> int {
        choose|i: int| 0 <= i < self.stats@.len() && self.stats@[i].0 == event_id
    }

    /// The index of the statistics record for an event id, creating it on
    /// first use.
    fn stats_index(&mut self, event_id: u32) -> (r: usize)
        requires
            old(self).wf(),
        ensures
            final(self).wf(),
            r < final(self).stats@.len(),
            final(self).stats@[r as int].0 == event_id,
            final(self).name_table@ == old(self).name_table@,
            final(self).event_name_map@ == old(self).event_name_map@,
            final(self).ringbuf_fd == old(self).ringbuf_fd,
            final(self).fallback@ == old(self).fallback@,
            old(self).has_stats(event_id) ==> final(self).stats@ == old(self).stats@ && r
                == old(self).stats_at(event_id),
            !old(self).has_stats(event_id) ==> {
                &&& r == old(self).stats@.len()
                &&& final(self).stats@.len() == old(self).stats@.len() + 1
                &&& forall|j: int|
                    0 <= j < old(self).stats@.len() ==> final(self).stats@[j] == old(
                        self,
                    ).stats@[j]
                &&& final(self).stats@[r as int].1.count == 0
                &&& final(self).stats@[r as int].1.duration_samples == 0
                &&& final(self).stats@[r as int].1.duration_sum == 0
                &&& final(self).stats@[r as int].1.duration_min == u64::MAX
                &&& final(self).stats@[r as int].1.duration_max == 0
            },
    {
        let mut i: usize = 0;
        while i < self.stats.len()
            invariant
                i <= self.stats@.len(),
                forall|j: int| 0 <= j < i ==> self.stats@[j].0 != event_id,
            decreases self.stats@.len() - i,
        {
            if self.stats[i].0 == event_id {
                proof {
                    let k = self.stats_at(event_id);
                    assert(0 <= k < self.stats@.len() && self.stats@[k].0 == event_id);
                    if k != i as int {
                        assert(false);
                    }
                }
                return i;
            }
            i = i + 1;
        }
        let idx = self.stats.len();
        self.stats.push((event_id, ProbeStats::new()));
        idx
    }

    /// Snapshot every event id's statistics.
    pub fn all_stats(&self) -> (r: Vec<(u32, ProbeStatsSnapshot)>)
        ensures
            r@.len() == self.stats@.len(),
            forall|i: int|
                0 <= i < r@.len() ==> (#[trigger] r@[i]).0 == self.stats@[i].0 && r@[i].1.count
                    == self.stats@[i].1.count && r@[i].1.duration_sum
                    == self.stats@[i].1.duration_sum,
    {
        let mut out: Vec<(u32, ProbeStatsSnapshot)> = Vec::new();
        let mut i: usize = 0;
        while i < self.stats.len()
            invariant
                i <= self.stats@.len(),
                out@.len() == i,
                forall|j: int|
                    0 <= j < i ==> (#[trigger] out@[j]).0 == self.stats@[j].0 && out@[j].1.count
                        == self.stats@[j].1.count && out@[j].1.duration_sum
                        == self.stats@[j].1.duration_sum,
            decreases self.stats@.len() - i,
        {
            out.push((self.stats[i].0, self.stats[i].1.snapshot()));
            i = i + 1;
        }
        out
    }
}

/// Run the program attached to an event name, handing it the event record
/// as its context; the call's result is discarded.
pub fn execute_attached_program(
    attachments: &AttachRegistry,
    progs: &ProgramStore,
    name: &str,
    event: &TraceEvent,
)
    requires
        attachments.wf(),
{
    match attachments.get_attached(name) {
        Some(info) => {
            let mut ctx = event.as_bytes();
            let _ = progs.run_program(info.prog_id, Some(&mut ctx));
        },
        None => {},
    }
}

impl EventPipeline {
    /// Emit one event into the stream: best-effort ring-buffer push, the
    /// unconditional fallback append, the first-wins name record, the
    /// built-in statistics update, and the attached program's invocation.
    pub fn emit_event(
        &mut self,
        maps: &mut MapStore,
        attachments: &AttachRegistry,
        progs: &ProgramStore,
        event: &TraceEvent,
    )
        requires
            old(self).wf(),
            old(maps).wf(),
            attachments.wf(),
        ensures
            final(self).wf(),
            final(maps).wf(),
            final(self).fallback@ == event_push(old(self).fallback@, *event),
            final(self).name_table@ == old(self).name_table@,
            final(self).ringbuf_fd == old(self).ringbuf_fd,
            ({
                let i = final(self).stats_at(event.event_id);
                &&& final(self).has_stats(event.event_id)
                &&& final(self).stats@[i].1.last_ts == event.timestamp_ns
                &&& (old(self).has_stats(event.event_id) ==> {
                    let i0 = old(self).stats_at(event.event_id);
                    &&& i == i0
                    &&& final(self).stats@[i].1.count == (if old(
                        self,
                    ).stats@[i0].1.count < u64::MAX {
                        old(self).stats@[i0].1.count + 1
                    } else {
                        u64::MAX as int
                    })
                })
                &&& (!old(self).has_stats(event.event_id) ==> final(self).stats@[i].1.count
                    == 1)
                &&& (old(self).has_stats(event.event_id) ==> {
                    let s0 = old(self).stats@[old(self).stats_at(event.event_id)].1;
                    let s1 = final(self).stats@[i].1;
                    &&& (event.duration_ns == 0 ==> s1.duration_samples == s0.duration_samples
                        && s1.duration_min == s0.duration_min && s1.duration_max
                        == s0.duration_max && s1.duration_sum == s0.duration_sum
                        && s1.histogram == s0.histogram)
                    &&& (event.duration_ns > 0 ==> {
                        &&& s1.duration_samples == (if s0.duration_samples < u64::MAX {
                            s0.duration_samples + 1
                        } else {
                            u64::MAX as int
                        })
                        &&& s1.duration_min == (if event.duration_ns < s0.duration_min {
                            event.duration_ns
                        } else {
                            s0.duration_min
                        })
                        &&& s1.duration_max == (if event.duration_ns > s0.duration_max {
                            event.duration_ns
                        } else {
                            s0.duration_max
                        })
                        &&& s1.duration_sum == (if s0.duration_sum + event.duration_ns
                            <= u64::MAX {
                            s0.duration_sum + event.duration_ns
                        } else {
                            u64::MAX as int
                        })
                        &&& s1.histogram.buckets@ == s0.histogram.buckets@.update(
                            spec_find_bucket(event.duration_ns),
                            if s0.histogram.buckets@[spec_find_bucket(event.duration_ns)]
                                < u64::MAX {
                                (s0.histogram.buckets@[spec_find_bucket(event.duration_ns)]
                                    + 1) as u64
                            } else {
                                s0.histogram.buckets@[spec_find_bucket(event.duration_ns)]
                            },
                        )
                    })
                })
                &&& (!old(self).has_stats(event.event_id) ==> {
                    let s1 = final(self).stats@[i].1;
                    &&& s1.duration_samples == (if event.duration_ns > 0 {
                        1int
                    } else {
                        0int
                    })
                    &&& s1.duration_sum == (if event.duration_ns > 0 {
                        event.duration_ns as int
                    } else {
                        0int
                    })
                    &&& s1.duration_min == (if event.duration_ns > 0 {
                        event.duration_ns
                    } else {
                        u64::MAX
                    })
                    &&& s1.duration_max == event.duration_ns
                })
            }),
    {
        let _ = self.ringbuf_push(maps, event);
        self.remember_event_name(event.event_id, event.name_offset);
        let si = self.stats_index(event.event_id);
        let ghost mid = *self;
        let pair = &mut self.stats[si];
        pair.1.record(event.timestamp_ns, event.duration_ns);
        proof {
            assert(forall|j: int|
                0 <= j < self.stats@.len() && j != si ==> self.stats@[j] == mid.stats@[j]);
            assert(self.stats@[si as int].0 == event.event_id);
            let k = self.stats_at(event.event_id);
            assert(0 <= k < self.stats@.len() && self.stats@[k].0 == event.event_id);
            if k != si as int {
                assert(mid.stats@[k].0 == event.event_id);
                assert(false);
            }
        }
        match self.get_event_name(event.name_offset) {
            Some(name) => {
                execute_attached_program(attachments, progs, name.as_str(), event);
            },
            None => {},
        }
    }
}

/// An emitted record is the youngest in the fallback queue: after
/// `emit_event`, the queue ends with the new record, so an unbounded
/// `consume_events` (which returns the whole queue, after the ring
/// buffer's records) yields it.
pub proof fn lemma_emit_then_consume_yields(fallback: Seq<TraceEvent>, ev: TraceEvent)
    ensures
        event_push(fallback, ev).len() > 0,
        event_push(fallback, ev).last() == ev,
{
}

/// The same through a live ring buffer: an unbounded `consume_events`
/// returns the parsed ring-buffer records followed by the fallback
/// queue, so whatever the ring buffer held, the freshly emitted record
/// is still the youngest element of the result.
pub proof fn lemma_emit_then_consume_yields_ringbuf(
    ringbuf: Seq<TraceEvent>,
    fallback: Seq<TraceEvent>,
    ev: TraceEvent,
)
    ensures
        (ringbuf + event_push(fallback, ev)).len() > 0,
        (ringbuf + event_push(fallback, ev)).last() == ev,
{
    assert((ringbuf + event_push(fallback, ev)).last() == event_push(fallback, ev).last());
}

/// A little-endian field read within a parsed record fits its width.
proof fn lemma_le_fits(data: Seq<u8>, off: int, n: nat)
    requires
        0 <= off,
        off + n <= data.len(),
        n <= 8,
    ensures
        le_bytes_to_nat(data.subrange(off, off + n)) < pow256(n),
{
    crate::bytes::lemma_le_bytes_bound(data.subrange(off, off + n));
}

/// Event record serialisation is size-preserving and parses back to the
/// record it came from: the wire format loses nothing.
pub proof fn lemma_event_round_trip(e: TraceEvent)
    ensures
        event_bytes(e).len() == 64,
        spec_parse_event(event_bytes(e)) == e,
{
    reveal_with_fuel(pow256, 9);
    lemma_le_roundtrip(e.timestamp_ns as nat, 8);
    lemma_le_roundtrip(e.vm_id as nat, 2);
    lemma_le_roundtrip(e.event_id as nat, 4);
    lemma_le_roundtrip(e.name_offset as nat, 2);
    lemma_le_roundtrip(0, 4);
    lemma_le_roundtrip(e.args@[0] as nat, 8);
    lemma_le_roundtrip(e.args@[1] as nat, 8);
    lemma_le_roundtrip(e.args@[2] as nat, 8);
    lemma_le_roundtrip(e.args@[3] as nat, 8);
    lemma_le_roundtrip(e.duration_ns as nat, 8);
    let b = event_bytes(e);
    assert(b.len() == 64);
    assert(b.subrange(0, 8) =~= le_bytes_of(e.timestamp_ns as nat, 8));
    assert(b[8] == e.probe_type);
    assert(b[9] == e.cpu_id);
    assert(b.subrange(10, 12) =~= le_bytes_of(e.vm_id as nat, 2));
    assert(b.subrange(12, 16) =~= le_bytes_of(e.event_id as nat, 4));
    assert(b.subrange(16, 18) =~= le_bytes_of(e.name_offset as nat, 2));
    assert(b[18] == e.nr_args);
    assert(b[19] == e._pad);
    assert(b.subrange(24, 32) =~= le_bytes_of(e.args@[0] as nat, 8));
    assert(b.subrange(32, 40) =~= le_bytes_of(e.args@[1] as nat, 8));
    assert(b.subrange(40, 48) =~= le_bytes_of(e.args@[2] as nat, 8));
    assert(b.subrange(48, 56) =~= le_bytes_of(e.args@[3] as nat, 8));
    assert(b.subrange(56, 64) =~= le_bytes_of(e.duration_ns as nat, 8));
    vstd::arithmetic::div_mod::lemma_small_mod(e.timestamp_ns as nat, pow256(8));
    vstd::arithmetic::div_mod::lemma_small_mod(e.vm_id as nat, pow256(2));
    vstd::arithmetic::div_mod::lemma_small_mod(e.event_id as nat, pow256(4));
    vstd::arithmetic::div_mod::lemma_small_mod(e.name_offset as nat, pow256(2));
    vstd::arithmetic::div_mod::lemma_small_mod(e.args@[0] as nat, pow256(8));
    vstd::arithmetic::div_mod::lemma_small_mod(e.args@[1] as nat, pow256(8));
    vstd::arithmetic::div_mod::lemma_small_mod(e.args@[2] as nat, pow256(8));
    vstd::arithmetic::div_mod::lemma_small_mod(e.args@[3] as nat, pow256(8));
    vstd::arithmetic::div_mod::lemma_small_mod(e.duration_ns as nat, pow256(8));
    let p = spec_parse_event(b);
    assert(p.timestamp_ns == e.timestamp_ns);
    assert(p.vm_id == e.vm_id);
    assert(p.event_id == e.event_id);
    assert(p.name_offset == e.name_offset);
    assert(p.args@ =~= e.args@);
    assert(p.args == e.args);
    assert(p.duration_ns == e.duration_ns);
}

} // verus!
