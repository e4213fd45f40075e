//! The numbered helper surface exposed to loaded programs: map access,
//! time, CPU id, inspection reads and name lookup, over the shared lookup
//! and name scratch buffers.

use vstd::prelude::*;

use crate::bytes::le_bytes_to_nat;
use crate::maps::{spec_lookup, MapStore};
use crate::platform::Platform;
use crate::tracepoints::registry::TracepointRegistry;

verus! {

/// Helper number: map element lookup.
pub const MAP_LOOKUP_ELEM: u32 = 1;

/// Helper number: map element update.
pub const MAP_UPDATE_ELEM: u32 = 2;

/// Helper number: map element delete.
pub const MAP_DELETE_ELEM: u32 = 3;

/// Helper number: best-effort inspection read.
pub const PROBE_READ: u32 = 4;

/// Helper number: monotonic nanoseconds.
pub const KTIME_GET_NS: u32 = 5;

/// Helper number: diagnostic write.
pub const TRACE_PRINTK: u32 = 6;

/// Helper number: current CPU id.
pub const GET_SMP_PROCESSOR_ID: u32 = 8;

/// Helper number: event name lookup.
pub const GET_TRACEPOINT_NAME: u32 = 10;

/// Helper number: kernel-flavoured inspection read.
pub const PROBE_READ_KERNEL: u32 = 113;

/// Byte capacity of the shared lookup buffer.
pub const MAX_VALUE_SIZE: usize = 512;

/// Byte capacity of the shared name buffer.
pub const MAX_NAME_SIZE: usize = 64;

/// The helper a number dispatches to.
#[derive(Debug, Clone, Copy, PartialEq, Eq, Structural)]
pub enum HelperKind {
    /// Map element lookup.
    MapLookupElem,
    /// Map element update.
    MapUpdateElem,
    /// Map element delete.
    MapDeleteElem,
    /// Best-effort inspection read.
    ProbeRead,
    /// Monotonic nanoseconds.
    KtimeGetNs,
    /// Diagnostic write.
    TracePrintk,
    /// Current CPU id.
    GetSmpProcessorId,
    /// Event name lookup.
    GetTracepointName,
}

/// The helper registered under a number, if any.
pub fn get_helper(id: u32) -> (r: Option<HelperKind>)
    ensures
        id == 1 ==> r == Some(HelperKind::MapLookupElem),
        id == 2 ==> r == Some(HelperKind::MapUpdateElem),
        id == 3 ==> r == Some(HelperKind::MapDeleteElem),
        id == 4 ==> r == Some(HelperKind::ProbeRead),
        id == 5 ==> r == Some(HelperKind::KtimeGetNs),
        id == 6 ==> r == Some(HelperKind::TracePrintk),
        id == 8 ==> r == Some(HelperKind::GetSmpProcessorId),
        id == 10 ==> r == Some(HelperKind::GetTracepointName),
        id == 113 ==> r == Some(HelperKind::ProbeRead),
        !(id == 1 || id == 2 || id == 3 || id == 4 || id == 5 || id == 6 || id == 8 || id == 10
            || id == 113) ==> r is None,
{
    if id == 1 {
        Some(HelperKind::MapLookupElem)
    } else if id == 2 {
        Some(HelperKind::MapUpdateElem)
    } else if id == 3 {
        Some(HelperKind::MapDeleteElem)
    } else if id == 4 || id == 113 {
        Some(HelperKind::ProbeRead)
    } else if id == 5 {
        Some(HelperKind::KtimeGetNs)
    } else if id == 6 {
        Some(HelperKind::TracePrintk)
    } else if id == 8 {
        Some(HelperKind::GetSmpProcessorId)
    } else if id == 10 {
        Some(HelperKind::GetTracepointName)
    } else {
        None
    }
}

/// The numbers of every registered helper.
pub fn supported_helpers() -> (r: Vec<u32>)
    ensures
        r@ =~= seq![1u32, 2u32, 3u32, 4u32, 5u32, 6u32, 8u32, 10u32, 113u32],
{
    let mut v: Vec<u32> = Vec::new();
    v.push(1);
    v.push(2);
    v.push(3);
    v.push(4);
    v.push(5);
    v.push(6);
    v.push(8);
    v.push(10);
    v.push(113);
    proof {
        assert(v@ =~= seq![1u32, 2u32, 3u32, 4u32, 5u32, 6u32, 8u32, 10u32, 113u32]);
    }
    v
}

/// The shared scratch areas the virtual machine is told about: the lookup
/// buffer of the last looked-up value and the NUL-terminated name buffer.
pub struct HelperState {
    /// The lookup buffer.
    pub lookup_buffer: Vec<u8>,
    /// The name buffer.
    pub name_buffer: Vec<u8>,
}

impl HelperState {
    /// Both buffers at their fixed sizes, zeroed.
    pub fn new() -> (r: HelperState)
        ensures
            r.lookup_buffer@.len() == MAX_VALUE_SIZE,
            r.name_buffer@.len() == MAX_NAME_SIZE,
    {
        let mut lb: Vec<u8> = Vec::new();
        let mut i: usize = 0;
        while i < MAX_VALUE_SIZE
            invariant
                lb@.len() == i,
                i <= MAX_VALUE_SIZE,
            decreases MAX_VALUE_SIZE - i,
        {
            lb.push(0);
            i = i + 1;
        }
        let mut nb: Vec<u8> = Vec::new();
        let mut j: usize = 0;
        while j < MAX_NAME_SIZE
            invariant
                nb@.len() == j,
                j <= MAX_NAME_SIZE,
            decreases MAX_NAME_SIZE - j,
        {
            nb.push(0);
            j = j + 1;
        }
        HelperState { lookup_buffer: lb, name_buffer: nb }
    }
}

/// Map lookup helper: copy the found value into the lookup buffer and
/// report whether one was found. The buffer's contents are valid only
/// until the next helper call that writes it.
pub fn bpf_map_lookup_elem(state: &mut HelperState, maps: &mut MapStore, map_fd: u32,
    key: &[u8]) -> (r: u64)
    requires
        old(maps).wf(),
        old(state).lookup_buffer@.len() == MAX_VALUE_SIZE,
    ensures
        final(maps).wf(),
        final(state).lookup_buffer@.len() == MAX_VALUE_SIZE,
        final(state).name_buffer@ == old(state).name_buffer@,
        old(maps).live(map_fd) ==> {
            let (found, _) = spec_lookup(old(maps).map_at(map_fd), key@);
            &&& (r == 1 <==> found is Some)
            &&& (found is Some && found->Some_0.len() <= MAX_VALUE_SIZE ==> {
                &&& final(state).lookup_buffer@.subrange(0, found->Some_0.len() as int)
                    == found->Some_0
            })
        },
        !old(maps).live(map_fd) ==> r == 0,
{
    match maps.lookup_elem(map_fd, key) {
        Some(value) => {
            let n = if value.len() < MAX_VALUE_SIZE {
                value.len()
            } else {
                MAX_VALUE_SIZE
            };
            let mut k: usize = 0;
            while k < n
                invariant
                    k <= n,
                    n <= value@.len(),
                    n <= MAX_VALUE_SIZE,
                    state.lookup_buffer@.len() == MAX_VALUE_SIZE,
                    state.name_buffer@ == old(state).name_buffer@,
                    forall|j: int| 0 <= j < k ==> state.lookup_buffer@[j] == value@[j],
                decreases n - k,
            {
                state.lookup_buffer.set(k, value[k]);
                k = k + 1;
            }
            proof {
                if value@.len() <= MAX_VALUE_SIZE {
                    assert(state.lookup_buffer@.subrange(0, value@.len() as int) =~= value@);
                }
            }
            1
        },
        None => 0,
    }
}

/// Map update helper: zero on success, the two's-complement widening of
/// minus one otherwise.
pub fn bpf_map_update_elem(maps: &mut MapStore, map_fd: u32, key: &[u8], value: &[u8],
    flags: u64) -> (r: u64)
    requires
        old(maps).wf(),
    ensures
        final(maps).wf(),
        old(maps).live(map_fd) ==> {
            let (res, v2) = crate::maps::spec_update(old(maps).map_at(map_fd), key@, value@,
                flags);
            &&& (r == 0 <==> res is Ok)
            &&& (r == 0 || r == u64::MAX)
            &&& final(maps)@ == old(maps)@.update(map_fd as int, Some(v2))
        },
        !old(maps).live(map_fd) ==> r == u64::MAX && final(maps)@ == old(maps)@,
{
    match maps.update_elem(map_fd, key, value, flags) {
        Ok(()) => 0,
        Err(_) => u64::MAX,
    }
}

/// Map delete helper: zero on success, minus one otherwise.
pub fn bpf_map_delete_elem(maps: &mut MapStore, map_fd: u32, key: &[u8]) -> (r: u64)
    requires
        old(maps).wf(),
    ensures
        final(maps).wf(),
        old(maps).live(map_fd) ==> {
            let (res, v2) = crate::maps::spec_delete(old(maps).map_at(map_fd), key@);
            &&& (r == 0 <==> res is Ok)
            &&& final(maps)@ == old(maps)@.update(map_fd as int, Some(v2))
        },
        !old(maps).live(map_fd) ==> r == u64::MAX && final(maps)@ == old(maps)@,
{
    match maps.delete_elem(map_fd, key) {
        Ok(()) => 0,
        Err(_) => u64::MAX,
    }
}

/// The little-endian value the lookup buffer's prefix holds, for callers
/// that read a numeric value back.
pub fn lookup_buffer_value(state: &HelperState, n: usize) -> (r: u64)
    requires
        n <= 8,
        n <= state.lookup_buffer@.len(),
    ensures
        r as nat == le_bytes_to_nat(state.lookup_buffer@.subrange(0, n as int)),
{
    crate::bytes::read_le(state.lookup_buffer.as_slice(), 0, n)
}

/// Time helper: the current monotonic nanoseconds.
pub fn bpf_ktime_get_ns(platform: &Platform) -> (r: u64)
    ensures
        r == platform.mock_time_ns,
{
    platform.time_ns()
}

/// CPU helper: the current CPU id.
pub fn bpf_get_smp_processor_id(platform: &Platform) -> (r: u64)
    ensures
        r == platform.mock_cpu_id as u64,
{
    platform.cpu_id() as u64
}

/// Diagnostic helper: always reports success; the sink is outside this
/// library.
pub fn bpf_trace_printk(_r1: u64, _r2: u64, _r3: u64) -> (r: u64)
    ensures
        r == 0,
{
    0
}

/// Inspection-read size validation: a read must cover one to 4096 bytes.
/// The copy itself acts on raw host memory outside this library.
pub fn probe_read_size_ok(size: u64) -> (r: u64)
    ensures
        r == 0 <==> 1 <= size <= 4096,
        r == 0 || r == u64::MAX,
{
    if size == 0 || size > 4096 {
        u64::MAX
    } else {
        0
    }
}

/// Name helper: copy a tracepoint's name into the name buffer,
/// NUL-terminated and truncated to the buffer; reports whether the id was
/// known.
pub fn bpf_get_tracepoint_name(state: &mut HelperState, registry: &TracepointRegistry,
    id: u32) -> (r: u64)
    requires
        registry.wf(),
        old(state).name_buffer@.len() == MAX_NAME_SIZE,
    ensures
        final(state).name_buffer@.len() == MAX_NAME_SIZE,
        final(state).lookup_buffer@ == old(state).lookup_buffer@,
        r == 0 || r == 1,
{
    let name = match registry.get_name(id) {
        Some(n) => n,
        None => {
            return 0;
        },
    };
    let bytes = name.as_str().as_bytes();
    let n = if bytes.len() < MAX_NAME_SIZE - 1 {
        bytes.len()
    } else {
        MAX_NAME_SIZE - 1
    };
    let mut k: usize = 0;
    while k < n
        invariant
            k <= n,
            n <= bytes@.len(),
            n < MAX_NAME_SIZE,
            state.name_buffer@.len() == MAX_NAME_SIZE,
            state.lookup_buffer@ == old(state).lookup_buffer@,
        decreases n - k,
    {
        state.name_buffer.set(k, bytes[k]);
        k = k + 1;
    }
    state.name_buffer.set(n, 0);
    1
}

} // verus!
