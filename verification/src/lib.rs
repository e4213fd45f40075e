//! In-hypervisor eBPF tracing core: typed maps, a bytecode loader and
//! relocator, probe lifecycle management for host and guest probes, guest
//! address translation, and an ordered event pipeline with built-in
//! statistics.
//!
//! All registries are explicit values: callers construct the stores once at
//! boot and thread `&mut` references through the operations, so every state
//! transition is visible in a function signature.

#![verifier::loop_isolation(false)]

pub mod assoc;
pub mod attach;
pub mod bytes;
pub mod context;
pub mod event;
pub mod helpers;
pub mod insn_slot;
pub mod maps;
pub mod page_table;
pub mod platform;
pub mod probe;
pub mod programs;
pub mod runtime;
pub mod symbols;
pub mod tracepoint;
pub mod tracepoints;

use vstd::prelude::*;

use crate::attach::AttachRegistry;
use crate::event::EventPipeline;
use crate::insn_slot::SlotPool;
use crate::maps::MapStore;
use crate::page_table::KernelText;
use crate::platform::Platform;
use crate::probe::hprobe::handler::BreakState;
use crate::probe::hprobe::manager::KprobeRegistry;
use crate::probe::kprobe::addr_translate::Translator;
use crate::probe::kprobe::manager::{GuestKprobeRegistry, GuestMemory, Stage2};
use crate::runtime::ProgramStore;
use crate::symbols::{SymbolEntry, SymbolTable};
use crate::tracepoint::TracepointManager;
use crate::tracepoints::registry::TracepointRegistry;
use crate::tracepoints::stats::StatsManager;

verus! {

/// The whole tracing subsystem as one value, built once at boot in
/// dependency order: platform first, then maps, programs, probes and the
/// event pipeline.
pub struct Axebpf {
    /// Monotonic time and CPU identity.
    pub platform: Platform,
    /// The map registry.
    pub maps: MapStore,
    /// The program registry.
    pub programs: ProgramStore,
    /// The attachment registry.
    pub attachments: AttachRegistry,
    /// The event pipeline.
    pub pipeline: EventPipeline,
    /// The static tracepoint manager.
    pub tracepoints: TracepointManager,
    /// The static tracepoint id and name table.
    pub tracepoint_registry: TracepointRegistry,
    /// Built-in per-tracepoint statistics.
    pub stats: StatsManager,
    /// The host probe registry.
    pub hprobes: KprobeRegistry,
    /// Host probe dispatcher state.
    pub break_state: BreakState,
    /// The guest probe registry.
    pub guest_probes: GuestKprobeRegistry,
    /// Guest address translation backends.
    pub translator: Translator,
    /// The Stage-2 execute-permission backend.
    pub stage2: Stage2,
    /// Guest text words seen from the host.
    pub guest_memory: GuestMemory,
    /// The host's own text.
    pub kernel_text: KernelText,
    /// The out-of-line instruction slot pool.
    pub slot_pool: SlotPool,
    /// The host symbol table.
    pub symbols: SymbolTable,
}

/// Initialise the subsystem without a symbol table: host probes can then
/// only be registered at explicit addresses.
pub fn init(slot_pool_base: usize) -> (r: Axebpf)
    requires
        slot_pool_base + 2048 <= usize::MAX,
    ensures
        r.maps.wf(),
        r.attachments.wf(),
        r.pipeline.wf(),
        r.hprobes.wf(),
        r.guest_probes.wf(),
        r.kernel_text.wf(),
        r.slot_pool.wf(),
        r.stats.wf(),
        r.symbols.wf(),
        !r.symbols.initialized,
{
    Axebpf {
        platform: Platform::new(),
        maps: MapStore::new(),
        programs: ProgramStore::new(),
        attachments: AttachRegistry::new(),
        pipeline: EventPipeline::new(),
        tracepoints: TracepointManager::init(),
        tracepoint_registry: TracepointRegistry::init(),
        stats: StatsManager::new(),
        hprobes: KprobeRegistry::new(),
        break_state: BreakState::new(),
        guest_probes: GuestKprobeRegistry::new(),
        translator: Translator::new(),
        stage2: Stage2::new(),
        guest_memory: GuestMemory::new(),
        kernel_text: KernelText::new(),
        slot_pool: SlotPool::new(slot_pool_base),
        symbols: SymbolTable::new(),
    }
}

/// Initialise the subsystem with the host symbol table loaded, so that
/// host probes can be registered by symbol name.
pub fn init_with_symbols(slot_pool_base: usize, records: Vec<SymbolEntry>) -> (r: Axebpf)
    requires
        slot_pool_base + 2048 <= usize::MAX,
    ensures
        r.maps.wf(),
        r.attachments.wf(),
        r.pipeline.wf(),
        r.hprobes.wf(),
        r.guest_probes.wf(),
        r.kernel_text.wf(),
        r.slot_pool.wf(),
        r.stats.wf(),
        r.symbols.wf(),
        r.symbols.initialized,
{
    let mut system = init(slot_pool_base);
    let _ = system.symbols.init(records);
    system
}

} // verus!
