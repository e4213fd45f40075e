//! Host probe trap dispatcher: bridges breakpoint traps to the probe
//! registry, drives the out-of-line single-step return path, and emits
//! events for the hits.

use vstd::prelude::*;

use crate::attach::AttachRegistry;
use crate::event::{event_push, spec_register, EventPipeline, TraceEvent, PROBE_HPROBE,
    PROBE_HRETPROBE};
use crate::maps::MapStore;
use crate::platform::Platform;
use crate::probe::hprobe::manager::{
    spec_bump, spec_pair_enabled, spec_pair_prog, spec_pair_slot, KprobeEntry, KprobeRegistry,
};
use crate::runtime::ProgramStore;

verus! {

/// Trap sub-kind of the main breakpoint.
pub const KPROBES_BRK_IMM: u64 = 4;

/// Trap sub-kind of the single-step-complete breakpoint.
pub const KPROBES_BRK_SS_IMM: u64 = 6;

/// Per-CPU dispatcher state: the probed address saved between the main
/// breakpoint and the single-step completion, one per CPU.
pub struct BreakState {
    /// Saved original program counter per CPU id.
    pub original_pc: Vec<(u32, usize)>,
}

/// Whether a per-CPU list holds an entry for a CPU.
pub open spec fn cpu_contains(s: Seq<(u32, usize)>, cpu: u32) -> bool {
    exists|i: int| 0 <= i < s.len() && s[i].0 == cpu
}

/// The saved program counter of a CPU (meaningful when one is held).
pub open spec fn cpu_pc_of(s: Seq<(u32, usize)>, cpu: u32) -> usize {
    s[choose|i: int| 0 <= i < s.len() && s[i].0 == cpu].1
}

impl BreakState {
    /// CPU ids are pairwise distinct.
    pub open spec fn wf(&self) -> bool {
        forall|i: int, j: int|
            0 <= i < j < self.original_pc@.len() ==> self.original_pc@[i].0
                != self.original_pc@[j].0
    }

    /// The saved program counter of a CPU, or zero when none is saved.
    pub open spec fn saved_pc(&self, cpu: u32) -> usize {
        if cpu_contains(self.original_pc@, cpu) {
            cpu_pc_of(self.original_pc@, cpu)
        } else {
            0
        }
    }

    /// Fresh dispatcher state.
    pub fn new() -> (r: BreakState)
        ensures
            r.wf(),
            r.original_pc@.len() == 0,
    {
        BreakState { original_pc: Vec::new() }
    }

    /// Save the probed address before single-stepping on this CPU.
    pub fn save_original_pc(&mut self, cpu: u32, pc: usize)
        requires
            old(self).wf(),
        ensures
            final(self).wf(),
            final(self).saved_pc(cpu) == pc,
            forall|c: u32| c != cpu ==> final(self).saved_pc(c) == old(self).saved_pc(c),
    {
        let mut i: usize = 0;
        while i < self.original_pc.len()
            invariant
                i <= self.original_pc@.len(),
                self.original_pc@ == old(self).original_pc@,
                self.wf(),
                forall|j: int| 0 <= j < i ==> (#[trigger] self.original_pc@[j]).0 != cpu,
            decreases self.original_pc@.len() - i,
        {
            if self.original_pc[i].0 == cpu {
                let ghost s0 = self.original_pc@;
                let e = &mut self.original_pc[i];
                e.1 = pc;
                proof {
                    let s1 = self.original_pc@;
                    assert(forall|j: int| 0 <= j < s1.len() && j != i ==> s1[j] == s0[j]);
                    assert(forall|j: int|
                        0 <= j < s1.len() ==> (#[trigger] s1[j]).0 == s0[j].0);
                    assert(s1[i as int] == (cpu, pc));
                    let k = choose|k: int| 0 <= k < s1.len() && s1[k].0 == cpu;
                    if k != i as int {
                        assert(s0[k].0 == cpu);
                        assert(false);
                    }
                    assert forall|c: u32| c != cpu implies self.saved_pc(c) == old(
                        self,
                    ).saved_pc(c) by {
                        if cpu_contains(s1, c) {
                            let w = choose|w: int| 0 <= w < s1.len() && s1[w].0 == c;
                            assert(s0[w].0 == c);
                            assert(cpu_contains(s0, c));
                            let w0 = choose|w0: int| 0 <= w0 < s0.len() && s0[w0].0 == c;
                            if w0 != w {
                                assert(false);
                            }
                            assert(s1[w] == s0[w0]);
                        }
                        if cpu_contains(s0, c) {
                            let w = choose|w: int| 0 <= w < s0.len() && s0[w].0 == c;
                            assert(s1[w].0 == c);
                            assert(cpu_contains(s1, c));
                        }
                    }
                }
                return ;
            }
            i = i + 1;
        }
        let ghost s0 = self.original_pc@;
        self.original_pc.push((cpu, pc));
        proof {
            let s1 = self.original_pc@;
            assert(forall|j: int| 0 <= j < s0.len() ==> (#[trigger] s1[j]) == s0[j]);
            assert(s1[s1.len() - 1] == (cpu, pc));
            assert forall|x: int, y: int| 0 <= x < y < s1.len() implies s1[x].0 != s1[y].0 by {
                if y < s1.len() - 1 {
                    assert(s1[x] == s0[x] && s1[y] == s0[y]);
                } else {
                    assert(s1[x] == s0[x]);
                }
            }
            let k = choose|k: int| 0 <= k < s1.len() && s1[k].0 == cpu;
            if k != s1.len() - 1 {
                assert(s0[k].0 == cpu);
                assert(false);
            }
            assert forall|c: u32| c != cpu implies self.saved_pc(c) == old(self).saved_pc(
                c,
            ) by {
                if cpu_contains(s1, c) {
                    let w = choose|w: int| 0 <= w < s1.len() && s1[w].0 == c;
                    assert(w < s0.len());
                    assert(cpu_contains(s0, c));
                    let w0 = choose|w0: int| 0 <= w0 < s0.len() && s0[w0].0 == c;
                    if w0 != w {
                        assert(false);
                    }
                }
                if cpu_contains(s0, c) {
                    let w = choose|w: int| 0 <= w < s0.len() && s0[w].0 == c;
                    assert(s1[w].0 == c);
                }
            }
        }
    }

    /// The probed address saved on this CPU, or zero.
    pub fn get_original_pc(&self, cpu: u32) -> (r: usize)
        requires
            self.wf(),
        ensures
            r == self.saved_pc(cpu),
    {
        let mut i: usize = 0;
        while i < self.original_pc.len()
            invariant
                i <= self.original_pc@.len(),
                self.wf(),
                forall|j: int| 0 <= j < i ==> (#[trigger] self.original_pc@[j]).0 != cpu,
            decreases self.original_pc@.len() - i,
        {
            if self.original_pc[i].0 == cpu {
                proof {
                    let s = self.original_pc@;
                    let k = choose|k: int| 0 <= k < s.len() && s[k].0 == cpu;
                    if k != i as int {
                        assert(false);
                    }
                }
                return self.original_pc[i].1;
            }
            i = i + 1;
        }
        0
    }
}

/// The event record a host probe trap emits: stamped from the platform,
/// with no arguments.
pub open spec fn spec_host_event(
    platform: Platform,
    kind: u8,
    event_id: u32,
    name_offset: u16,
) -> TraceEvent {
    TraceEvent {
        timestamp_ns: platform.mock_time_ns,
        probe_type: kind,
        cpu_id: platform.mock_cpu_id as u8,
        vm_id: 0,
        event_id,
        name_offset,
        nr_args: 0,
        _pad: 0,
        args: [0u64, 0u64, 0u64, 0u64],
        duration_ns: 0,
    }
}

/// Outcome of a breakpoint trap: whether it was handled, and where the
/// trapping CPU must continue, when redirected.
pub struct BreakOutcome {
    /// Whether the trap belonged to a registered probe.
    pub handled: bool,
    /// The program counter to continue at, when redirected.
    pub new_pc: Option<usize>,
}

/// Dispatch one breakpoint trap.
///
/// A main-breakpoint trap at a registered address records the hits, runs
/// the bound program with the probe context, emits an entry event when an
/// entry slot is present, and redirects execution to the out-of-line
/// slot. A single-step-complete trap redirects back behind the probed
/// address and emits a return event when a return slot is present. Any
/// other sub-kind is not handled.
pub fn handle_breakpoint(
    registry: &mut KprobeRegistry,
    state: &mut BreakState,
    pipeline: &mut EventPipeline,
    maps: &mut MapStore,
    attachments: &AttachRegistry,
    progs: &ProgramStore,
    platform: &Platform,
    pc: usize,
    iss: u64,
    ctx: &mut Vec<u8>,
) -> (r: BreakOutcome)
    requires
        old(registry).wf(),
        old(state).wf(),
        old(pipeline).wf(),
        old(maps).wf(),
        attachments.wf(),
    ensures
        final(registry).wf(),
        final(state).wf(),
        final(pipeline).wf(),
        final(maps).wf(),
        iss != KPROBES_BRK_IMM && iss != KPROBES_BRK_SS_IMM ==> {
            &&& !r.handled
            &&& final(registry).probes@ == old(registry).probes@
            &&& final(pipeline).fallback@ == old(pipeline).fallback@
            &&& final(state).original_pc@ == old(state).original_pc@
        },
        iss == KPROBES_BRK_IMM ==> r.handled == (old(registry).has_pair(pc)
            && spec_pair_enabled(old(registry).probes@[old(registry).pair_at(pc)].1)),
        iss == KPROBES_BRK_IMM && r.handled ==> ({
            let i = old(registry).pair_at(pc);
            let e0 = old(registry).probes@[i].1;
            &&& (forall|j: int|
                0 <= j < final(registry).probes@.len() && j != i ==> final(registry).probes@[j]
                    == old(registry).probes@[j])
            &&& final(registry).probes@[i].1 == (KprobeEntry {
                entry_slot: spec_bump(e0.entry_slot),
                ret_slot: spec_bump(e0.ret_slot),
                ..e0
            })
            &&& final(state).saved_pc(platform.mock_cpu_id) == pc
            &&& r.new_pc == spec_pair_slot(e0)
        }),
        iss == KPROBES_BRK_SS_IMM ==> ({
            let pc0 = old(state).saved_pc(platform.mock_cpu_id);
            &&& r.handled == (pc0 != 0 && pc0 <= usize::MAX - 4)
            &&& (r.handled ==> r.new_pc == Some((pc0 + 4) as usize))
            &&& final(registry).probes@ == old(registry).probes@
        }),
{
    if iss == KPROBES_BRK_IMM {
        handle_main_breakpoint(registry, state, pipeline, maps, attachments, progs, platform,
            pc, ctx)
    } else if iss == KPROBES_BRK_SS_IMM {
        handle_single_step_complete(registry, state, pipeline, maps, attachments, progs,
            platform, pc)
    } else {
        BreakOutcome { handled: false, new_pc: None }
    }
}

/// Handle the main breakpoint at a probed address: the trap is handled
/// exactly when an enabled probe pair sits there; both slot hit counters
/// advance, an entry event lands in the pipeline when an entry slot is
/// present, the probed address is saved for the single-step return, and
/// execution is redirected to the pair's out-of-line slot.
fn handle_main_breakpoint(
    registry: &mut KprobeRegistry,
    state: &mut BreakState,
    pipeline: &mut EventPipeline,
    maps: &mut MapStore,
    attachments: &AttachRegistry,
    progs: &ProgramStore,
    platform: &Platform,
    pc: usize,
    ctx: &mut Vec<u8>,
) -> (r: BreakOutcome)
    requires
        old(registry).wf(),
        old(state).wf(),
        old(pipeline).wf(),
        old(maps).wf(),
        attachments.wf(),
    ensures
        final(registry).wf(),
        final(state).wf(),
        final(pipeline).wf(),
        final(maps).wf(),
        r.handled == (old(registry).has_pair(pc) && spec_pair_enabled(
            old(registry).probes@[old(registry).pair_at(pc)].1,
        )),
        !r.handled ==> final(registry).probes@ == old(registry).probes@ && final(pipeline)
            .fallback@ == old(pipeline).fallback@ && final(state).original_pc@ == old(
            state,
        ).original_pc@,
        r.handled ==> ({
            let i = old(registry).pair_at(pc);
            let e0 = old(registry).probes@[i].1;
            &&& (forall|j: int|
                0 <= j < final(registry).probes@.len() && j != i ==> final(registry).probes@[j]
                    == old(registry).probes@[j])
            &&& final(registry).probes@[i].1 == (KprobeEntry {
                entry_slot: spec_bump(e0.entry_slot),
                ret_slot: spec_bump(e0.ret_slot),
                ..e0
            })
            &&& final(state).saved_pc(platform.mock_cpu_id) == pc
            &&& r.new_pc == spec_pair_slot(e0)
            &&& (e0.entry_slot is Some && pc <= u32::MAX ==> final(pipeline).fallback@
                == event_push(
                old(pipeline).fallback@,
                spec_host_event(
                    *platform,
                    PROBE_HPROBE,
                    pc as u32,
                    spec_register(old(pipeline).table(), "hprobe"@).0,
                ),
            ))
            &&& (!(e0.entry_slot is Some && pc <= u32::MAX) ==> final(pipeline).fallback@
                == old(pipeline).fallback@)
        }),
{
    match registry.lookup(pc) {
        Some(enabled) => {
            if !enabled {
                return BreakOutcome { handled: false, new_pc: None };
            }
        },
        None => {
            return BreakOutcome { handled: false, new_pc: None };
        },
    }
    let ghost e0 = registry.probes@[registry.pair_at(pc)].1;
    let (entry_hit, _ret_hit) = registry.record_break_hit(pc);
    match registry.lookup_prog_id(pc) {
        Some(prog_id) => {
            let _ = progs.run_program(prog_id, Some(ctx));
        },
        None => {},
    }
    if entry_hit {
        if pc <= u32::MAX as usize {
            let mut ev = TraceEvent::new(platform, PROBE_HPROBE, pc as u32);
            ev.name_offset = pipeline.register_event_name("hprobe");
            proof {
                let want = spec_host_event(*platform, PROBE_HPROBE, pc as u32, ev.name_offset);
                assert(ev.args@ =~= want.args@);
                assert(ev.args == want.args);
                assert(ev == want);
            }
            pipeline.emit_event(maps, attachments, progs, &ev);
        }
    }
    state.save_original_pc(platform.cpu_id(), pc);
    // Continue at the out-of-line slot holding the original instruction.
    let slot = slot_of(registry, pc);
    proof {
        let i = old(registry).pair_at(pc);
        assert(registry.probes@[i].0 == pc);
        let k = registry.pair_at(pc);
        assert(0 <= k < registry.probes@.len() && registry.probes@[k].0 == pc);
        if k != i {
            assert(false);
        }
        assert(spec_pair_slot(registry.probes@[i].1) == spec_pair_slot(e0));
    }
    BreakOutcome { handled: true, new_pc: slot }
}

/// The out-of-line slot bound to the probe at an address.
fn slot_of(registry: &KprobeRegistry, pc: usize) -> (r: Option<usize>)
    requires
        registry.wf(),
    ensures
        r == if registry.has_pair(pc) {
            spec_pair_slot(registry.probes@[registry.pair_at(pc)].1)
        } else {
            None::<usize>
        },
{
    let mut i: usize = 0;
    while i < registry.probes.len()
        invariant
            i <= registry.probes@.len(),
            registry.wf(),
            forall|j: int| 0 <= j < i ==> (#[trigger] registry.probes@[j]).0 != pc,
        decreases registry.probes@.len() - i,
    {
        if registry.probes[i].0 == pc {
            proof {
                let k = registry.pair_at(pc);
                assert(0 <= k < registry.probes@.len() && registry.probes@[k].0 == pc);
                if k != i as int {
                    assert(false);
                }
            }
            let e = &registry.probes[i].1;
            match &e.entry_slot {
                Some(s) => {
                    match s.slot_addr {
                        Some(a) => {
                            return Some(a);
                        },
                        None => {},
                    }
                },
                None => {},
            }
            match &e.ret_slot {
                Some(s) => {
                    return s.slot_addr;
                },
                None => {},
            }
            return None;
        }
        i = i + 1;
    }
    None
}

/// Handle the single-step-complete breakpoint inside the slot region:
/// redirect behind the probed address saved on this CPU and emit a return
/// event when the probed pair has a return slot.
fn handle_single_step_complete(
    registry: &mut KprobeRegistry,
    state: &mut BreakState,
    pipeline: &mut EventPipeline,
    maps: &mut MapStore,
    attachments: &AttachRegistry,
    progs: &ProgramStore,
    platform: &Platform,
    _pc: usize,
) -> (r: BreakOutcome)
    requires
        old(registry).wf(),
        old(state).wf(),
        old(pipeline).wf(),
        old(maps).wf(),
        attachments.wf(),
    ensures
        final(registry).wf(),
        final(state).wf(),
        final(pipeline).wf(),
        final(maps).wf(),
        final(registry).probes@ == old(registry).probes@,
        final(state).original_pc@ == old(state).original_pc@,
        ({
            let pc0 = old(state).saved_pc(platform.mock_cpu_id);
            let ret_present = pc0 != 0 && old(registry).has_pair(pc0) && old(
                registry,
            ).probes@[old(registry).pair_at(pc0)].1.ret_slot is Some && pc0 <= u32::MAX;
            &&& r.handled == (pc0 != 0 && pc0 <= usize::MAX - 4)
            &&& (r.handled ==> r.new_pc == Some((pc0 + 4) as usize))
            &&& (ret_present ==> final(pipeline).fallback@ == event_push(
                old(pipeline).fallback@,
                spec_host_event(
                    *platform,
                    PROBE_HRETPROBE,
                    pc0 as u32,
                    spec_register(old(pipeline).table(), "hretprobe"@).0,
                ),
            ))
            &&& (!ret_present ==> final(pipeline).fallback@ == old(pipeline).fallback@)
        }),
{
    let original_pc = state.get_original_pc(platform.cpu_id());
    if original_pc == 0 {
        return BreakOutcome { handled: false, new_pc: None };
    }
    let ret_present = registry.has_ret_slot(original_pc);
    if ret_present {
        if original_pc <= u32::MAX as usize {
            let mut ev = TraceEvent::new(platform, PROBE_HRETPROBE, original_pc as u32);
            ev.name_offset = pipeline.register_event_name("hretprobe");
            proof {
                let want = spec_host_event(
                    *platform,
                    PROBE_HRETPROBE,
                    original_pc as u32,
                    ev.name_offset,
                );
                assert(ev.args@ =~= want.args@);
                assert(ev.args == want.args);
                assert(ev == want);
            }
            pipeline.emit_event(maps, attachments, progs, &ev);
        }
    }
    if original_pc > usize::MAX - 4 {
        return BreakOutcome { handled: false, new_pc: None };
    }
    BreakOutcome { handled: true, new_pc: Some(original_pc + 4) }
}

/// Emit one return-probe event for a probed address.
pub fn emit_hretprobe_event(
    pipeline: &mut EventPipeline,
    maps: &mut MapStore,
    attachments: &AttachRegistry,
    progs: &ProgramStore,
    platform: &Platform,
    probe_addr: u32,
    retval: u64,
)
    requires
        old(pipeline).wf(),
        old(maps).wf(),
        attachments.wf(),
    ensures
        final(pipeline).wf(),
        final(maps).wf(),
        final(pipeline).has_stats(probe_addr),
        final(pipeline).table() == spec_register(old(pipeline).table(), "hretprobe"@).1,
        ({
            let off = spec_register(old(pipeline).table(), "hretprobe"@).0;
            off != crate::event::NAME_OFFSET_SENTINEL ==> off < final(pipeline).table().len()
                && final(pipeline).table()[off as int] == "hretprobe"@
        }),
        final(pipeline).fallback@ == event_push(
            old(pipeline).fallback@,
            (TraceEvent {
                nr_args: 1,
                args: [retval, 0u64, 0u64, 0u64],
                ..spec_host_event(
                    *platform,
                    PROBE_HRETPROBE,
                    probe_addr,
                    spec_register(old(pipeline).table(), "hretprobe"@).0,
                )
            }),
        ),
{
    let mut ev = TraceEvent::new(platform, PROBE_HRETPROBE, probe_addr);
    proof {
        crate::event::lemma_register_idempotent(pipeline.table(), "hretprobe"@);
    }
    ev.name_offset = pipeline.register_event_name("hretprobe");
    ev.nr_args = 1;
    ev.args[0] = retval;
    proof {
        let want = TraceEvent {
            nr_args: 1,
            args: [retval, 0u64, 0u64, 0u64],
            ..spec_host_event(*platform, PROBE_HRETPROBE, probe_addr, ev.name_offset)
        };
        assert(ev.args@ =~= want.args@);
        assert(ev.args == want.args);
        assert(ev == want);
    }
    pipeline.emit_event(maps, attachments, progs, &ev);
}

} // verus!
