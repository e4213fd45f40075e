//! Guest probe trigger handling: Stage-2 execute faults and guest
//! breakpoint traps, matched against the guest probe registry, with
//! stale-trap recovery for recently detached breakpoint probes.

use vstd::prelude::*;

use crate::attach::AttachRegistry;
use crate::event::{event_push, EventPipeline, TraceEvent, PROBE_KPROBE, PROBE_KRETPROBE};
use crate::maps::MapStore;
use crate::platform::Platform;
use crate::probe::kprobe::manager::{GuestKprobeRegistry, GuestMemory};
use crate::runtime::ProgramStore;

verus! {

/// Outcome of a guest breakpoint trap.
#[derive(Debug, Clone, Copy, PartialEq, Eq, Structural)]
pub enum GuestBrkHandleResult {
    /// The trap matched an enabled probe, which has been serviced.
    ProbeHit,
    /// A stale record absorbed the trap; the guest must retry the
    /// instruction at the same program counter.
    RetryInstruction,
    /// The trap belongs to nobody this registry knows.
    Unhandled,
}

/// The event record a guest probe trigger emits.
pub open spec fn spec_guest_event(
    platform: Platform,
    vm_id: u32,
    pc_or_gva: u64,
    is_ret: bool,
    name_offset: u16,
    arg0: u64,
    arg1: u64,
) -> TraceEvent {
    TraceEvent {
        timestamp_ns: platform.mock_time_ns,
        probe_type: if is_ret {
            PROBE_KRETPROBE
        } else {
            PROBE_KPROBE
        },
        cpu_id: platform.mock_cpu_id as u8,
        vm_id: (vm_id % 0x1_0000) as u16,
        event_id: (pc_or_gva % 0x1_0000_0000) as u32,
        name_offset,
        nr_args: 2,
        _pad: 0,
        args: [arg0, arg1, 0, 0],
        duration_ns: 0,
    }
}

/// Emit one guest probe event: the record lands at the end of the
/// fallback queue under the `kprobe` or `kretprobe` event name.
fn emit_guest_event(
    pipeline: &mut EventPipeline,
    maps: &mut MapStore,
    attachments: &AttachRegistry,
    progs: &ProgramStore,
    platform: &Platform,
    vm_id: u32,
    pc_or_gva: u64,
    is_ret: bool,
    arg0: u64,
    arg1: u64,
)
    requires
        old(pipeline).wf(),
        old(maps).wf(),
        attachments.wf(),
    ensures
        final(pipeline).wf(),
        final(maps).wf(),
        final(pipeline).fallback@ == event_push(
            old(pipeline).fallback@,
            spec_guest_event(
                *platform,
                vm_id,
                pc_or_gva,
                is_ret,
                crate::event::spec_register(
                    old(pipeline).table(),
                    if is_ret {
                        "kretprobe"@
                    } else {
                        "kprobe"@
                    },
                ).0,
                arg0,
                arg1,
            ),
        ),
{
    let event_id = (pc_or_gva % 0x1_0000_0000) as u32;
    let kind = if is_ret {
        PROBE_KRETPROBE
    } else {
        PROBE_KPROBE
    };
    let mut ev = TraceEvent::new(platform, kind, event_id);
    ev.vm_id = (vm_id % 0x1_0000) as u16;
    ev.name_offset = if is_ret {
        pipeline.register_event_name("kretprobe")
    } else {
        pipeline.register_event_name("kprobe")
    };
    ev.nr_args = 2;
    ev.args[0] = arg0;
    ev.args[1] = arg1;
    proof {
        let want = spec_guest_event(
            *platform,
            vm_id,
            pc_or_gva,
            is_ret,
            ev.name_offset,
            arg0,
            arg1,
        );
        assert(ev.args@ =~= want.args@);
        assert(ev.args == want.args);
        assert(ev == want);
    }
    pipeline.emit_event(maps, attachments, progs, &ev);
}

/// Handle a Stage-2 execute fault: a fault matching an enabled probe is
/// handled — the hit is recorded, a guest-probe event lands in the
/// pipeline and the bound program runs. A data fault or an unmatched
/// fault is left to the caller's fault path.
pub fn handle_stage2_exec_fault(
    registry: &mut GuestKprobeRegistry,
    pipeline: &mut EventPipeline,
    maps: &mut MapStore,
    attachments: &AttachRegistry,
    progs: &ProgramStore,
    platform: &Platform,
    vm_id: u32,
    gpa: u64,
    gva: u64,
    is_exec: bool,
) -> (r: bool)
    requires
        old(registry).wf(),
        old(pipeline).wf(),
        old(maps).wf(),
        attachments.wf(),
    ensures
        final(registry).wf(),
        final(pipeline).wf(),
        final(maps).wf(),
        r == (is_exec && old(registry).spec_enabled_probe(vm_id, gva) is Some),
        !r ==> {
            &&& final(registry).probes@ == old(registry).probes@
            &&& final(pipeline).fallback@ == old(pipeline).fallback@
            &&& final(maps)@ == old(maps)@
        },
        final(registry).stale@ == old(registry).stale@,
        r ==> {
            let i = old(registry).spec_hit_index(vm_id, gva);
            let e0 = old(registry).probes@[i].1;
            &&& (forall|j: int|
                0 <= j < final(registry).probes@.len() && j != i ==> final(registry).probes@[j]
                    == old(registry).probes@[j])
            &&& final(registry).probes@[i].1.hits == (if e0.hits < u64::MAX {
                e0.hits + 1
            } else {
                u64::MAX as int
            })
            &&& final(pipeline).fallback@ == event_push(
                old(pipeline).fallback@,
                spec_guest_event(
                    *platform,
                    vm_id,
                    gva,
                    old(registry).spec_enabled_probe(vm_id, gva)->Some_0.1,
                    crate::event::spec_register(
                        old(pipeline).table(),
                        if old(registry).spec_enabled_probe(vm_id, gva)->Some_0.1 {
                            "kretprobe"@
                        } else {
                            "kprobe"@
                        },
                    ).0,
                    gva,
                    gpa,
                ),
            )
        },
{
    if !is_exec {
        return false;
    }
    match registry.lookup_enabled(vm_id, gva) {
        Some((prog_id, is_ret)) => {
            let _ = registry.record_probe_hit(vm_id, gva);
            emit_guest_event(pipeline, maps, attachments, progs, platform, vm_id, gva,
                is_ret, gva, gpa);
            let _ = progs.run_program(prog_id, None);
            true
        },
        None => false,
    }
}

/// Handle a guest breakpoint trap. A trap matching an enabled probe is a
/// probe hit: the hit is recorded, a guest-probe event lands in the
/// pipeline and the bound program runs. A trap matching no enabled probe
/// is held against the stale registry: a retained record absorbs it and
/// asks the caller to retry the instruction at the same program counter;
/// anything else is unhandled.
pub fn handle_guest_brk(
    registry: &mut GuestKprobeRegistry,
    mem: &mut GuestMemory,
    pipeline: &mut EventPipeline,
    maps: &mut MapStore,
    attachments: &AttachRegistry,
    progs: &ProgramStore,
    platform: &Platform,
    vm_id: u32,
    pc: u64,
    iss: u64,
) -> (r: GuestBrkHandleResult)
    requires
        old(registry).wf(),
        old(mem).wf(),
        old(pipeline).wf(),
        old(maps).wf(),
        attachments.wf(),
    ensures
        final(registry).wf(),
        final(mem).wf(),
        final(pipeline).wf(),
        final(maps).wf(),
        r is ProbeHit <==> old(registry).spec_enabled_probe(vm_id, pc) is Some,
        r is ProbeHit ==> {
            let i = old(registry).spec_hit_index(vm_id, pc);
            let e0 = old(registry).probes@[i].1;
            &&& final(registry).probes@[i].1.hits == (if e0.hits < u64::MAX {
                e0.hits + 1
            } else {
                u64::MAX as int
            })
            &&& final(mem).view_of() == old(mem).view_of()
            &&& final(registry).stale@ == old(registry).stale@
            &&& final(pipeline).fallback@ == event_push(
                old(pipeline).fallback@,
                spec_guest_event(
                    *platform,
                    vm_id,
                    pc,
                    old(registry).spec_enabled_probe(vm_id, pc)->Some_0.1,
                    crate::event::spec_register(
                        old(pipeline).table(),
                        if old(registry).spec_enabled_probe(vm_id, pc)->Some_0.1 {
                            "kretprobe"@
                        } else {
                            "kprobe"@
                        },
                    ).0,
                    pc,
                    iss,
                ),
            )
        },
        !(r is ProbeHit) ==> {
            &&& (r is RetryInstruction <==> old(registry).has_stale(vm_id, pc))
            &&& final(registry).probes@ == old(registry).probes@
            &&& final(pipeline).fallback@ == old(pipeline).fallback@
            &&& final(maps)@ == old(maps)@
        },
        r is RetryInstruction ==> {
            let i = old(registry).stale_at(vm_id, pc);
            let s = old(registry).stale@[i].1;
            &&& final(mem).view_of() == old(mem).view_of().insert(s.hva as int, s.saved_insn)
            &&& (s.retries_left <= 1 ==> !final(registry).has_stale(vm_id, pc))
            &&& (s.retries_left > 1 ==> {
                &&& final(registry).has_stale(vm_id, pc)
                &&& final(registry).stale@[final(registry).stale_at(vm_id, pc)].1 == (
                crate::probe::kprobe::manager::StaleBrkEntry {
                    retries_left: (s.retries_left - 1) as u32,
                    ..s
                })
            })
        },
        r is Unhandled ==> {
            &&& final(registry).stale@ == old(registry).stale@
            &&& final(mem).view_of() == old(mem).view_of()
        },
{
    let matched = registry.lookup_enabled(vm_id, pc);
    match matched {
        Some((prog_id, is_ret)) => {
            let _ = registry.record_probe_hit(vm_id, pc);
            emit_guest_event(pipeline, maps, attachments, progs, platform, vm_id, pc, is_ret,
                pc, iss);
            let _ = progs.run_program(prog_id, None);
            GuestBrkHandleResult::ProbeHit
        },
        None => {
            if registry.consume_stale_brk(mem, vm_id, pc) {
                GuestBrkHandleResult::RetryInstruction
            } else {
                GuestBrkHandleResult::Unhandled
            }
        },
    }
}

} // verus!
