//! Guest trap handling tests: Stage-2 fault matching, breakpoint trap
//! matching and stale recovery through the handler.

use axebpf::attach::AttachRegistry;
use axebpf::event::EventPipeline;
use axebpf::maps::MapStore;
use axebpf::platform::Platform;
use axebpf::probe::kprobe::handler::{
    handle_guest_brk, handle_stage2_exec_fault, GuestBrkHandleResult,
};
use axebpf::probe::kprobe::addr_translate::Translator;
use axebpf::probe::kprobe::manager::{GuestKprobeRegistry, GuestMemory, KprobeMode, Stage2};
use axebpf::runtime::ProgramStore;

fn world() -> (EventPipeline, MapStore, AttachRegistry, ProgramStore, Platform) {
    (
        EventPipeline::new(),
        MapStore::new(),
        AttachRegistry::new(),
        ProgramStore::new(),
        Platform::new(),
    )
}

/// Page-table data for a VM whose walk maps `gva` to a page at
/// 0x4000_0000, mirroring a four-level table rooted at the VM's register.
fn walk_tables(vm_id: u32, gva: u64) -> (Vec<(u32, u64)>, Vec<(u64, u64)>) {
    let ttbr1: u64 = 0x1000_0000 + ((vm_id as u64) << 20);
    let l0 = ttbr1;
    let l1 = ttbr1 + 0x1000;
    let l2 = ttbr1 + 0x2000;
    let l3 = ttbr1 + 0x3000;
    let i0 = (gva >> 39) & 0x1ff;
    let i1 = (gva >> 30) & 0x1ff;
    let i2 = (gva >> 21) & 0x1ff;
    let i3 = (gva >> 12) & 0x1ff;
    let pt = vec![
        (l0 + i0 * 8, l1 | 3),
        (l1 + i1 * 8, l2 | 3),
        (l2 + i2 * 8, l3 | 3),
        (l3 + i3 * 8, 0x4000_0000u64 | 3),
    ];
    (vec![(vm_id, ttbr1)], pt)
}

#[test]
fn stage2_match_must_return_true() {
    let (mut pipeline, mut maps, attachments, progs, platform) = world();
    let mut registry = GuestKprobeRegistry::new();
    let vm_id = 7;
    let gva = 0xffff_8000_8000_1000_u64;
    let (ttbr, pt) = walk_tables(vm_id, gva);
    let mut translator = Translator::new();
    translator.register_vm_ttbr1_hook(ttbr);
    translator.register_guest_pt_read_hook(pt);
    let mut stage2 = Stage2::new();
    stage2.register_stage2_exec_hook();
    let mut mem = GuestMemory::new();

    registry.attach(&translator, &mut stage2, &mut mem, vm_id, gva, 1, false,
        KprobeMode::Stage2Fault).unwrap();
    let handled = handle_stage2_exec_fault(&mut registry, &mut pipeline, &mut maps,
        &attachments, &progs, &platform, vm_id, 0x1000, gva, true);
    assert!(handled, "matched stage2 fault must be handled");

    // The hit is recorded and the event reached the pipeline.
    let listed = registry.list_all();
    let entry = listed.iter().find(|e| e.0 == vm_id && e.1 == gva).unwrap();
    assert_eq!(entry.3, 1);
    let events = pipeline.consume_events(&mut maps, 0);
    assert_eq!(events.len(), 1);
    assert_eq!(events[0].vm_id, vm_id as u16);

    registry.detach(&mut stage2, &mut mem, vm_id, gva).unwrap();
}

#[test]
fn guest_brk_match_must_return_true() {
    let (mut pipeline, mut maps, attachments, progs, platform) = world();
    let mut registry = GuestKprobeRegistry::new();
    let vm_id = 9;
    let pc = 0xffff_8000_8000_2000_u64;
    let hva: usize = 0xd000;
    let mut translator = Translator::new();
    translator.register_gva_to_hva_hook(vec![(pc, vm_id, hva)]);
    let mut stage2 = Stage2::new();
    let mut mem = GuestMemory::new();
    mem.write_word(hva, 0x1400_0000);

    registry.attach(&translator, &mut stage2, &mut mem, vm_id, pc, 2, false,
        KprobeMode::BrkInject).unwrap();
    let handled = handle_guest_brk(&mut registry, &mut mem, &mut pipeline, &mut maps,
        &attachments, &progs, &platform, vm_id, pc, 0x123);
    assert_eq!(
        handled,
        GuestBrkHandleResult::ProbeHit,
        "matched guest brk must be handled as active probe hit"
    );

    registry.detach(&mut stage2, &mut mem, vm_id, pc).unwrap();
}

#[test]
fn stale_guest_brk_after_detach_must_request_retry() {
    let (mut pipeline, mut maps, attachments, progs, platform) = world();
    let mut registry = GuestKprobeRegistry::new();
    let vm_id = 10;
    let pc = 0xffff_8000_8000_3000_u64;
    let hva: usize = 0xe000;
    let mut translator = Translator::new();
    translator.register_gva_to_hva_hook(vec![(pc, vm_id, hva)]);
    let mut stage2 = Stage2::new();
    let mut mem = GuestMemory::new();
    mem.write_word(hva, 0x1400_0000);

    registry.attach(&translator, &mut stage2, &mut mem, vm_id, pc, 3, false,
        KprobeMode::BrkInject).unwrap();
    registry.detach(&mut stage2, &mut mem, vm_id, pc).unwrap();

    let handled = handle_guest_brk(&mut registry, &mut mem, &mut pipeline, &mut maps,
        &attachments, &progs, &platform, vm_id, pc, 0);
    assert_eq!(
        handled,
        GuestBrkHandleResult::RetryInstruction,
        "stale BRK after detach must be consumed and retried at same PC"
    );
}

#[test]
fn non_exec_fault_is_ignored() {
    let (mut pipeline, mut maps, attachments, progs, platform) = world();
    let mut registry = GuestKprobeRegistry::new();
    let handled = handle_stage2_exec_fault(&mut registry, &mut pipeline, &mut maps,
        &attachments, &progs, &platform, 1, 0x5000, 0x1000, false);
    assert!(!handled);
}

#[test]
fn unmatched_fault_and_brk_are_unhandled() {
    let (mut pipeline, mut maps, attachments, progs, platform) = world();
    let mut registry = GuestKprobeRegistry::new();
    let mut mem = GuestMemory::new();
    let handled = handle_stage2_exec_fault(&mut registry, &mut pipeline, &mut maps,
        &attachments, &progs, &platform, 1, 0x5000, 0x1000, true);
    assert!(!handled);
    let brk = handle_guest_brk(&mut registry, &mut mem, &mut pipeline, &mut maps,
        &attachments, &progs, &platform, 1, 0x1000, 4);
    assert_eq!(brk, GuestBrkHandleResult::Unhandled);
}

#[test]
fn matched_brk_trap_counts_a_hit_and_emits() {
    let (mut pipeline, mut maps, attachments, progs, platform) = world();
    let mut registry = GuestKprobeRegistry::new();
    let mut translator = Translator::new();
    let mut stage2 = Stage2::new();
    let mut mem = GuestMemory::new();
    let vm_id = 3;
    let pc = 0x8000u64;
    let hva: usize = 0xf000;
    translator.register_gva_to_hva_hook(vec![(pc, vm_id, hva)]);
    mem.write_word(hva, 0xaabbccdd);
    registry.attach(&translator, &mut stage2, &mut mem, vm_id, pc, 1, false,
        KprobeMode::BrkInject).unwrap();

    let handled = handle_guest_brk(&mut registry, &mut mem, &mut pipeline, &mut maps,
        &attachments, &progs, &platform, vm_id, pc, 4);
    assert_eq!(handled, GuestBrkHandleResult::ProbeHit);

    let listed = registry.list_all();
    let entry = listed.iter().find(|e| e.0 == vm_id && e.1 == pc).unwrap();
    assert_eq!(entry.3, 1);

    let events = pipeline.consume_events(&mut maps, 0);
    assert_eq!(events.len(), 1);
    assert_eq!(events[0].vm_id, vm_id as u16);
}
