//! Guest probe manager tests: attach rollback, duplicate keys, idempotent
//! disable and detach, breakpoint injection and stale trap recovery.

use axebpf::probe::kprobe::addr_translate::Translator;
use axebpf::probe::kprobe::manager::{
    GuestKprobeRegistry, GuestMemory, KprobeMode, Stage2, GUEST_BRK_INSN,
};

/// Page-table data for a VM whose walk maps `gva` to a page at
/// 0x5000_0000, mirroring a four-level table rooted at the VM's register.
fn stage2_walk_tables(vm_id: u32, gva: u64) -> (Vec<(u32, u64)>, Vec<(u64, u64)>) {
    let ttbr1: u64 = 0x2000_0000 + ((vm_id as u64) << 20);
    let l0 = ttbr1;
    let l1 = ttbr1 + 0x1000;
    let l2 = ttbr1 + 0x2000;
    let l3 = ttbr1 + 0x3000;
    let i0 = (gva >> 39) & 0x1ff;
    let i1 = (gva >> 30) & 0x1ff;
    let i2 = (gva >> 21) & 0x1ff;
    let i3 = (gva >> 12) & 0x1ff;
    let pt = vec![
        (l0 + i0 * 8, l1 | 3),
        (l1 + i1 * 8, l2 | 3),
        (l2 + i2 * 8, l3 | 3),
        (l3 + i3 * 8, 0x5000_0000u64 | 3),
    ];
    (vec![(vm_id, ttbr1)], pt)
}

fn stage2_setup(vm_id: u32, gva: u64) -> (Translator, Stage2) {
    let (ttbr, pt) = stage2_walk_tables(vm_id, gva);
    let mut translator = Translator::new();
    translator.register_vm_ttbr1_hook(ttbr);
    translator.register_guest_pt_read_hook(pt);
    let mut stage2 = Stage2::new();
    stage2.register_stage2_exec_hook();
    (translator, stage2)
}

#[test]
fn attach_must_rollback_when_enable_fails() {
    let mut manager = GuestKprobeRegistry::new();
    let (translator, mut stage2) = stage2_setup(1, 0x1000);
    let mut mem = GuestMemory::new();
    let vm_id = 1;
    let gva = 0x1000_u64;

    manager.install_mock_backend_fail_on_enable(vm_id, gva);

    let ret = manager.attach(&translator, &mut stage2, &mut mem, vm_id, gva, 1, false,
        KprobeMode::Stage2Fault);
    assert!(ret.is_err());

    assert!(manager.lookup_enabled(vm_id, gva).is_none());
    assert!(
        !manager
            .list_all()
            .iter()
            .any(|(v, a, _, _, _, _, _, _)| *v == vm_id && *a == gva)
    );
}

#[test]
fn duplicate_attach_same_key_returns_conflict() {
    let mut manager = GuestKprobeRegistry::new();
    let (translator, mut stage2) = stage2_setup(2, 0x2000);
    let mut mem = GuestMemory::new();
    let vm_id = 2;
    let gva = 0x2000_u64;

    manager.attach(&translator, &mut stage2, &mut mem, vm_id, gva, 1, false,
        KprobeMode::Stage2Fault).unwrap();
    assert!(manager.attach(&translator, &mut stage2, &mut mem, vm_id, gva, 2, false,
        KprobeMode::Stage2Fault).is_err());

    manager.detach(&mut stage2, &mut mem, vm_id, gva).unwrap();
}

#[test]
fn disable_and_detach_are_idempotent() {
    let mut manager = GuestKprobeRegistry::new();
    let (translator, mut stage2) = stage2_setup(3, 0x3000);
    let mut mem = GuestMemory::new();
    let vm_id = 3;
    let gva = 0x3000_u64;

    manager.attach(&translator, &mut stage2, &mut mem, vm_id, gva, 1, false,
        KprobeMode::Stage2Fault).unwrap();

    assert!(manager.disable(&mut stage2, &mut mem, vm_id, gva).is_ok());
    assert!(manager.disable(&mut stage2, &mut mem, vm_id, gva).is_ok());

    assert!(manager.detach(&mut stage2, &mut mem, vm_id, gva).is_ok());
    assert!(manager.detach(&mut stage2, &mut mem, vm_id, gva).is_ok());
}

#[test]
fn brk_inject_enable_then_disable_restores_instruction() {
    let mut manager = GuestKprobeRegistry::new();
    let mut translator = Translator::new();
    let mut stage2 = Stage2::new();
    let vm_id = 4;
    let gva = 0x4000_u64;
    let hva: usize = 0x9000;
    translator.register_gva_to_hva_hook(vec![(gva, vm_id, hva)]);

    let mut mem = GuestMemory::new();
    mem.write_word(hva, 0x12345678);

    manager.attach(&translator, &mut stage2, &mut mem, vm_id, gva, 7, false,
        KprobeMode::BrkInject).unwrap();

    assert_eq!(mem.read_word(hva), Some(GUEST_BRK_INSN));

    manager.detach(&mut stage2, &mut mem, vm_id, gva).unwrap();
    assert_eq!(mem.read_word(hva), Some(0x12345678));
}

#[test]
fn stale_brk_absorption() {
    let mut manager = GuestKprobeRegistry::new();
    let mut translator = Translator::new();
    let mut stage2 = Stage2::new();
    let vm_id = 10;
    let gva = 0xffff_8000_8000_3000_u64;
    let hva: usize = 0xa000;
    translator.register_gva_to_hva_hook(vec![(gva, vm_id, hva)]);

    let mut mem = GuestMemory::new();
    mem.write_word(hva, 0x12345678);

    manager.attach(&translator, &mut stage2, &mut mem, vm_id, gva, 1, false,
        KprobeMode::BrkInject).unwrap();
    manager.detach(&mut stage2, &mut mem, vm_id, gva).unwrap();

    // A trap still in flight at the detached key is absorbed and retried.
    assert!(manager.consume_stale_brk(&mut mem, vm_id, gva));
    assert_eq!(mem.read_word(hva), Some(0x12345678));

    // A key that was never retained reports unhandled.
    assert!(!manager.consume_stale_brk(&mut mem, vm_id, 0x5000));
}

#[test]
fn stale_budget_exhaustion_reports_unhandled() {
    let mut manager = GuestKprobeRegistry::new();
    let mut translator = Translator::new();
    let mut stage2 = Stage2::new();
    let vm_id = 11;
    let gva = 0x6000_u64;
    let hva: usize = 0xb000;
    translator.register_gva_to_hva_hook(vec![(gva, vm_id, hva)]);

    let mut mem = GuestMemory::new();
    mem.write_word(hva, 0x55667788);

    manager.attach(&translator, &mut stage2, &mut mem, vm_id, gva, 1, false,
        KprobeMode::BrkInject).unwrap();
    manager.detach(&mut stage2, &mut mem, vm_id, gva).unwrap();

    for _ in 0..4096 {
        assert!(manager.consume_stale_brk(&mut mem, vm_id, gva));
    }
    assert!(!manager.consume_stale_brk(&mut mem, vm_id, gva));
}

#[test]
fn wildcard_vm_zero_matches_any_vm() {
    let mut manager = GuestKprobeRegistry::new();
    let mut translator = Translator::new();
    let mut stage2 = Stage2::new();
    let gva = 0x7000_u64;
    let hva: usize = 0xc000;
    translator.register_gva_to_hva_hook(vec![(gva, 0, hva)]);

    let mut mem = GuestMemory::new();
    mem.write_word(hva, 0x11223344);

    manager.attach(&translator, &mut stage2, &mut mem, 0, gva, 5, true,
        KprobeMode::BrkInject).unwrap();

    assert_eq!(manager.lookup_enabled(9, gva), Some((5, true)));
}
