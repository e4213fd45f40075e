//! Guest address translation tests: the four-level walk, block mappings,
//! failure modes and the composite translation.

use axebpf::probe::kprobe::addr_translate::{TranslateError, Translator};

fn gva_of(i0: u64, i1: u64, i2: u64, i3: u64, off: u64) -> u64 {
    (i0 << 39) | (i1 << 30) | (i2 << 21) | (i3 << 12) | off
}

fn walk_tables(ttbr: u64, gva: u64, page: u64) -> Vec<(u64, u64)> {
    let l0 = ttbr & 0x0000_ffff_ffff_f000;
    let l1 = l0 + 0x1000;
    let l2 = l0 + 0x2000;
    let l3 = l0 + 0x3000;
    vec![
        (l0 + ((gva >> 39) & 0x1ff) * 8, l1 | 3),
        (l1 + ((gva >> 30) & 0x1ff) * 8, l2 | 3),
        (l2 + ((gva >> 21) & 0x1ff) * 8, l3 | 3),
        (l3 + ((gva >> 12) & 0x1ff) * 8, page | 3),
    ]
}

#[test]
fn four_level_walk_resolves_page() {
    let ttbr = 0x1000u64;
    let gva = gva_of(1, 2, 3, 4, 0x123);
    let mut tr = Translator::new();
    tr.register_guest_pt_read_hook(walk_tables(ttbr, gva, 0x5000_0000));

    assert_eq!(tr.gva_to_gpa(gva, ttbr), Ok(0x5000_0123));
}

#[test]
fn missing_backend_is_unsupported() {
    let tr = Translator::new();
    assert_eq!(tr.gva_to_gpa(0x1000, 0x1000), Err(TranslateError::Unsupported));
    assert_eq!(tr.gpa_to_hpa(0x1000, 1), Err(TranslateError::Unsupported));
    assert_eq!(tr.vm_ttbr1_el1(1), Err(TranslateError::Unsupported));
}

#[test]
fn invalid_descriptor_is_bad_state() {
    let ttbr = 0x1000u64;
    let gva = gva_of(1, 2, 3, 4, 0);
    let mut tr = Translator::new();
    // The walk's first descriptor has its valid bit clear.
    tr.register_guest_pt_read_hook(vec![(0x1000 + ((gva >> 39) & 0x1ff) * 8, 0x2000)]);
    assert_eq!(tr.gva_to_gpa(gva, ttbr), Err(TranslateError::BadState));
}

#[test]
fn unmapped_descriptor_is_not_found() {
    let ttbr = 0x1000u64;
    let mut tr = Translator::new();
    tr.register_guest_pt_read_hook(Vec::new());
    assert_eq!(tr.gva_to_gpa(0x1234, ttbr), Err(TranslateError::NotFound));
}

#[test]
fn level_one_block_short_circuits() {
    let ttbr = 0x1000u64;
    let gva = gva_of(1, 2, 3, 4, 0x123);
    let l0 = 0x1000u64;
    let l1 = l0 + 0x1000;
    let mut tr = Translator::new();
    // A 1 GiB block at level one: low descriptor bits 01.
    tr.register_guest_pt_read_hook(vec![
        (l0 + ((gva >> 39) & 0x1ff) * 8, l1 | 3),
        (l1 + ((gva >> 30) & 0x1ff) * 8, 0x8000_0000u64 | 1),
    ]);
    let block_offset = gva & ((1u64 << 30) - 1);
    assert_eq!(tr.gva_to_gpa(gva, ttbr), Ok(0x8000_0000u64 | block_offset));
}

#[test]
fn composite_walk_reaches_host_virtual() {
    let vm_id = 7u32;
    let ttbr = 0x1000u64;
    let gva = gva_of(0, 1, 1, 1, 0x40);
    let mut tr = Translator::new();
    tr.register_vm_ttbr1_hook(vec![(vm_id, ttbr)]);
    tr.register_guest_pt_read_hook(walk_tables(ttbr, gva, 0x5000_0000));
    tr.register_gpa_to_hpa_hook(vec![(0x5000_0040, vm_id, 0x9000_0040)]);

    assert_eq!(tr.gva_to_hva_for_vm(gva, vm_id), Ok(0x9000_0040usize));
}

#[test]
fn direct_hook_short_circuits_walk() {
    let mut tr = Translator::new();
    tr.register_gva_to_hva_hook(vec![(0x4000, 2, 0xdead0usize)]);
    assert_eq!(tr.gva_to_hva_for_vm(0x4000, 2), Ok(0xdead0usize));
    assert_eq!(tr.gva_to_hva_for_vm(0x5000, 2), Err(TranslateError::NotFound));
}
