//! Loader tests: object detection, relocation patching and map-kind
//! translation.

use axebpf::maps::MapType;
use axebpf::runtime::{self, Error};

#[test]
fn elf_magic_is_detected() {
    assert!(runtime::is_elf(&[0x7f, 0x45, 0x4c, 0x46, 0, 0, 0, 0]));
    assert!(!runtime::is_elf(&[0x7f, 0x45, 0x4c]));
    assert!(!runtime::is_elf(&[0xb7, 0x00, 0x00, 0x00]));
}

#[test]
fn patch_map_fd_rewrites_load_immediate() {
    // A load-immediate-64 site: opcode 0x18 and sixteen bytes.
    let mut code = vec![
        0x18, 0x01, 0x00, 0x00, 0xff, 0xff, 0xff, 0xff, 0x00, 0x00, 0x00, 0x00, 0xee, 0xee,
        0xee, 0xee,
    ];
    runtime::patch_map_fd(&mut code, 0, 0x0102_0304).unwrap();
    // Low-half immediate takes the handle, little-endian.
    assert_eq!(&code[4..8], &[0x04, 0x03, 0x02, 0x01]);
    // High-half immediate becomes zero.
    assert_eq!(&code[12..16], &[0, 0, 0, 0]);
    // The opcode bytes stay as they were.
    assert_eq!(code[0], 0x18);
    assert_eq!(code[1], 0x01);
}

#[test]
fn patch_map_fd_rejects_bad_sites() {
    let mut short = vec![0x18; 8];
    assert!(matches!(
        runtime::patch_map_fd(&mut short, 0, 1),
        Err(Error::RelocationFailed)
    ));

    let mut wrong_opcode = vec![0xb7; 16];
    assert!(matches!(
        runtime::patch_map_fd(&mut wrong_opcode, 0, 1),
        Err(Error::InvalidProgram)
    ));
    assert_eq!(wrong_opcode, vec![0xb7; 16]);
}

#[test]
fn relocation_entries_parse_as_rel_form() {
    // Two 16-byte REL entries: offset, then info with the symbol index in
    // the upper half.
    let mut rel = Vec::new();
    rel.extend_from_slice(&0x20u64.to_le_bytes());
    rel.extend_from_slice(&((5u64 << 32) | 1).to_le_bytes());
    rel.extend_from_slice(&0x40u64.to_le_bytes());
    rel.extend_from_slice(&(9u64 << 32).to_le_bytes());

    let parsed = runtime::parse_relocation_section(&rel);
    assert_eq!(parsed.len(), 2);
    assert_eq!(parsed[0].offset, 0x20);
    assert_eq!(parsed[0].symbol_idx, 5);
    assert_eq!(parsed[1].offset, 0x40);
    assert_eq!(parsed[1].symbol_idx, 9);
}

#[test]
fn numeric_map_kinds_translate() {
    assert_eq!(runtime::translate_map_kind(1), Some(MapType::HashMap));
    assert_eq!(runtime::translate_map_kind(2), Some(MapType::Array));
    assert_eq!(runtime::translate_map_kind(9), Some(MapType::LruHash));
    assert_eq!(runtime::translate_map_kind(22), Some(MapType::Queue));
    assert_eq!(runtime::translate_map_kind(7), None);
}
