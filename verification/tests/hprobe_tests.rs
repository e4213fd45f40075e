//! Host probe tests: coexisting entry and return slots, detach cleanup,
//! and text stability across attach and detach.

use axebpf::insn_slot::SlotPool;
use axebpf::page_table::KernelText;
use axebpf::probe::hprobe::manager::KprobeRegistry;
use axebpf::symbols::{SymbolEntry, SymbolTable};

fn text_with_word(addr: usize, word: [u8; 4]) -> KernelText {
    let mut text = KernelText::new();
    text.add_page(addr);
    for (k, b) in word.iter().enumerate() {
        text.set_byte(addr + k, *b);
    }
    text
}

#[test]
fn same_symbol_allows_entry_and_ret_coexist() {
    let mut mgr = KprobeRegistry::new();
    let mut text = KernelText::new();
    let mut pool = SlotPool::new(0x100000);

    let addr = 0x1000usize;
    let symbol = "test_hprobe_coexist_symbol";

    mgr.register_with_addr_for_test(symbol, addr, 11, false).unwrap();
    mgr.register_with_addr_for_test(symbol, addr, 22, true).unwrap();

    let probes = mgr.list_all();
    let mut has_entry = false;
    let mut has_ret = false;

    for (name, probe_addr, _hits, _enabled, is_ret, prog_id) in probes {
        if name != symbol || probe_addr != addr {
            continue;
        }
        if is_ret && prog_id == 22 {
            has_ret = true;
        }
        if !is_ret && prog_id == 11 {
            has_entry = true;
        }
    }

    assert!(has_entry, "entry probe must exist");
    assert!(has_ret, "ret probe must exist");

    mgr.detach(&mut text, &mut pool, symbol).unwrap();
}

#[test]
fn unhprobe_removes_both_entry_and_ret_slots() {
    let mut mgr = KprobeRegistry::new();
    let mut text = KernelText::new();
    let mut pool = SlotPool::new(0x100000);

    let addr = 0x2000usize;
    let symbol = "test_hprobe_unhprobe_symbol";

    mgr.register_with_addr_for_test(symbol, addr, 33, false).unwrap();
    mgr.register_with_addr_for_test(symbol, addr, 44, true).unwrap();

    mgr.detach(&mut text, &mut pool, symbol).unwrap();

    let probes = mgr.list_all();
    let still_present = probes
        .into_iter()
        .any(|(name, probe_addr, _, _, _, _)| name == symbol && probe_addr == addr);
    assert!(!still_present, "all probe slots must be removed by detach");
}

#[test]
fn host_probe_attach_detach_text_stability() {
    let addr = 0x3000usize;
    let original = [0x78u8, 0x56, 0x34, 0x12];
    let mut text = text_with_word(addr, original);
    // The slot pool's pages must be known text too.
    let pool_base = 0x100000usize;
    text.add_page(pool_base);
    let mut pool = SlotPool::new(pool_base);
    let mut mgr = KprobeRegistry::new();
    let mut symbols = SymbolTable::new();
    symbols
        .init(vec![SymbolEntry { name: "sym".to_string(), addr: addr as u64, size: 16 }])
        .unwrap();

    let got = mgr.attach(&symbols, &mut text, &mut pool, "sym", 1, false).unwrap();
    assert_eq!(got, addr);

    // The probed word now holds the architectural breakpoint encoding.
    assert_eq!(text.read_bytes(addr, 4).unwrap(), vec![0x80, 0x00, 0x20, 0xd4]);

    mgr.detach(&mut text, &mut pool, "sym").unwrap();

    // The probed word is back to its pre-attach value.
    assert_eq!(text.read_bytes(addr, 4).unwrap(), original.to_vec());
}

#[test]
fn enable_uses_and_frees_instruction_slots() {
    let addr = 0x4000usize;
    let mut text = text_with_word(addr, [1, 2, 3, 4]);
    let pool_base = 0x200000usize;
    text.add_page(pool_base);
    let mut pool = SlotPool::new(pool_base);
    let mut mgr = KprobeRegistry::new();

    mgr.register_with_addr_for_test("slotsym", addr, 9, false).unwrap();
    assert_eq!(pool.free_count(), 64);
    mgr.enable(&mut text, &mut pool, addr, false).unwrap();
    assert_eq!(pool.free_count(), 63);
    mgr.disable(&mut text, &mut pool, addr, false).unwrap();
    assert_eq!(pool.free_count(), 64);
}

#[test]
fn register_by_name_needs_known_symbol() {
    let mut mgr = KprobeRegistry::new();
    let symbols = SymbolTable::new();
    assert!(mgr.register(&symbols, "nosuch", 1, false).is_err());
}
