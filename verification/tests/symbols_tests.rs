//! Symbol table tests: initialisation and both lookup directions.

use axebpf::symbols::{Error, SymbolEntry, SymbolTable};

fn table() -> SymbolTable {
    let mut t = SymbolTable::new();
    t.init(vec![
        SymbolEntry { name: "vcpu_run".to_string(), addr: 0x1000, size: 0x100 },
        SymbolEntry { name: "handle_trap".to_string(), addr: 0x1100, size: 0x80 },
    ])
    .unwrap();
    t
}

#[test]
fn init_only_once() {
    let mut t = table();
    let again = t.init(Vec::new());
    assert!(matches!(again, Err(Error::AlreadyInitialized)));
    assert!(t.is_initialized());
}

#[test]
fn lookup_addr_by_name() {
    let t = table();
    assert_eq!(t.lookup_addr("vcpu_run"), Some(0x1000));
    assert_eq!(t.lookup_addr("handle_trap"), Some(0x1100));
    assert_eq!(t.lookup_addr("nosuch"), None);
}

#[test]
fn lookup_symbol_by_address() {
    let t = table();
    let (name, size, offset) = t.lookup_symbol(0x1040).unwrap();
    assert_eq!(name, "vcpu_run");
    assert_eq!(size, 0x100);
    assert_eq!(offset, 0x40);
    assert!(t.lookup_symbol(0x5000).is_none());
}

#[test]
fn uninitialised_table_resolves_nothing() {
    let t = SymbolTable::new();
    assert!(!t.is_initialized());
    assert_eq!(t.lookup_addr("anything"), None);
}
