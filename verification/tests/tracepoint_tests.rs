//! Tracepoint management tests: the naming scheme and the enabled flags.

use axebpf::tracepoint::{parse_tracepoint_name, Error, TracepointInfo, TracepointManager};

#[test]
fn test_is_initialized() {
    let mgr = TracepointManager::init();
    assert!(mgr.is_initialized());
}

#[test]
fn test_tracepoint_info_debug() {
    let info = TracepointInfo {
        name: "vmm:test".to_string(),
        subsystem: "vmm".to_string(),
        event: "test".to_string(),
        enabled: true,
        id: 42,
    };

    let debug_str = format!("{:?}", info);
    assert!(debug_str.contains("vmm:test"));
    assert!(debug_str.contains("42"));
}

#[test]
fn test_tracepoint_info_clone() {
    let info1 = TracepointInfo {
        name: "vmm:test".to_string(),
        subsystem: "vmm".to_string(),
        event: "test".to_string(),
        enabled: false,
        id: 1,
    };

    let info2 = info1.clone();
    assert_eq!(info1.name, info2.name);
    assert_eq!(info1.enabled, info2.enabled);
    assert_eq!(info1.id, info2.id);
}

#[test]
fn test_invalid_name_no_colon() {
    let mgr = TracepointManager::init();
    let err = mgr.get("badname").unwrap_err();
    assert!(matches!(err, Error::InvalidName(_)));
}

#[test]
fn test_valid_name_format() {
    let name = "vmm:vcpu_run_enter";
    let parts: Vec<&str> = name.splitn(2, ':').collect();
    assert_eq!(parts.len(), 2);
    assert_eq!(parts[0], "vmm");
    assert_eq!(parts[1], "vcpu_run_enter");
}

#[test]
fn test_name_with_multiple_colons() {
    let name = "vmm:event:extra";
    let parts: Vec<&str> = name.splitn(2, ':').collect();
    assert_eq!(parts.len(), 2);
    assert_eq!(parts[0], "vmm");
    assert_eq!(parts[1], "event:extra");
}

#[test]
fn parse_splits_on_first_colon() {
    assert_eq!(parse_tracepoint_name("vmm:event:extra"), Some(("vmm", "event:extra")));
    assert_eq!(parse_tracepoint_name("vmm:vcpu_run_enter"), Some(("vmm", "vcpu_run_enter")));
    assert_eq!(parse_tracepoint_name("badname"), None);
}

#[test]
fn enable_and_disable_flip_the_flag() {
    let mut mgr = TracepointManager::init();
    assert!(!mgr.is_enabled("vmm:vcpu_run_enter"));
    mgr.enable("vmm:vcpu_run_enter").unwrap();
    assert!(mgr.is_enabled("vmm:vcpu_run_enter"));
    mgr.disable("vmm:vcpu_run_enter").unwrap();
    assert!(!mgr.is_enabled("vmm:vcpu_run_enter"));
}

#[test]
fn enable_unknown_tracepoint_fails() {
    let mut mgr = TracepointManager::init();
    assert!(matches!(mgr.enable("vmm:nonexistent"), Err(Error::NotFound(_))));
    assert!(matches!(mgr.enable("badname"), Err(Error::InvalidName(_))));
}

#[test]
fn subsystem_toggles_count_members() {
    let mut mgr = TracepointManager::init();
    let n = mgr.enable_subsystem("vmm").unwrap();
    assert!(n > 0);
    assert!(mgr.is_enabled("vmm:vm_create"));
    let m = mgr.disable_subsystem("vmm").unwrap();
    assert_eq!(n, m);
    assert!(!mgr.is_enabled("vmm:vm_create"));
    assert!(matches!(mgr.enable_subsystem("nosuch"), Err(Error::NotFound(_))));
}

#[test]
fn roster_lists_known_tracepoints() {
    let mgr = TracepointManager::init();
    assert!(mgr.count() > 0);
    let all = mgr.list_tracepoints();
    assert_eq!(all.len(), mgr.count());
    assert!(all.iter().any(|tp| tp.name == "vmm:vcpu_run_enter"));
    let info = mgr.get("vmm:vcpu_run_enter").unwrap();
    assert_eq!(info.subsystem, "vmm");
    assert_eq!(info.event, "vcpu_run_enter");
    assert_eq!(info.id, 20);
}
