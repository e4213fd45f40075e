//! Helper surface tests: dispatch by number and the map helpers.

use axebpf::helpers::{self, HelperState};
use axebpf::maps::{MapDef, MapStore, MapType};
use axebpf::platform::Platform;

#[test]
fn test_supported_helpers_count() {
    assert_eq!(helpers::supported_helpers().len(), 9);
}

#[test]
fn test_get_helper_map_lookup() {
    assert!(helpers::get_helper(helpers::MAP_LOOKUP_ELEM).is_some());
}

#[test]
fn test_get_helper_map_update() {
    assert!(helpers::get_helper(helpers::MAP_UPDATE_ELEM).is_some());
}

#[test]
fn test_get_helper_map_delete() {
    assert!(helpers::get_helper(helpers::MAP_DELETE_ELEM).is_some());
}

#[test]
fn test_get_helper_ktime() {
    assert!(helpers::get_helper(helpers::KTIME_GET_NS).is_some());
}

#[test]
fn test_get_helper_trace_printk() {
    assert!(helpers::get_helper(helpers::TRACE_PRINTK).is_some());
}

#[test]
fn test_get_helper_cpu_id() {
    assert!(helpers::get_helper(helpers::GET_SMP_PROCESSOR_ID).is_some());
}

#[test]
fn test_get_helper_unsupported() {
    assert!(helpers::get_helper(999).is_none());
}

#[test]
fn test_helper_ids_match_linux() {
    assert_eq!(helpers::MAP_LOOKUP_ELEM, 1);
    assert_eq!(helpers::MAP_UPDATE_ELEM, 2);
    assert_eq!(helpers::MAP_DELETE_ELEM, 3);
    assert_eq!(helpers::KTIME_GET_NS, 5);
    assert_eq!(helpers::TRACE_PRINTK, 6);
    assert_eq!(helpers::GET_SMP_PROCESSOR_ID, 8);
}

#[test]
fn test_map_helpers_integration() {
    let mut maps = MapStore::new();
    let mut state = HelperState::new();
    let def = MapDef { map_type: MapType::HashMap, key_size: 8, value_size: 8, max_entries: 16 };
    let map_id = maps.create(&def).unwrap();

    let key: u64 = 42;
    let value: u64 = 12345;

    let result = helpers::bpf_map_update_elem(&mut maps, map_id, &key.to_le_bytes(),
        &value.to_le_bytes(), 0);
    assert_eq!(result, 0);

    let result = helpers::bpf_map_lookup_elem(&mut state, &mut maps, map_id,
        &key.to_le_bytes());
    assert_eq!(result, 1);
    assert_eq!(helpers::lookup_buffer_value(&state, 8), 12345);

    let result = helpers::bpf_map_delete_elem(&mut maps, map_id, &key.to_le_bytes());
    assert_eq!(result, 0);

    let result = helpers::bpf_map_lookup_elem(&mut state, &mut maps, map_id,
        &key.to_le_bytes());
    assert_eq!(result, 0);
}

#[test]
fn test_trace_printk_helper() {
    let result = helpers::bpf_trace_printk(12345, 0, 0);
    assert_eq!(result, 0);
}

#[test]
fn time_and_cpu_helpers_read_the_platform() {
    let mut platform = Platform::new();
    platform.set_mock_time(777);
    platform.set_mock_cpu_id(3);
    assert_eq!(helpers::bpf_ktime_get_ns(&platform), 777);
    assert_eq!(helpers::bpf_get_smp_processor_id(&platform), 3);
}

#[test]
fn probe_read_validates_its_size() {
    assert_eq!(helpers::probe_read_size_ok(0), u64::MAX);
    assert_eq!(helpers::probe_read_size_ok(1), 0);
    assert_eq!(helpers::probe_read_size_ok(4096), 0);
    assert_eq!(helpers::probe_read_size_ok(4097), u64::MAX);
}

#[test]
fn update_helper_reports_failures_as_minus_one() {
    let mut maps = MapStore::new();
    let def = MapDef { map_type: MapType::HashMap, key_size: 8, value_size: 8, max_entries: 16 };
    let map_id = maps.create(&def).unwrap();
    // A key of the wrong size is rejected, widened to minus one.
    let r = helpers::bpf_map_update_elem(&mut maps, map_id, &[1, 2], &0u64.to_le_bytes(), 0);
    assert_eq!(r, u64::MAX);
}
