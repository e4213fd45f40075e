//! Map subsystem tests: creation, keyed operations, capacity and
//! eviction behaviour, and the end-to-end round trip.

use axebpf::maps::{Error, MapDef, MapStore, MapType};

#[test]
fn test_create_array_map() {
    let mut maps = MapStore::new();
    let def = MapDef { map_type: MapType::Array, key_size: 4, value_size: 8, max_entries: 16 };
    let result = maps.create(&def);
    assert!(result.is_ok());
}

#[test]
fn test_create_hashmap() {
    let mut maps = MapStore::new();
    let def = MapDef { map_type: MapType::HashMap, key_size: 8, value_size: 8, max_entries: 64 };
    let result = maps.create(&def);
    assert!(result.is_ok());
}

#[test]
fn test_create_lru_hash() {
    let mut maps = MapStore::new();
    let def = MapDef { map_type: MapType::LruHash, key_size: 8, value_size: 16, max_entries: 32 };
    let result = maps.create(&def);
    assert!(result.is_ok());
}

#[test]
fn test_create_queue() {
    let mut maps = MapStore::new();
    let def = MapDef { map_type: MapType::Queue, key_size: 0, value_size: 8, max_entries: 128 };
    let result = maps.create(&def);
    assert!(result.is_ok());
}

#[test]
fn test_update_and_lookup() {
    let mut maps = MapStore::new();
    let def = MapDef { map_type: MapType::Array, key_size: 8, value_size: 8, max_entries: 16 };
    let map_id = maps.create(&def).unwrap();

    let key: u64 = 0;
    let value: u64 = 12345;

    let result = maps.update_elem(map_id, &key.to_le_bytes(), &value.to_le_bytes(), 0);
    assert!(result.is_ok());

    let retrieved = maps.lookup_elem(map_id, &key.to_le_bytes());
    assert!(retrieved.is_some());

    let mut buf = [0u8; 8];
    buf.copy_from_slice(&retrieved.unwrap());
    assert_eq!(u64::from_le_bytes(buf), 12345);
}

#[test]
fn test_lookup_nonexistent_key() {
    let mut maps = MapStore::new();
    let def = MapDef { map_type: MapType::HashMap, key_size: 8, value_size: 8, max_entries: 16 };
    let map_id = maps.create(&def).unwrap();

    let key: u64 = 999;
    let result = maps.lookup_elem(map_id, &key.to_le_bytes());
    assert!(result.is_none());
}

#[test]
fn test_delete_elem() {
    let mut maps = MapStore::new();
    let def = MapDef { map_type: MapType::HashMap, key_size: 8, value_size: 8, max_entries: 16 };
    let map_id = maps.create(&def).unwrap();

    let key: u64 = 1;
    let value: u64 = 100;

    maps.update_elem(map_id, &key.to_le_bytes(), &value.to_le_bytes(), 0).unwrap();

    let result = maps.delete_elem(map_id, &key.to_le_bytes());
    assert!(result.is_ok());

    let lookup = maps.lookup_elem(map_id, &key.to_le_bytes());
    assert!(lookup.is_none());
}

#[test]
fn test_delete_nonexistent_key() {
    let mut maps = MapStore::new();
    let def = MapDef { map_type: MapType::HashMap, key_size: 8, value_size: 8, max_entries: 16 };
    let map_id = maps.create(&def).unwrap();

    let key: u64 = 999;
    let result = maps.delete_elem(map_id, &key.to_le_bytes());
    assert!(matches!(result, Err(Error::KeyNotFound)));
}

#[test]
fn test_update_existing_key() {
    let mut maps = MapStore::new();
    let def = MapDef { map_type: MapType::HashMap, key_size: 8, value_size: 8, max_entries: 16 };
    let map_id = maps.create(&def).unwrap();

    let key: u64 = 1;
    let value1: u64 = 100;
    let value2: u64 = 200;

    maps.update_elem(map_id, &key.to_le_bytes(), &value1.to_le_bytes(), 0).unwrap();
    maps.update_elem(map_id, &key.to_le_bytes(), &value2.to_le_bytes(), 0).unwrap();

    let retrieved = maps.lookup_elem(map_id, &key.to_le_bytes()).unwrap();
    let mut buf = [0u8; 8];
    buf.copy_from_slice(&retrieved);
    assert_eq!(u64::from_le_bytes(buf), 200);
}

#[test]
fn test_map_full_error() {
    let mut maps = MapStore::new();
    let def = MapDef { map_type: MapType::Array, key_size: 8, value_size: 8, max_entries: 2 };
    let map_id = maps.create(&def).unwrap();

    for i in 0u64..2 {
        let value = i * 10;
        maps.update_elem(map_id, &i.to_le_bytes(), &value.to_le_bytes(), 0).unwrap();
    }

    let key: u64 = 3;
    let value: u64 = 30;
    let result = maps.update_elem(map_id, &key.to_le_bytes(), &value.to_le_bytes(), 0);
    assert!(matches!(result, Err(Error::InvalidArgument)));
}

#[test]
fn test_lru_eviction() {
    let mut maps = MapStore::new();
    let def = MapDef { map_type: MapType::LruHash, key_size: 8, value_size: 8, max_entries: 2 };
    let map_id = maps.create(&def).unwrap();

    for i in 0u64..2 {
        let value = i * 10;
        maps.update_elem(map_id, &i.to_le_bytes(), &value.to_le_bytes(), 0).unwrap();
    }

    let key: u64 = 2;
    let value: u64 = 20;
    let result = maps.update_elem(map_id, &key.to_le_bytes(), &value.to_le_bytes(), 0);
    assert!(result.is_ok());

    let lookup = maps.lookup_elem(map_id, &0u64.to_le_bytes());
    assert!(lookup.is_none());
}

#[test]
fn test_destroy_map() {
    let mut maps = MapStore::new();
    let def = MapDef { map_type: MapType::Array, key_size: 8, value_size: 8, max_entries: 16 };
    let map_id = maps.create(&def).unwrap();

    let result = maps.destroy(map_id);
    assert!(result.is_ok());
}

#[test]
fn test_destroy_nonexistent_map() {
    let mut maps = MapStore::new();
    let result = maps.destroy(9999);
    assert!(matches!(result, Err(Error::NotFound)));
}

#[test]
fn test_invalid_key_size() {
    let mut maps = MapStore::new();
    let def = MapDef { map_type: MapType::Array, key_size: 8, value_size: 8, max_entries: 16 };
    let map_id = maps.create(&def).unwrap();

    let key: u32 = 0;
    let value: u64 = 100;
    let result = maps.update_elem(map_id, &key.to_le_bytes(), &value.to_le_bytes(), 0);
    assert!(matches!(result, Err(Error::InvalidArgument)));
}

#[test]
fn test_invalid_value_size() {
    let mut maps = MapStore::new();
    let def = MapDef { map_type: MapType::Array, key_size: 8, value_size: 8, max_entries: 16 };
    let map_id = maps.create(&def).unwrap();

    let key: u64 = 0;
    let value: u32 = 100;
    let result = maps.update_elem(map_id, &key.to_le_bytes(), &value.to_le_bytes(), 0);
    assert!(matches!(result, Err(Error::InvalidArgument)));
}

#[test]
fn map_round_trip() {
    let mut maps = MapStore::new();
    let def = MapDef { map_type: MapType::Array, key_size: 8, value_size: 8, max_entries: 16 };
    let map_id = maps.create(&def).unwrap();

    maps.update_elem(map_id, &0u64.to_le_bytes(), &12345u64.to_le_bytes(), 0).unwrap();
    let got = maps.lookup_elem(map_id, &0u64.to_le_bytes()).unwrap();
    assert_eq!(got, 12345u64.to_le_bytes().to_vec());

    assert!(maps.delete_elem(map_id, &0u64.to_le_bytes()).is_ok());
    assert!(maps.lookup_elem(map_id, &0u64.to_le_bytes()).is_none());
}

#[test]
fn lru_eviction_keeps_recent_keys() {
    let mut maps = MapStore::new();
    let def = MapDef { map_type: MapType::LruHash, key_size: 8, value_size: 8, max_entries: 2 };
    let map_id = maps.create(&def).unwrap();

    maps.update_elem(map_id, &0u64.to_le_bytes(), &0u64.to_le_bytes(), 0).unwrap();
    maps.update_elem(map_id, &1u64.to_le_bytes(), &10u64.to_le_bytes(), 0).unwrap();
    maps.update_elem(map_id, &2u64.to_le_bytes(), &20u64.to_le_bytes(), 0).unwrap();

    assert!(maps.lookup_elem(map_id, &0u64.to_le_bytes()).is_none());
    assert_eq!(
        maps.lookup_elem(map_id, &1u64.to_le_bytes()),
        Some(10u64.to_le_bytes().to_vec())
    );
    assert_eq!(
        maps.lookup_elem(map_id, &2u64.to_le_bytes()),
        Some(20u64.to_le_bytes().to_vec())
    );
}

#[test]
fn queue_push_pop_fifo() {
    let mut maps = MapStore::new();
    let def = MapDef { map_type: MapType::Queue, key_size: 0, value_size: 8, max_entries: 2 };
    let map_id = maps.create(&def).unwrap();

    maps.push_elem(map_id, &1u64.to_le_bytes()).unwrap();
    maps.push_elem(map_id, &2u64.to_le_bytes()).unwrap();
    assert!(matches!(
        maps.push_elem(map_id, &3u64.to_le_bytes()),
        Err(Error::NoSpace)
    ));

    assert_eq!(maps.pop_elem(map_id).unwrap(), Some(1u64.to_le_bytes().to_vec()));
    assert_eq!(maps.pop_elem(map_id).unwrap(), Some(2u64.to_le_bytes().to_vec()));
    assert_eq!(maps.pop_elem(map_id).unwrap(), None);
}

#[test]
fn ringbuf_descriptor_must_be_page_aligned_power_of_two() {
    let mut maps = MapStore::new();
    let bad = MapDef { map_type: MapType::RingBuf, key_size: 0, value_size: 0, max_entries: 5000 };
    assert!(matches!(maps.create(&bad), Err(Error::InvalidArgument)));

    let good = MapDef {
        map_type: MapType::RingBuf,
        key_size: 0,
        value_size: 0,
        max_entries: 65536,
    };
    assert!(maps.create(&good).is_ok());
}

#[test]
fn queue_descriptor_needs_zero_key_size() {
    let mut maps = MapStore::new();
    let bad = MapDef { map_type: MapType::Queue, key_size: 4, value_size: 8, max_entries: 8 };
    assert!(matches!(maps.create(&bad), Err(Error::InvalidArgument)));
}

#[test]
fn handles_are_reused_after_destroy() {
    let mut maps = MapStore::new();
    let def = MapDef { map_type: MapType::HashMap, key_size: 4, value_size: 4, max_entries: 4 };
    let a = maps.create(&def).unwrap();
    let b = maps.create(&def).unwrap();
    assert_ne!(a, b);
    maps.destroy(a).unwrap();
    let c = maps.create(&def).unwrap();
    assert_eq!(a, c);
}

#[test]
fn insert_only_flag_refuses_an_existing_key() {
    let mut maps = MapStore::new();
    let def = MapDef { map_type: MapType::HashMap, key_size: 8, value_size: 8, max_entries: 16 };
    let map_id = maps.create(&def).unwrap();
    let key: u64 = 7;
    assert!(maps.update_elem(map_id, &key.to_le_bytes(), &1u64.to_le_bytes(), 1).is_ok());
    let again = maps.update_elem(map_id, &key.to_le_bytes(), &2u64.to_le_bytes(), 1);
    assert_eq!(again, Err(Error::InvalidArgument));
    let mut buf = [0u8; 8];
    buf.copy_from_slice(&maps.lookup_elem(map_id, &key.to_le_bytes()).unwrap());
    assert_eq!(u64::from_le_bytes(buf), 1);
}

#[test]
fn update_only_flag_refuses_an_absent_key() {
    let mut maps = MapStore::new();
    let def = MapDef { map_type: MapType::HashMap, key_size: 8, value_size: 8, max_entries: 16 };
    let map_id = maps.create(&def).unwrap();
    let key: u64 = 9;
    let missing = maps.update_elem(map_id, &key.to_le_bytes(), &1u64.to_le_bytes(), 2);
    assert_eq!(missing, Err(Error::KeyNotFound));
    assert!(maps.update_elem(map_id, &key.to_le_bytes(), &1u64.to_le_bytes(), 0).is_ok());
    assert!(maps.update_elem(map_id, &key.to_le_bytes(), &5u64.to_le_bytes(), 2).is_ok());
    let mut buf = [0u8; 8];
    buf.copy_from_slice(&maps.lookup_elem(map_id, &key.to_le_bytes()).unwrap());
    assert_eq!(u64::from_le_bytes(buf), 5);
}

#[test]
fn unknown_update_flags_are_rejected() {
    let mut maps = MapStore::new();
    let def = MapDef { map_type: MapType::Array, key_size: 8, value_size: 8, max_entries: 4 };
    let map_id = maps.create(&def).unwrap();
    let key: u64 = 0;
    let locked = maps.update_elem(map_id, &key.to_le_bytes(), &1u64.to_le_bytes(), 4);
    assert_eq!(locked, Err(Error::InvalidArgument));
    let both = maps.update_elem(map_id, &key.to_le_bytes(), &1u64.to_le_bytes(), 3);
    assert_eq!(both, Err(Error::InvalidArgument));
    let insert_only = maps.update_elem(map_id, &key.to_le_bytes(), &1u64.to_le_bytes(), 1);
    assert_eq!(insert_only, Err(Error::InvalidArgument));
}
