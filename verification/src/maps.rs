//! Typed map subsystem: Array, Hash, LruHash, Queue and RingBuf storage
//! behind a descriptor-indexed registry of dense integer handles.
//!
//! Every operation validates key and value sizes against the map's
//! descriptor, non-LRU capacity-bound maps never grow past `max_entries`,
//! and an LruHash evicts its least-recently-used entry on insert at
//! capacity.

use vstd::prelude::*;

use crate::bytes::{bytes_eq, copy_bytes, le_bytes_to_nat, le_bytes_to_u64};

verus! {

/// Map kind.
#[derive(Debug, Clone, Copy, PartialEq, Eq, Structural)]
pub enum MapType {
    /// Fixed-size array, little-endian integer keys in [0, max_entries).
    Array,
    /// Hash table with arbitrary fixed-size keys.
    HashMap,
    /// Hash table that evicts the least-recently-used entry at capacity.
    LruHash,
    /// Bounded FIFO queue of fixed-size records.
    Queue,
    /// Byte-bounded FIFO stream of variable-size records.
    RingBuf,
}

/// Immutable map descriptor.
#[derive(Debug, Clone, Copy, PartialEq, Eq, Structural)]
pub struct MapDef {
    /// Kind of map.
    pub map_type: MapType,
    /// Size of every key in bytes.
    pub key_size: u32,
    /// Size of every value in bytes.
    pub value_size: u32,
    /// Capacity: entry count, or byte capacity for RingBuf.
    pub max_entries: u32,
}

/// Error surface of the map subsystem.
#[derive(Debug, Clone, PartialEq, Eq, Structural)]
pub enum Error {
    /// No map lives at the handle.
    NotFound,
    /// The key is not present in the map.
    KeyNotFound,
    /// The map is at capacity.
    NoSpace,
    /// A size or flag does not match the descriptor.
    InvalidArgument,
    /// The map kind cannot perform the operation.
    NotSupported,
}

/// Update flag asking that the key not exist yet: insert-only.
pub const UPDATE_NEW_ONLY: u64 = 1;

/// Update flag asking that the key already exist: update-only.
pub const UPDATE_EXISTING: u64 = 2;

/// Storage of one map, by kind.
pub enum MapData {
    /// One optional value per index; `None` until written or after delete.
    Array(Vec<Option<Vec<u8>>>),
    /// Unordered association list with unique keys.
    Hash(Vec<(Vec<u8>, Vec<u8>)>),
    /// Association list ordered by recency: index 0 is least recently used.
    Lru(Vec<(Vec<u8>, Vec<u8>)>),
    /// FIFO records, index 0 oldest.
    Queue(Vec<Vec<u8>>),
    /// FIFO records bounded by total byte size, index 0 oldest.
    RingBuf(Vec<Vec<u8>>),
}

/// One live map: its descriptor and its contents.
pub struct BpfMap {
    /// The immutable descriptor the map was created from.
    pub def: MapDef,
    /// The contents.
    pub data: MapData,
}

/// Mathematical view of one map.
#[verifier::ext_equal]
pub struct MapView {
    /// Kind.
    pub kind: MapType,
    /// Key size in bytes.
    pub key_size: nat,
    /// Value size in bytes.
    pub value_size: nat,
    /// Capacity.
    pub max_entries: nat,
    /// Array contents (Array only).
    pub array: Seq<Option<Seq<u8>>>,
    /// Keyed entries (HashMap and LruHash; for LruHash index 0 is the
    /// least recently used).
    pub entries: Seq<(Seq<u8>, Seq<u8>)>,
    /// Stream records, oldest first (Queue and RingBuf).
    pub records: Seq<Seq<u8>>,
}

/// Deep view of an association list.
pub open spec fn entries_view(entries: Seq<(Vec<u8>, Vec<u8>)>) -> Seq<(Seq<u8>, Seq<u8>)> {
    entries.map_values(|p: (Vec<u8>, Vec<u8>)| (p.0@, p.1@))
}

/// Deep view of an array's slots.
pub open spec fn slots_view(slots: Seq<Option<Vec<u8>>>) -> Seq<Option<Seq<u8>>> {
    slots.map_values(
        |o: Option<Vec<u8>>|
            match o {
                Some(v) => Some(v@),
                None => None,
            },
    )
}

/// Deep view of a record stream.
pub open spec fn records_view(records: Seq<Vec<u8>>) -> Seq<Seq<u8>> {
    records.map_values(|r: Vec<u8>| r@)
}

impl View for BpfMap {
    type V = MapView;

    open spec fn view(&self) -> MapView {
        MapView {
            kind: self.def.map_type,
            key_size: self.def.key_size as nat,
            value_size: self.def.value_size as nat,
            max_entries: self.def.max_entries as nat,
            array: match self.data {
                MapData::Array(ref s) => slots_view(s@),
                _ => Seq::empty(),
            },
            entries: match self.data {
                MapData::Hash(ref e) => entries_view(e@),
                MapData::Lru(ref e) => entries_view(e@),
                _ => Seq::empty(),
            },
            records: match self.data {
                MapData::Queue(ref r) => records_view(r@),
                MapData::RingBuf(ref r) => records_view(r@),
                _ => Seq::empty(),
            },
        }
    }
}

/// Whether an association list holds a key.
pub open spec fn view_contains_key(entries: Seq<(Seq<u8>, Seq<u8>)>, key: Seq<u8>) -> bool {
    exists|i: int| 0 <= i < entries.len() && entries[i].0 == key
}

/// The value an association list binds to a key (meaningful when unique).
pub open spec fn view_value_of(entries: Seq<(Seq<u8>, Seq<u8>)>, key: Seq<u8>) -> Seq<u8> {
    let i = choose|i: int| 0 <= i < entries.len() && entries[i].0 == key;
    entries[i].1
}

/// The index at which an association list holds a key.
pub open spec fn view_index_of(entries: Seq<(Seq<u8>, Seq<u8>)>, key: Seq<u8>) -> int {
    choose|i: int| 0 <= i < entries.len() && entries[i].0 == key
}

/// Keys are pairwise distinct.
pub open spec fn view_keys_unique(entries: Seq<(Seq<u8>, Seq<u8>)>) -> bool {
    forall|i: int, j: int|
        0 <= i < j < entries.len() ==> entries[i].0 != entries[j].0
}

/// Total byte size of a record stream.
pub open spec fn records_bytes(records: Seq<Seq<u8>>) -> nat
    decreases records.len(),
{
    if records.len() == 0 {
        0
    } else {
        records[0].len() + records_bytes(records.drop_first())
    }
}

/// A power of two.
pub open spec fn spec_is_power_of_two(m: u32) -> bool {
    m > 0 && (m & (m - 1) as u32) == 0
}

/// Validity of a descriptor, as `create` enforces it.
pub open spec fn def_valid(def: MapDef) -> bool {
    match def.map_type {
        MapType::Array => def.key_size > 0 && def.value_size > 0 && def.max_entries > 0,
        MapType::HashMap => def.key_size > 0 && def.value_size > 0 && def.max_entries > 0,
        MapType::LruHash => def.key_size > 0 && def.value_size > 0 && def.max_entries > 0,
        MapType::Queue => def.key_size == 0 && def.value_size > 0 && def.max_entries > 0,
        MapType::RingBuf => def.key_size == 0 && def.value_size == 0 && spec_is_power_of_two(
            def.max_entries,
        ) && def.max_entries % 4096 == 0,
    }
}

impl MapView {
    /// Well-formedness: the contents fit the descriptor.
    pub open spec fn wf(self) -> bool {
        match self.kind {
            MapType::Array => {
                &&& self.key_size > 0
                &&& self.value_size > 0
                &&& self.max_entries > 0
                &&& self.array.len() == self.max_entries
                &&& forall|i: int|
                    0 <= i < self.array.len() ==> ((#[trigger] self.array[i]) matches Some(v)
                        ==> v.len() == self.value_size)
                &&& self.entries.len() == 0
                &&& self.records.len() == 0
            },
            MapType::HashMap | MapType::LruHash => {
                &&& self.key_size > 0
                &&& self.value_size > 0
                &&& self.max_entries > 0
                &&& self.entries.len() <= self.max_entries
                &&& view_keys_unique(self.entries)
                &&& forall|i: int|
                    0 <= i < self.entries.len() ==> (#[trigger] self.entries[i]).0.len()
                        == self.key_size && self.entries[i].1.len() == self.value_size
                &&& self.array.len() == 0
                &&& self.records.len() == 0
            },
            MapType::Queue => {
                &&& self.key_size == 0
                &&& self.value_size > 0
                &&& self.max_entries > 0
                &&& self.records.len() <= self.max_entries
                &&& forall|i: int|
                    0 <= i < self.records.len() ==> (#[trigger] self.records[i]).len()
                        == self.value_size
                &&& self.array.len() == 0
                &&& self.entries.len() == 0
            },
            MapType::RingBuf => {
                &&& self.key_size == 0
                &&& self.value_size == 0
                &&& records_bytes(self.records) <= self.max_entries
                &&& self.array.len() == 0
                &&& self.entries.len() == 0
            },
        }
    }

    /// Number of live entries.
    pub open spec fn entry_count(self) -> nat {
        match self.kind {
            MapType::Array => Seq::new(
                self.array.len(),
                |i: int| self.array[i],
            ).filter(|o: Option<Seq<u8>>| o is Some).len(),
            MapType::HashMap | MapType::LruHash => self.entries.len(),
            MapType::Queue | MapType::RingBuf => self.records.len(),
        }
    }
}

/// The view of a freshly created map.
pub open spec fn empty_view(def: MapDef) -> MapView {
    MapView {
        kind: def.map_type,
        key_size: def.key_size as nat,
        value_size: def.value_size as nat,
        max_entries: def.max_entries as nat,
        array: if def.map_type is Array {
            Seq::new(def.max_entries as nat, |i: int| None)
        } else {
            Seq::empty()
        },
        entries: Seq::empty(),
        records: Seq::empty(),
    }
}

/// Outcome of `update` on one map: the result and the map afterwards.
pub open spec fn spec_update(v: MapView, key: Seq<u8>, value: Seq<u8>, flags: u64) -> (Result<
    (),
    Error,
>, MapView) {
    if flags > UPDATE_EXISTING || key.len() != v.key_size || value.len() != v.value_size {
        (Err(Error::InvalidArgument), v)
    } else {
        match v.kind {
            MapType::Array => {
                let idx = le_bytes_to_nat(key);
                if flags == UPDATE_NEW_ONLY {
                    (Err(Error::InvalidArgument), v)
                } else if idx >= v.max_entries {
                    (Err(Error::InvalidArgument), v)
                } else {
                    (Ok(()), MapView { array: v.array.update(idx as int, Some(value)), ..v })
                }
            },
            MapType::HashMap => {
                if view_contains_key(v.entries, key) {
                    if flags == UPDATE_NEW_ONLY {
                        (Err(Error::InvalidArgument), v)
                    } else {
                        let i = view_index_of(v.entries, key);
                        (Ok(()), MapView { entries: v.entries.update(i, (key, value)), ..v })
                    }
                } else if flags == UPDATE_EXISTING {
                    (Err(Error::KeyNotFound), v)
                } else if v.entries.len() >= v.max_entries {
                    (Err(Error::NoSpace), v)
                } else {
                    (Ok(()), MapView { entries: v.entries.push((key, value)), ..v })
                }
            },
            MapType::LruHash => {
                if view_contains_key(v.entries, key) {
                    if flags == UPDATE_NEW_ONLY {
                        (Err(Error::InvalidArgument), v)
                    } else {
                        let i = view_index_of(v.entries, key);
                        (
                            Ok(()),
                            MapView { entries: v.entries.remove(i).push((key, value)), ..v },
                        )
                    }
                } else if flags == UPDATE_EXISTING {
                    (Err(Error::KeyNotFound), v)
                } else if v.entries.len() >= v.max_entries {
                    (
                        Ok(()),
                        MapView { entries: v.entries.drop_first().push((key, value)), ..v },
                    )
                } else {
                    (Ok(()), MapView { entries: v.entries.push((key, value)), ..v })
                }
            },
            MapType::Queue | MapType::RingBuf => (Err(Error::NotSupported), v),
        }
    }
}

/// Outcome of `lookup` on one map: the value found and the map afterwards
/// (an LruHash refreshes the looked-up entry's recency).
pub open spec fn spec_lookup(v: MapView, key: Seq<u8>) -> (Option<Seq<u8>>, MapView) {
    if key.len() != v.key_size {
        (None, v)
    } else {
        match v.kind {
            MapType::Array => {
                let idx = le_bytes_to_nat(key);
                if idx >= v.max_entries {
                    (None, v)
                } else {
                    (v.array[idx as int], v)
                }
            },
            MapType::HashMap => {
                if view_contains_key(v.entries, key) {
                    (Some(view_value_of(v.entries, key)), v)
                } else {
                    (None, v)
                }
            },
            MapType::LruHash => {
                if view_contains_key(v.entries, key) {
                    let i = view_index_of(v.entries, key);
                    (
                        Some(view_value_of(v.entries, key)),
                        MapView { entries: v.entries.remove(i).push(v.entries[i]), ..v },
                    )
                } else {
                    (None, v)
                }
            },
            MapType::Queue | MapType::RingBuf => (None, v),
        }
    }
}

/// Outcome of `delete` on one map.
pub open spec fn spec_delete(v: MapView, key: Seq<u8>) -> (Result<(), Error>, MapView) {
    if key.len() != v.key_size {
        (Err(Error::InvalidArgument), v)
    } else {
        match v.kind {
            MapType::Array => {
                let idx = le_bytes_to_nat(key);
                if idx >= v.max_entries {
                    (Err(Error::InvalidArgument), v)
                } else if v.array[idx as int] is None {
                    (Err(Error::KeyNotFound), v)
                } else {
                    (Ok(()), MapView { array: v.array.update(idx as int, None), ..v })
                }
            },
            MapType::HashMap | MapType::LruHash => {
                if view_contains_key(v.entries, key) {
                    let i = view_index_of(v.entries, key);
                    (Ok(()), MapView { entries: v.entries.remove(i), ..v })
                } else {
                    (Err(Error::KeyNotFound), v)
                }
            },
            MapType::Queue | MapType::RingBuf => (Err(Error::NotSupported), v),
        }
    }
}

/// Outcome of `push` on one map.
pub open spec fn spec_push(v: MapView, rec: Seq<u8>) -> (Result<(), Error>, MapView) {
    match v.kind {
        MapType::Queue => {
            if rec.len() != v.value_size {
                (Err(Error::InvalidArgument), v)
            } else if v.records.len() >= v.max_entries {
                (Err(Error::NoSpace), v)
            } else {
                (Ok(()), MapView { records: v.records.push(rec), ..v })
            }
        },
        MapType::RingBuf => {
            if records_bytes(v.records) + rec.len() > v.max_entries {
                (Err(Error::NoSpace), v)
            } else {
                (Ok(()), MapView { records: v.records.push(rec), ..v })
            }
        },
        _ => (Err(Error::NotSupported), v),
    }
}

/// Outcome of `pop` on one map.
pub open spec fn spec_pop(v: MapView) -> (Result<Option<Seq<u8>>, Error>, MapView) {
    match v.kind {
        MapType::Queue | MapType::RingBuf => {
            if v.records.len() == 0 {
                (Ok(None), v)
            } else {
                (Ok(Some(v.records[0])), MapView { records: v.records.drop_first(), ..v })
            }
        },
        _ => (Err(Error::NotSupported), v),
    }
}

/// Appending a record grows a stream's byte total by the record's length.
pub proof fn lemma_records_bytes_push(records: Seq<Seq<u8>>, rec: Seq<u8>)
    ensures
        records_bytes(records.push(rec)) == records_bytes(records) + rec.len(),
    decreases records.len(),
{
    if records.len() == 0 {
        let p = records.push(rec);
        assert(p[0] == rec);
        assert(p.drop_first().len() == 0);
        assert(records_bytes(p.drop_first()) == 0);
        assert(records_bytes(records) == 0);
    } else {
        assert(records.push(rec).drop_first() =~= records.drop_first().push(rec));
        lemma_records_bytes_push(records.drop_first(), rec);
    }
}

/// First index of an association list holding the key, left to right.
fn find_key_index(entries: &Vec<(Vec<u8>, Vec<u8>)>, key: &[u8]) -> (r: Option<usize>)
    ensures
        match r {
            Some(i) => 0 <= i < entries@.len() && entries@[i as int].0@ == key@ && forall|j: int|
                0 <= j < i ==> entries@[j].0@ != key@,
            None => forall|j: int| 0 <= j < entries@.len() ==> entries@[j].0@ != key@,
        },
{
    let mut i: usize = 0;
    while i < entries.len()
        invariant
            i <= entries@.len(),
            forall|j: int| 0 <= j < i ==> entries@[j].0@ != key@,
        decreases entries@.len() - i,
    {
        if bytes_eq(entries[i].0.as_slice(), key) {
            return Some(i);
        }
        i = i + 1;
    }
    None
}

impl BpfMap {
    /// Well-formedness: the storage variant matches the descriptor's kind
    /// and the contents fit the descriptor.
    pub open spec fn inv(&self) -> bool {
        &&& self@.wf()
        &&& match self.data {
            MapData::Array(_) => self.def.map_type is Array,
            MapData::Hash(_) => self.def.map_type is HashMap,
            MapData::Lru(_) => self.def.map_type is LruHash,
            MapData::Queue(_) => self.def.map_type is Queue,
            MapData::RingBuf(_) => self.def.map_type is RingBuf,
        }
    }

    /// A key index found by search is the one the view speaks of.
    proof fn lemma_found_is_witness(entries: Seq<(Seq<u8>, Seq<u8>)>, key: Seq<u8>, i: int)
        requires
            view_keys_unique(entries),
            0 <= i < entries.len(),
            entries[i].0 == key,
        ensures
            view_contains_key(entries, key),
            view_index_of(entries, key) == i,
            view_value_of(entries, key) == entries[i].1,
    {
        let j = view_index_of(entries, key);
        assert(0 <= j < entries.len() && entries[j].0 == key);
        if i != j {
            assert(false);
        }
    }

    /// Update one map in place.
    pub fn update(&mut self, key: &[u8], value: &[u8], flags: u64) -> (r: Result<(), Error>)
        requires
            old(self).inv(),
        ensures
            final(self).inv(),
            final(self).def == old(self).def,
            r == spec_update(old(self)@, key@, value@, flags).0,
            final(self)@ == spec_update(old(self)@, key@, value@, flags).1,
    {
        let ghost v0 = self@;
        if flags > UPDATE_EXISTING || key.len() != self.def.key_size as usize || value.len()
            != self.def.value_size as usize {
            return Err(Error::InvalidArgument);
        }
        let max = self.def.max_entries;
        match &mut self.data {
            MapData::Array(slots) => {
                proof {
                    assert(v0.array == slots_view(slots@));
                    assert(slots@.len() == v0.array.len());
                }
                if flags == UPDATE_NEW_ONLY {
                    // Array keys always exist: an insert-only update is refused.
                    return Err(Error::InvalidArgument);
                }
                let idx_ok: Option<u64> = le_bytes_to_u64(key);
                match idx_ok {
                    None => Err(Error::InvalidArgument),
                    Some(idx) => {
                        if idx >= max as u64 {
                            Err(Error::InvalidArgument)
                        } else {
                            slots.set(idx as usize, Some(copy_bytes(value)));
                            proof {
                                assert(self@.array =~~= spec_update(
                                    v0,
                                    key@,
                                    value@,
                                    flags,
                                ).1.array);
                                assert(self@ =~~= spec_update(v0, key@, value@, flags).1);
                            }
                            Ok(())
                        }
                    },
                }
            },
            MapData::Hash(entries) => {
                proof {
                    assert(v0.entries == entries_view(entries@));
                    assert(entries@.len() == v0.entries.len());
                }
                match find_key_index(entries, key) {
                    Some(i) => {
                        proof {
                            Self::lemma_found_is_witness(v0.entries, key@, i as int);
                        }
                        if flags == UPDATE_NEW_ONLY {
                            return Err(Error::InvalidArgument);
                        }
                        let pair = &mut entries[i];
                        pair.1 = copy_bytes(value);
                        proof {
                            assert(self@.entries =~~= spec_update(
                                v0,
                                key@,
                                value@,
                                flags,
                            ).1.entries);
                            assert(self@ =~~= spec_update(v0, key@, value@, flags).1);
                        }
                        Ok(())
                    },
                    None => {
                        if flags == UPDATE_EXISTING {
                            return Err(Error::KeyNotFound);
                        }
                        if entries.len() >= max as usize {
                            Err(Error::NoSpace)
                        } else {
                            entries.push((copy_bytes(key), copy_bytes(value)));
                            proof {
                                assert(self@.entries =~~= spec_update(
                                    v0,
                                    key@,
                                    value@,
                                    flags,
                                ).1.entries);
                                assert(self@ =~~= spec_update(v0, key@, value@, flags).1);
                            }
                            Ok(())
                        }
                    },
                }
            },
            MapData::Lru(entries) => {
                proof {
                    assert(v0.entries == entries_view(entries@));
                    assert(entries@.len() == v0.entries.len());
                }
                match find_key_index(entries, key) {
                    Some(i) => {
                        proof {
                            Self::lemma_found_is_witness(v0.entries, key@, i as int);
                        }
                        if flags == UPDATE_NEW_ONLY {
                            return Err(Error::InvalidArgument);
                        }
                        let _old_pair = entries.remove(i);
                        entries.push((copy_bytes(key), copy_bytes(value)));
                        proof {
                            assert(self@.entries =~~= spec_update(
                                v0,
                                key@,
                                value@,
                                flags,
                            ).1.entries);
                            assert(self@ =~~= spec_update(v0, key@, value@, flags).1);
                        }
                        Ok(())
                    },
                    None => {
                        if flags == UPDATE_EXISTING {
                            return Err(Error::KeyNotFound);
                        }
                        if entries.len() >= max as usize {
                            let _evicted = entries.remove(0);
                            entries.push((copy_bytes(key), copy_bytes(value)));
                            proof {
                                assert(v0.entries.remove(0) =~= v0.entries.drop_first());
                                assert(self@.entries =~~= spec_update(
                                    v0,
                                    key@,
                                    value@,
                                    flags,
                                ).1.entries);
                                assert(self@ =~~= spec_update(v0, key@, value@, flags).1);
                            }
                            Ok(())
                        } else {
                            entries.push((copy_bytes(key), copy_bytes(value)));
                            proof {
                                assert(self@.entries =~~= spec_update(
                                    v0,
                                    key@,
                                    value@,
                                    flags,
                                ).1.entries);
                                assert(self@ =~~= spec_update(v0, key@, value@, flags).1);
                            }
                            Ok(())
                        }
                    },
                }
            },
            MapData::Queue(_) => Err(Error::NotSupported),
            MapData::RingBuf(_) => Err(Error::NotSupported),
        }
    }

    /// Look one key up; an LruHash refreshes the entry's recency.
    pub fn lookup(&mut self, key: &[u8]) -> (r: Option<Vec<u8>>)
        requires
            old(self).inv(),
        ensures
            final(self).inv(),
            final(self).def == old(self).def,
            match r {
                Some(v) => spec_lookup(old(self)@, key@).0 == Some(v@),
                None => spec_lookup(old(self)@, key@).0 is None,
            },
            final(self)@ == spec_lookup(old(self)@, key@).1,
    {
        let ghost v0 = self@;
        if key.len() != self.def.key_size as usize {
            return None;
        }
        let max = self.def.max_entries;
        match &mut self.data {
            MapData::Array(slots) => {
                proof {
                    assert(v0.array == slots_view(slots@));
                    assert(slots@.len() == v0.array.len());
                }
                let idx_ok: Option<u64> = le_bytes_to_u64(key);
                match idx_ok {
                    None => None,
                    Some(idx) => {
                        if idx >= max as u64 {
                            None
                        } else {
                            match &slots[idx as usize] {
                                Some(v) => Some(copy_bytes(v.as_slice())),
                                None => None,
                            }
                        }
                    },
                }
            },
            MapData::Hash(entries) => {
                proof {
                    assert(v0.entries == entries_view(entries@));
                }
                match find_key_index(entries, key) {
                    Some(i) => {
                        proof {
                            Self::lemma_found_is_witness(v0.entries, key@, i as int);
                        }
                        Some(copy_bytes(entries[i].1.as_slice()))
                    },
                    None => None,
                }
            },
            MapData::Lru(entries) => {
                proof {
                    assert(v0.entries == entries_view(entries@));
                    assert(entries@.len() == v0.entries.len());
                }
                match find_key_index(entries, key) {
                    Some(i) => {
                        proof {
                            Self::lemma_found_is_witness(v0.entries, key@, i as int);
                        }
                        let pair = entries.remove(i);
                        let out = copy_bytes(pair.1.as_slice());
                        entries.push(pair);
                        proof {
                            assert(self@.entries =~~= spec_lookup(v0, key@).1.entries);
                            assert(self@ =~~= spec_lookup(v0, key@).1);
                        }
                        Some(out)
                    },
                    None => None,
                }
            },
            MapData::Queue(_) => None,
            MapData::RingBuf(_) => None,
        }
    }

    /// Delete one key.
    pub fn delete(&mut self, key: &[u8]) -> (r: Result<(), Error>)
        requires
            old(self).inv(),
        ensures
            final(self).inv(),
            final(self).def == old(self).def,
            r == spec_delete(old(self)@, key@).0,
            final(self)@ == spec_delete(old(self)@, key@).1,
    {
        let ghost v0 = self@;
        if key.len() != self.def.key_size as usize {
            return Err(Error::InvalidArgument);
        }
        let max = self.def.max_entries;
        match &mut self.data {
            MapData::Array(slots) => {
                proof {
                    assert(v0.array == slots_view(slots@));
                    assert(slots@.len() == v0.array.len());
                }
                let idx_ok: Option<u64> = le_bytes_to_u64(key);
                match idx_ok {
                    None => Err(Error::InvalidArgument),
                    Some(idx) => {
                        if idx >= max as u64 {
                            Err(Error::InvalidArgument)
                        } else if slots[idx as usize].is_none() {
                            Err(Error::KeyNotFound)
                        } else {
                            slots.set(idx as usize, None);
                            proof {
                                assert(self@.array =~= spec_delete(v0, key@).1.array);
                                assert(self@ =~= spec_delete(v0, key@).1);
                            }
                            Ok(())
                        }
                    },
                }
            },
            MapData::Hash(entries) => {
                proof {
                    assert(v0.entries == entries_view(entries@));
                    assert(entries@.len() == v0.entries.len());
                }
                match find_key_index(entries, key) {
                    Some(i) => {
                        proof {
                            Self::lemma_found_is_witness(v0.entries, key@, i as int);
                        }
                        let _removed = entries.remove(i);
                        proof {
                            assert(self@.entries =~~= spec_delete(v0, key@).1.entries);
                            assert(self@ =~~= spec_delete(v0, key@).1);
                        }
                        Ok(())
                    },
                    None => Err(Error::KeyNotFound),
                }
            },
            MapData::Lru(entries) => {
                proof {
                    assert(v0.entries == entries_view(entries@));
                    assert(entries@.len() == v0.entries.len());
                }
                match find_key_index(entries, key) {
                    Some(i) => {
                        proof {
                            Self::lemma_found_is_witness(v0.entries, key@, i as int);
                        }
                        let _removed = entries.remove(i);
                        proof {
                            assert(self@.entries =~~= spec_delete(v0, key@).1.entries);
                            assert(self@ =~~= spec_delete(v0, key@).1);
                        }
                        Ok(())
                    },
                    None => Err(Error::KeyNotFound),
                }
            },
            MapData::Queue(_) => Err(Error::NotSupported),
            MapData::RingBuf(_) => Err(Error::NotSupported),
        }
    }

    /// Append one record to a stream map.
    pub fn push(&mut self, rec: &[u8]) -> (r: Result<(), Error>)
        requires
            old(self).inv(),
        ensures
            final(self).inv(),
            final(self).def == old(self).def,
            r == spec_push(old(self)@, rec@).0,
            final(self)@ == spec_push(old(self)@, rec@).1,
    {
        let ghost v0 = self@;
        let max = self.def.max_entries;
        let vsize = self.def.value_size;
        match &mut self.data {
            MapData::Queue(records) => {
                proof {
                    assert(v0.records == records_view(records@));
                    assert(records@.len() == v0.records.len());
                }
                if rec.len() != vsize as usize {
                    Err(Error::InvalidArgument)
                } else if records.len() >= max as usize {
                    Err(Error::NoSpace)
                } else {
                    records.push(copy_bytes(rec));
                    proof {
                        assert(self@.records =~= spec_push(v0, rec@).1.records);
                        assert(self@ =~= spec_push(v0, rec@).1);
                    }
                    Ok(())
                }
            },
            MapData::RingBuf(records) => {
                proof {
                    assert(v0.records == records_view(records@));
                    assert(records_bytes(records_view(records@)) <= v0.max_entries);
                }
                let used = ringbuf_used_bytes(records);
                proof {
                    lemma_records_bytes_push(v0.records, rec@);
                }
                if rec.len() as u64 > max as u64 || used > max as u64 - rec.len() as u64 {
                    Err(Error::NoSpace)
                } else {
                    records.push(copy_bytes(rec));
                    proof {
                        assert(self@.records =~= spec_push(v0, rec@).1.records);
                        assert(self@ =~= spec_push(v0, rec@).1);
                    }
                    Ok(())
                }
            },
            _ => Err(Error::NotSupported),
        }
    }

    /// Remove and return the oldest record of a stream map.
    pub fn pop(&mut self) -> (r: Result<Option<Vec<u8>>, Error>)
        requires
            old(self).inv(),
        ensures
            final(self).inv(),
            final(self).def == old(self).def,
            match r {
                Ok(Some(v)) => spec_pop(old(self)@).0 == Ok::<Option<Seq<u8>>, Error>(
                    Some(v@),
                ),
                Ok(None) => spec_pop(old(self)@).0 == Ok::<Option<Seq<u8>>, Error>(None),
                Err(e) => spec_pop(old(self)@).0 == Err::<Option<Seq<u8>>, Error>(e),
            },
            final(self)@ == spec_pop(old(self)@).1,
    {
        let ghost v0 = self@;
        match &mut self.data {
            MapData::Queue(records) => {
                proof {
                    assert(v0.records == records_view(records@));
                    assert(records@.len() == v0.records.len());
                }
                if records.len() == 0 {
                    Ok(None)
                } else {
                    let rec = records.remove(0);
                    proof {
                        assert(v0.records.remove(0) =~= v0.records.drop_first());
                        assert(self@.records =~= spec_pop(v0).1.records);
                        assert(self@ =~= spec_pop(v0).1);
                        lemma_records_bytes_drop_first(v0.records);
                    }
                    Ok(Some(rec))
                }
            },
            MapData::RingBuf(records) => {
                proof {
                    assert(v0.records == records_view(records@));
                    assert(records@.len() == v0.records.len());
                }
                if records.len() == 0 {
                    Ok(None)
                } else {
                    let rec = records.remove(0);
                    proof {
                        assert(v0.records.remove(0) =~= v0.records.drop_first());
                        assert(self@.records =~= spec_pop(v0).1.records);
                        assert(self@ =~= spec_pop(v0).1);
                        lemma_records_bytes_drop_first(v0.records);
                    }
                    Ok(Some(rec))
                }
            },
            _ => Err(Error::NotSupported),
        }
    }
}

/// A key or value whose length differs from the descriptor never changes a
/// map: `update` fails with `InvalidArgument` and leaves the contents as
/// they were, whatever the map's kind.
pub proof fn lemma_update_size_mismatch(v: MapView, key: Seq<u8>, value: Seq<u8>, flags: u64)
    requires
        key.len() != v.key_size || value.len() != v.value_size,
    ensures
        spec_update(v, key, value, flags).0 == Err::<(), Error>(Error::InvalidArgument),
        spec_update(v, key, value, flags).1 == v,
{
}

/// `update` preserves well-formedness; in particular a non-LRU
/// capacity-bounded map never grows past `max_entries`, under any
/// interleaving of updates and deletes.
pub proof fn lemma_spec_update_wf(v: MapView, key: Seq<u8>, value: Seq<u8>, flags: u64)
    requires
        v.wf(),
    ensures
        spec_update(v, key, value, flags).1.wf(),
        spec_update(v, key, value, flags).1.entries.len() <= v.max_entries,
        spec_update(v, key, value, flags).1.records.len() == v.records.len(),
{
    let v2 = spec_update(v, key, value, flags).1;
    if flags == 0 && key.len() == v.key_size && value.len() == v.value_size {
        match v.kind {
            MapType::Array => {
                assert(v2.array.len() == v.array.len());
            },
            MapType::HashMap => {
                if view_contains_key(v.entries, key) {
                    let i = view_index_of(v.entries, key);
                    assert(view_keys_unique(v2.entries)) by {
                        assert(forall|a: int|
                            0 <= a < v2.entries.len() ==> (#[trigger] v2.entries[a]).0 == if a
                                == i {
                                key
                            } else {
                                v.entries[a].0
                            });
                    };
                }
            },
            MapType::LruHash => {
                if view_contains_key(v.entries, key) {
                    let i = view_index_of(v.entries, key);
                    let r = v.entries.remove(i);
                    let e2 = r.push((key, value));
                    assert(forall|a: int|
                        0 <= a < r.len() ==> #[trigger] r[a] == if a < i {
                            v.entries[a]
                        } else {
                            v.entries[a + 1]
                        });
                    assert(forall|a: int| 0 <= a < r.len() ==> (#[trigger] r[a]).0 != key);
                    assert(view_keys_unique(r));
                    assert(view_keys_unique(e2));
                } else if v.entries.len() >= v.max_entries {
                    let e2 = v.entries.drop_first().push((key, value));
                    assert(view_keys_unique(e2));
                }
            },
            MapType::Queue | MapType::RingBuf => {},
        }
    }
}

/// `delete` preserves well-formedness.
pub proof fn lemma_spec_delete_wf(v: MapView, key: Seq<u8>)
    requires
        v.wf(),
    ensures
        spec_delete(v, key).1.wf(),
        spec_delete(v, key).1.entries.len() <= v.entries.len(),
{
}

/// The pairwise zip of keys and values.
pub open spec fn zip_entries(keys: Seq<Seq<u8>>, values: Seq<Seq<u8>>) -> Seq<(Seq<u8>, Seq<u8>)> {
    Seq::new(keys.len(), |i: int| (keys[i], values[i]))
}

/// The map after inserting each key and value pair in order, oldest first.
pub open spec fn lru_insert_all(v: MapView, keys: Seq<Seq<u8>>, values: Seq<Seq<u8>>) -> MapView
    decreases keys.len(),
{
    if keys.len() == 0 {
        v
    } else {
        spec_update(
            lru_insert_all(v, keys.drop_last(), values.drop_last()),
            keys.last(),
            values.last(),
            0,
        ).1
    }
}

/// Filling an empty LruHash with distinct keys that fit its capacity keeps
/// them all, oldest first.
proof fn lemma_lru_fill(v: MapView, keys: Seq<Seq<u8>>, values: Seq<Seq<u8>>)
    requires
        v.wf(),
        v.kind is LruHash,
        v.entries.len() == 0,
        keys.len() == values.len(),
        keys.len() <= v.max_entries,
        forall|i: int| 0 <= i < keys.len() ==> (#[trigger] keys[i]).len() == v.key_size,
        forall|i: int| 0 <= i < values.len() ==> (#[trigger] values[i]).len() == v.value_size,
        forall|i: int, j: int| 0 <= i < j < keys.len() ==> keys[i] != keys[j],
    ensures
        lru_insert_all(v, keys, values).entries =~= zip_entries(keys, values),
        lru_insert_all(v, keys, values).kind == v.kind,
        lru_insert_all(v, keys, values).key_size == v.key_size,
        lru_insert_all(v, keys, values).value_size == v.value_size,
        lru_insert_all(v, keys, values).max_entries == v.max_entries,
    decreases keys.len(),
{
    if keys.len() == 0 {
        assert(zip_entries(keys, values) =~= Seq::<(Seq<u8>, Seq<u8>)>::empty());
    } else {
        let n = keys.len() as int;
        let dk = keys.drop_last();
        let dv = values.drop_last();
        lemma_lru_fill(v, dk, dv);
        let vp = lru_insert_all(v, dk, dv);
        assert(vp.entries =~= zip_entries(dk, dv));
        assert(!view_contains_key(vp.entries, keys.last())) by {
            assert(forall|i: int|
                0 <= i < vp.entries.len() ==> (#[trigger] vp.entries[i]).0 == keys[i]);
        };
        assert(vp.entries.len() < vp.max_entries);
        assert(lru_insert_all(v, keys, values).entries =~= vp.entries.push(
            (keys.last(), values.last()),
        ));
        assert(vp.entries.push((keys.last(), values.last())) =~= zip_entries(keys, values));
    }
}

/// LRU eviction, end to end: insert exactly `max_entries + 1` pairwise
/// distinct keys into an empty LruHash, with no intervening lookups or
/// updates. The first-inserted key is gone and every other key is present.
pub proof fn lemma_lru_eviction(v: MapView, keys: Seq<Seq<u8>>, values: Seq<Seq<u8>>)
    requires
        v.wf(),
        v.kind is LruHash,
        v.entries.len() == 0,
        keys.len() == values.len(),
        keys.len() == v.max_entries + 1,
        forall|i: int| 0 <= i < keys.len() ==> (#[trigger] keys[i]).len() == v.key_size,
        forall|i: int| 0 <= i < values.len() ==> (#[trigger] values[i]).len() == v.value_size,
        forall|i: int, j: int| 0 <= i < j < keys.len() ==> keys[i] != keys[j],
    ensures
        !view_contains_key(lru_insert_all(v, keys, values).entries, keys[0]),
        forall|i: int|
            1 <= i < keys.len() ==> view_contains_key(
                lru_insert_all(v, keys, values).entries,
                #[trigger] keys[i],
            ),
{
    let m = v.max_entries as int;
    let dk = keys.drop_last();
    let dv = values.drop_last();
    lemma_lru_fill(v, dk, dv);
    let vp = lru_insert_all(v, dk, dv);
    assert(vp.entries =~= zip_entries(dk, dv));
    assert(!view_contains_key(vp.entries, keys.last())) by {
        assert(forall|i: int|
            0 <= i < vp.entries.len() ==> (#[trigger] vp.entries[i]).0 == keys[i]);
    };
    assert(vp.entries.len() == vp.max_entries);
    let ef = lru_insert_all(v, keys, values).entries;
    assert(ef =~= vp.entries.drop_first().push((keys.last(), values.last())));
    assert(forall|a: int| 0 <= a < m - 1 ==> (#[trigger] ef[a]).0 == keys[a + 1]);
    assert(ef[m - 1].0 == keys[m]);
    assert(!view_contains_key(ef, keys[0])) by {
        assert(forall|a: int| 0 <= a < ef.len() ==> (#[trigger] ef[a]).0 != keys[0]);
    };
    assert(forall|i: int| 1 <= i < keys.len() ==> view_contains_key(ef, #[trigger] keys[i])) by {
        assert(forall|i: int|
            1 <= i < keys.len() ==> (#[trigger] keys[i]) == ef[i - 1].0 && 0 <= i - 1 < ef.len());
    };
}

/// Dropping the oldest record cannot grow a stream's byte total.
pub proof fn lemma_records_bytes_drop_first(records: Seq<Seq<u8>>)
    requires
        records.len() > 0,
    ensures
        records_bytes(records.drop_first()) <= records_bytes(records),
{
}

/// Total byte size a ring buffer currently uses.
fn ringbuf_used_bytes(records: &Vec<Vec<u8>>) -> (r: u64)
    requires
        records_bytes(records_view(records@)) <= u64::MAX,
    ensures
        r == records_bytes(records_view(records@)),
{
    let ghost rv = records_view(records@);
    let mut acc: u64 = 0;
    let mut i: usize = records.len();
    while i > 0
        invariant
            i <= records@.len(),
            rv == records_view(records@),
            rv.len() == records@.len(),
            acc == records_bytes(rv.subrange(i as int, rv.len() as int)),
            records_bytes(rv) <= u64::MAX,
        decreases i,
    {
        i = i - 1;
        proof {
            let sub = rv.subrange(i as int, rv.len() as int);
            assert(sub.drop_first() =~= rv.subrange(i as int + 1, rv.len() as int));
            assert(sub[0] == records@[i as int]@);
            lemma_records_bytes_suffix(rv, i as int);
        }
        acc = acc + records[i].len() as u64;
    }
    proof {
        assert(rv.subrange(0, rv.len() as int) =~= rv);
    }
    acc
}

/// A suffix of a stream never holds more bytes than the whole stream.
proof fn lemma_records_bytes_suffix(records: Seq<Seq<u8>>, i: int)
    requires
        0 <= i <= records.len(),
    ensures
        records_bytes(records.subrange(i, records.len() as int)) <= records_bytes(records),
    decreases i,
{
    if i == 0 {
        assert(records.subrange(0, records.len() as int) =~= records);
    } else {
        lemma_records_bytes_suffix(records.drop_first(), i - 1);
        assert(records.drop_first().subrange(i - 1, records.drop_first().len() as int) =~= records
            .subrange(i, records.len() as int));
    }
}

/// The registry of live maps: a map's handle is its slot index.
pub struct MapStore {
    /// Dense slots; a destroyed map leaves a reusable `None`.
    pub slots: Vec<Option<BpfMap>>,
}

impl View for MapStore {
    type V = Seq<Option<MapView>>;

    open spec fn view(&self) -> Seq<Option<MapView>> {
        self.slots@.map_values(
            |o: Option<BpfMap>|
                match o {
                    Some(m) => Some(m@),
                    None => None,
                },
        )
    }
}

impl MapStore {
    /// Every live map is well formed.
    pub open spec fn wf(self) -> bool {
        forall|i: int|
            0 <= i < self.slots@.len() ==> ((#[trigger] self.slots@[i]) matches Some(m)
                ==> m.inv())
    }

    /// A live map sits at the handle.
    pub open spec fn live(self, id: u32) -> bool {
        id < self@.len() && self@[id as int] is Some
    }

    /// The view of the map at a live handle.
    pub open spec fn map_at(self, id: u32) -> MapView {
        self@[id as int]->Some_0
    }

    /// An empty registry.
    pub fn new() -> (r: MapStore)
        ensures
            r@.len() == 0,
            r.wf(),
    {
        MapStore { slots: Vec::new() }
    }

    /// Number of live maps.
    pub fn count(&self) -> (r: usize)
        ensures
            r <= self@.len(),
    {
        let mut n: usize = 0;
        let mut i: usize = 0;
        while i < self.slots.len()
            invariant
                i <= self.slots.len(),
                n <= i,
                self@.len() == self.slots@.len(),
            decreases self.slots.len() - i,
        {
            if self.slots[i].is_some() {
                n = n + 1;
            }
            i = i + 1;
        }
        n
    }

    /// Number of live maps (registry-level alias of `count`).
    pub fn map_count(&self) -> (r: usize)
        ensures
            r <= self@.len(),
    {
        self.count()
    }

    /// A live map in a well-formed store has a well-formed view.
    pub proof fn lemma_map_at_wf(self, id: u32)
        requires
            self.wf(),
            self.live(id),
        ensures
            self.map_at(id).wf(),
    {
    }

    /// Create a map from a descriptor and hand out the lowest free handle.
    ///
    /// Fails with `InvalidArgument` exactly when the descriptor is invalid:
    /// a keyed map needs nonzero sizes and capacity, a Queue a zero key
    /// size, and a RingBuf zero key and value sizes with a power-of-two,
    /// page-aligned byte capacity.
    pub fn create(&mut self, def: &MapDef) -> (r: Result<u32, Error>)
        requires
            old(self).wf(),
        ensures
            final(self).wf(),
            match r {
                Ok(fd) => {
                    &&& def_valid(*def)
                    &&& (fd as int) <= old(self)@.len()
                    &&& ((fd as int) < old(self)@.len() ==> old(self)@[fd as int] is None
                        && final(self)@ == old(self)@.update(
                        fd as int,
                        Some(empty_view(*def)),
                    ))
                    &&& ((fd as int) == old(self)@.len() ==> final(self)@ == old(self)@.push(
                        Some(empty_view(*def)),
                    ))
                    &&& forall|j: int| 0 <= j < fd ==> old(self)@[j] is Some
                },
                Err(e) => {
                    &&& final(self)@ == old(self)@
                    &&& (e == Error::InvalidArgument <==> !def_valid(*def))
                    &&& (def_valid(*def) ==> e == Error::NoSpace && old(self)@.len()
                        >= u32::MAX as nat)
                },
            },
            def_valid(*def) && old(self)@.len() < u32::MAX as nat ==> r is Ok,
    {
        let valid = match def.map_type {
            MapType::Array => def.key_size > 0 && def.value_size > 0 && def.max_entries > 0,
            MapType::HashMap => def.key_size > 0 && def.value_size > 0 && def.max_entries > 0,
            MapType::LruHash => def.key_size > 0 && def.value_size > 0 && def.max_entries > 0,
            MapType::Queue => def.key_size == 0 && def.value_size > 0 && def.max_entries > 0,
            MapType::RingBuf => def.key_size == 0 && def.value_size == 0 && def.max_entries > 0
                && (def.max_entries & (def.max_entries - 1)) == 0 && def.max_entries % 4096
                == 0,
        };
        if !valid {
            return Err(Error::InvalidArgument);
        }
        let data = match def.map_type {
            MapType::Array => {
                let mut slots_vec: Vec<Option<Vec<u8>>> = Vec::new();
                let mut i: u32 = 0;
                while i < def.max_entries
                    invariant
                        i <= def.max_entries,
                        slots_vec@.len() == i,
                        forall|j: int| 0 <= j < i ==> slots_vec@[j] is None,
                    decreases def.max_entries - i,
                {
                    slots_vec.push(None);
                    i = i + 1;
                }
                MapData::Array(slots_vec)
            },
            MapType::HashMap => MapData::Hash(Vec::new()),
            MapType::LruHash => MapData::Lru(Vec::new()),
            MapType::Queue => MapData::Queue(Vec::new()),
            MapType::RingBuf => MapData::RingBuf(Vec::new()),
        };
        let m = BpfMap { def: *def, data };
        proof {
            assert(m@ =~~= empty_view(*def));
            assert(m.inv());
        }
        let n = self.slots.len();
        let mut fd: usize = 0;
        while fd < n && fd < u32::MAX as usize && self.slots[fd].is_some()
            invariant
                fd <= n,
                fd <= u32::MAX as usize,
                n == self.slots@.len(),
                forall|j: int| 0 <= j < fd ==> self.slots@[j] is Some,
            decreases n - fd,
        {
            fd = fd + 1;
        }
        if fd < n && fd < u32::MAX as usize {
            self.slots.set(fd, Some(m));
            proof {
                assert(self@ =~~= old(self)@.update(fd as int, Some(empty_view(*def))));
            }
            Ok(fd as u32)
        } else if n >= u32::MAX as usize {
            Err(Error::NoSpace)
        } else {
            self.slots.push(Some(m));
            proof {
                assert(self@ =~~= old(self)@.push(Some(empty_view(*def))));
            }
            Ok(fd as u32)
        }
    }

    /// Destroy the map at a handle; its slot becomes reusable.
    pub fn destroy(&mut self, map_id: u32) -> (r: Result<(), Error>)
        requires
            old(self).wf(),
        ensures
            final(self).wf(),
            r == if old(self).live(map_id) {
                Ok::<(), Error>(())
            } else {
                Err::<(), Error>(Error::NotFound)
            },
            old(self).live(map_id) ==> final(self)@ == old(self)@.update(
                map_id as int,
                None::<MapView>,
            ),
            !old(self).live(map_id) ==> final(self)@ == old(self)@,
    {
        if (map_id as usize) >= self.slots.len() {
            return Err(Error::NotFound);
        }
        if self.slots[map_id as usize].is_none() {
            return Err(Error::NotFound);
        }
        self.slots.set(map_id as usize, None);
        proof {
            assert(self@ =~~= old(self)@.update(map_id as int, None::<MapView>));
        }
        Ok(())
    }

    /// Update an element of the map at a handle.
    ///
    /// A key or value whose length differs from the descriptor fails with
    /// `InvalidArgument` and leaves every map unchanged.
    pub fn update_elem(&mut self, map_id: u32, key: &[u8], value: &[u8], flags: u64) -> (r:
        Result<(), Error>)
        requires
            old(self).wf(),
        ensures
            final(self).wf(),
            !old(self).live(map_id) ==> r == Err::<(), Error>(Error::NotFound) && final(self)@
                == old(self)@,
            old(self).live(map_id) ==> r == spec_update(
                old(self).map_at(map_id),
                key@,
                value@,
                flags,
            ).0 && final(self)@ == old(self)@.update(
                map_id as int,
                Some(spec_update(old(self).map_at(map_id), key@, value@, flags).1),
            ),
    {
        if (map_id as usize) >= self.slots.len() {
            return Err(Error::NotFound);
        }
        match &mut self.slots[map_id as usize] {
            None => Err(Error::NotFound),
            Some(m) => {
                let r = m.update(key, value, flags);
                proof {
                    assert(self@ =~~= old(self)@.update(
                        map_id as int,
                        Some(spec_update(old(self).map_at(map_id), key@, value@, flags).1),
                    ));
                }
                r
            },
        }
    }

    /// Look an element up in the map at a handle; `None` covers the missing
    /// map, a bad key size and an absent key alike.
    pub fn lookup_elem(&mut self, map_id: u32, key: &[u8]) -> (r: Option<Vec<u8>>)
        requires
            old(self).wf(),
        ensures
            final(self).wf(),
            !old(self).live(map_id) ==> r is None && final(self)@ == old(self)@,
            old(self).live(map_id) ==> match r {
                Some(v) => spec_lookup(old(self).map_at(map_id), key@).0 == Some(v@),
                None => spec_lookup(old(self).map_at(map_id), key@).0 is None,
            } && final(self)@ == old(self)@.update(
                map_id as int,
                Some(spec_lookup(old(self).map_at(map_id), key@).1),
            ),
    {
        if (map_id as usize) >= self.slots.len() {
            return None;
        }
        match &mut self.slots[map_id as usize] {
            None => None,
            Some(m) => {
                let r = m.lookup(key);
                proof {
                    assert(self@ =~~= old(self)@.update(
                        map_id as int,
                        Some(spec_lookup(old(self).map_at(map_id), key@).1),
                    ));
                }
                r
            },
        }
    }

    /// Delete an element of the map at a handle.
    pub fn delete_elem(&mut self, map_id: u32, key: &[u8]) -> (r: Result<(), Error>)
        requires
            old(self).wf(),
        ensures
            final(self).wf(),
            !old(self).live(map_id) ==> r == Err::<(), Error>(Error::NotFound) && final(self)@
                == old(self)@,
            old(self).live(map_id) ==> r == spec_delete(old(self).map_at(map_id), key@).0
                && final(self)@ == old(self)@.update(
                map_id as int,
                Some(spec_delete(old(self).map_at(map_id), key@).1),
            ),
    {
        if (map_id as usize) >= self.slots.len() {
            return Err(Error::NotFound);
        }
        match &mut self.slots[map_id as usize] {
            None => Err(Error::NotFound),
            Some(m) => {
                let r = m.delete(key);
                proof {
                    assert(self@ =~~= old(self)@.update(
                        map_id as int,
                        Some(spec_delete(old(self).map_at(map_id), key@).1),
                    ));
                }
                r
            },
        }
    }

    /// Append a record to the stream map at a handle.
    pub fn push_elem(&mut self, map_id: u32, rec: &[u8]) -> (r: Result<(), Error>)
        requires
            old(self).wf(),
        ensures
            final(self).wf(),
            !old(self).live(map_id) ==> r == Err::<(), Error>(Error::NotFound) && final(self)@
                == old(self)@,
            old(self).live(map_id) ==> r == spec_push(old(self).map_at(map_id), rec@).0
                && final(self)@ == old(self)@.update(
                map_id as int,
                Some(spec_push(old(self).map_at(map_id), rec@).1),
            ),
    {
        if (map_id as usize) >= self.slots.len() {
            return Err(Error::NotFound);
        }
        match &mut self.slots[map_id as usize] {
            None => Err(Error::NotFound),
            Some(m) => {
                let r = m.push(rec);
                proof {
                    assert(self@ =~~= old(self)@.update(
                        map_id as int,
                        Some(spec_push(old(self).map_at(map_id), rec@).1),
                    ));
                }
                r
            },
        }
    }

    /// Remove and return the oldest record of the stream map at a handle.
    pub fn pop_elem(&mut self, map_id: u32) -> (r: Result<Option<Vec<u8>>, Error>)
        requires
            old(self).wf(),
        ensures
            final(self).wf(),
            !old(self).live(map_id) ==> r == Err::<Option<Vec<u8>>, Error>(Error::NotFound)
                && final(self)@ == old(self)@,
            old(self).live(map_id) ==> match r {
                Ok(Some(v)) => spec_pop(old(self).map_at(map_id)).0 == Ok::<
                    Option<Seq<u8>>,
                    Error,
                >(Some(v@)),
                Ok(None) => spec_pop(old(self).map_at(map_id)).0 == Ok::<
                    Option<Seq<u8>>,
                    Error,
                >(None),
                Err(e) => spec_pop(old(self).map_at(map_id)).0 == Err::<
                    Option<Seq<u8>>,
                    Error,
                >(e),
            } && final(self)@ == old(self)@.update(
                map_id as int,
                Some(spec_pop(old(self).map_at(map_id)).1),
            ),
    {
        if (map_id as usize) >= self.slots.len() {
            return Err(Error::NotFound);
        }
        match &mut self.slots[map_id as usize] {
            None => Err(Error::NotFound),
            Some(m) => {
                let r = m.pop();
                proof {
                    assert(self@ =~~= old(self)@.update(
                        map_id as int,
                        Some(spec_pop(old(self).map_at(map_id)).1),
                    ));
                }
                r
            },
        }
    }

    /// All keys of the keyed map at a handle, least recently used first for
    /// an LruHash. Stream and array maps yield no keys here: their keys are
    /// positions, not stored bytes.
    pub fn iter_map_keys(&self, map_fd: u32) -> (r: Vec<Vec<u8>>)
        requires
            self.wf(),
        ensures
            self.live(map_fd) && (self.map_at(map_fd).kind is HashMap || self.map_at(
                map_fd,
            ).kind is LruHash) ==> r@.map_values(|k: Vec<u8>| k@) == self.map_at(
                map_fd,
            ).entries.map_values(|p: (Seq<u8>, Seq<u8>)| p.0),
            !(self.live(map_fd) && (self.map_at(map_fd).kind is HashMap || self.map_at(
                map_fd,
            ).kind is LruHash)) ==> r@.len() == 0,
    {
        let mut out: Vec<Vec<u8>> = Vec::new();
        if (map_fd as usize) >= self.slots.len() {
            return out;
        }
        match &self.slots[map_fd as usize] {
            None => out,
            Some(m) => {
                match &m.data {
                    MapData::Hash(entries) | MapData::Lru(entries) => {
                        let ghost ev = entries_view(entries@);
                        let mut i: usize = 0;
                        while i < entries.len()
                            invariant
                                i <= entries@.len(),
                                ev == entries_view(entries@),
                                ev.len() == entries@.len(),
                                out@.len() == i,
                                forall|j: int| 0 <= j < i ==> out@[j]@ == ev[j].0,
                            decreases entries@.len() - i,
                        {
                            out.push(copy_bytes(entries[i].0.as_slice()));
                            i = i + 1;
                        }
                        proof {
                            assert(out@.map_values(|k: Vec<u8>| k@) =~~= ev.map_values(
                                |p: (Seq<u8>, Seq<u8>)| p.0,
                            ));
                        }
                        out
                    },
                    _ => out,
                }
            },
        }
    }

    /// All entries of the keyed map at a handle, as key and value pairs in
    /// model order.
    pub fn iter_entries(&self, map_fd: u32) -> (r: Vec<(Vec<u8>, Vec<u8>)>)
        requires
            self.wf(),
        ensures
            self.live(map_fd) && (self.map_at(map_fd).kind is HashMap || self.map_at(
                map_fd,
            ).kind is LruHash) ==> entries_view(r@) == self.map_at(map_fd).entries,
            !(self.live(map_fd) && (self.map_at(map_fd).kind is HashMap || self.map_at(
                map_fd,
            ).kind is LruHash)) ==> r@.len() == 0,
    {
        let mut out: Vec<(Vec<u8>, Vec<u8>)> = Vec::new();
        if (map_fd as usize) >= self.slots.len() {
            return out;
        }
        match &self.slots[map_fd as usize] {
            None => out,
            Some(m) => {
                match &m.data {
                    MapData::Hash(entries) | MapData::Lru(entries) => {
                        let ghost ev = entries_view(entries@);
                        let mut i: usize = 0;
                        while i < entries.len()
                            invariant
                                i <= entries@.len(),
                                ev == entries_view(entries@),
                                ev.len() == entries@.len(),
                                out@.len() == i,
                                forall|j: int| 0 <= j < i ==> out@[j].0@ == ev[j].0
                                    && out@[j].1@ == ev[j].1,
                            decreases entries@.len() - i,
                        {
                            out.push(
                                (
                                    copy_bytes(entries[i].0.as_slice()),
                                    copy_bytes(entries[i].1.as_slice()),
                                ),
                            );
                            i = i + 1;
                        }
                        proof {
                            assert(entries_view(out@) =~~= ev);
                        }
                        out
                    },
                    _ => out,
                }
            },
        }
    }

    /// The kind of the map at a handle.
    pub fn map_kind(&self, map_fd: u32) -> (r: Option<MapType>)
        ensures
            match r {
                Some(k) => self.live(map_fd) && k == self.map_at(map_fd).kind,
                None => !self.live(map_fd),
            },
    {
        if (map_fd as usize) < self.slots.len() {
            match &self.slots[map_fd as usize] {
                Some(m) => Some(m.def.map_type),
                None => None,
            }
        } else {
            None
        }
    }

    /// Key and value size of the map at a handle.
    pub fn get_map_sizes(&self, map_fd: u32) -> (r: Option<(u32, u32)>)
        ensures
            match r {
                Some((k, v)) => self.live(map_fd) && k == self.map_at(map_fd).key_size && v
                    == self.map_at(map_fd).value_size,
                None => !self.live(map_fd),
            },
    {
        if (map_fd as usize) < self.slots.len() {
            match &self.slots[map_fd as usize] {
                Some(m) => Some((m.def.key_size, m.def.value_size)),
                None => None,
            }
        } else {
            None
        }
    }
}

} // verus!
