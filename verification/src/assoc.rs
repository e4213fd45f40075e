//! Association lists keyed by strings, shared by the name tables, the
//! attachment registry and the statistics manager.

use vstd::prelude::*;

verus! {

/// Whether a keyed list holds a name.
pub open spec fn key_contains<T>(entries: Seq<(Seq<char>, T)>, key: Seq<char>) -> bool {
    exists|i: int| 0 <= i < entries.len() && entries[i].0 == key
}

/// The first index at which a keyed list holds a name.
pub open spec fn key_index_of<T>(entries: Seq<(Seq<char>, T)>, key: Seq<char>) -> int {
    choose|i: int| 0 <= i < entries.len() && entries[i].0 == key
}

/// The value bound to a name (meaningful when keys are unique).
pub open spec fn key_value_of<T>(entries: Seq<(Seq<char>, T)>, key: Seq<char>) -> T {
    entries[key_index_of(entries, key)].1
}

/// Names are pairwise distinct.
pub open spec fn keys_unique<T>(entries: Seq<(Seq<char>, T)>) -> bool {
    forall|i: int, j: int| 0 <= i < j < entries.len() ==> entries[i].0 != entries[j].0
}

/// The deep view of a keyed list.
pub open spec fn assoc_view<T>(entries: Seq<(String, T)>) -> Seq<(Seq<char>, T)> {
    entries.map_values(|p: (String, T)| (p.0@, p.1))
}

/// With unique keys, a matching index is the index the view speaks of.
pub proof fn lemma_key_witness<T>(entries: Seq<(Seq<char>, T)>, key: Seq<char>, i: int)
    requires
        keys_unique(entries),
        0 <= i < entries.len(),
        entries[i].0 == key,
    ensures
        key_contains(entries, key),
        key_index_of(entries, key) == i,
        key_value_of(entries, key) == entries[i].1,
{
    let j = key_index_of(entries, key);
    assert(0 <= j < entries.len() && entries[j].0 == key);
    if i != j {
        assert(false);
    }
}

/// First index of a name in a keyed list, scanning left to right.
pub fn find_key<T>(entries: &Vec<(String, T)>, key: &str) -> (r: Option<usize>)
    ensures
        match r {
            Some(i) => 0 <= i < entries@.len() && entries@[i as int].0@ == key@ && forall|j: int|
                0 <= j < i ==> entries@[j].0@ != key@,
            None => forall|j: int| 0 <= j < entries@.len() ==> entries@[j].0@ != key@,
        },
{
    let owned: String = key.to_owned();
    let mut i: usize = 0;
    while i < entries.len()
        invariant
            i <= entries@.len(),
            owned@ == key@,
            forall|j: int| 0 <= j < i ==> entries@[j].0@ != key@,
        decreases entries@.len() - i,
    {
        if entries[i].0 == owned {
            return Some(i);
        }
        i = i + 1;
    }
    None
}

} // verus!
