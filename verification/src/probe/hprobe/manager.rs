//! Host probe manager: register, enable, disable and detach probes on the
//! hypervisor's own text. One address can host an entry probe and a
//! return probe at once, with independent programs.
//!
//! Enabling allocates an out-of-line instruction slot, copies the original
//! instruction there followed by a single-step-complete breakpoint, and
//! overwrites the probed address with the main breakpoint. Disabling
//! restores the original instruction and frees the slot.

use vstd::prelude::*;

use crate::assoc::{
    assoc_view, find_key, key_contains, key_value_of, keys_unique, lemma_key_witness,
};
use crate::insn_slot::{bit_set, SlotPool};
use crate::page_table::{spec_write_bytes, KernelText};
use crate::symbols::SymbolTable;

verus! {

/// Lifecycle state of one host probe slot.
#[derive(Debug, Clone, Copy, PartialEq, Eq, Structural)]
pub enum KprobeState {
    /// Registered but not active.
    Disabled,
    /// Breakpoint in place.
    Enabled,
}

/// The main breakpoint encoding, as the four bytes written at the probed
/// address.
pub open spec fn main_brk_bytes() -> Seq<u8> {
    seq![0x80u8, 0x00u8, 0x20u8, 0xd4u8]
}

/// The single-step-complete breakpoint encoding.
pub open spec fn ss_brk_bytes() -> Seq<u8> {
    seq![0xc0u8, 0x00u8, 0x20u8, 0xd4u8]
}

/// The main breakpoint bytes.
pub fn main_brk() -> (r: Vec<u8>)
    ensures
        r@ == main_brk_bytes(),
{
    let mut v: Vec<u8> = Vec::new();
    v.push(0x80);
    v.push(0x00);
    v.push(0x20);
    v.push(0xd4);
    proof {
        assert(v@ =~= main_brk_bytes());
    }
    v
}

/// One probe slot: entry or return.
pub struct ProbeSlot {
    /// Hits recorded at trap time.
    pub hits: u64,
    /// Lifecycle state.
    pub state: KprobeState,
    /// Bound program id.
    pub prog_id: u32,
    /// The out-of-line slot address while enabled.
    pub slot_addr: Option<usize>,
    /// The original instruction bytes while enabled.
    pub saved_insn: Option<Vec<u8>>,
}

/// Both slots of one probed address.
pub struct KprobeEntry {
    /// Symbol name.
    pub name: String,
    /// Probed address.
    pub addr: usize,
    /// Entry probe slot.
    pub entry_slot: Option<ProbeSlot>,
    /// Return probe slot.
    pub ret_slot: Option<ProbeSlot>,
}

/// The host probe registry: probe pairs by address, and the name index.
pub struct KprobeRegistry {
    /// Probe pairs by address.
    pub probes: Vec<(usize, KprobeEntry)>,
    /// Resolved addresses by symbol name.
    pub name_map: Vec<(String, usize)>,
}

/// Whether an address-keyed list holds an address.
pub open spec fn ak_contains(s: Seq<(usize, KprobeEntry)>, a: usize) -> bool {
    exists|i: int| 0 <= i < s.len() && s[i].0 == a
}

/// The index of an address in an address-keyed list.
pub open spec fn ak_index_of(s: Seq<(usize, KprobeEntry)>, a: usize) -> int {
    choose|i: int| 0 <= i < s.len() && s[i].0 == a
}

/// Addresses are pairwise distinct.
pub open spec fn ak_unique(s: Seq<(usize, KprobeEntry)>) -> bool {
    forall|i: int, j: int| 0 <= i < j < s.len() ==> s[i].0 != s[j].0
}

/// The requested slot of a pair: the return slot or the entry slot.
pub open spec fn spec_slot(e: KprobeEntry, is_ret: bool) -> Option<ProbeSlot> {
    if is_ret {
        e.ret_slot
    } else {
        e.entry_slot
    }
}

/// What registering one slot did to the registry: the pair at the address
/// holds a fresh disabled slot of the requested polarity bound to the
/// program, the other polarity and every other pair are untouched, and the
/// name index binds the symbol to the address.
pub open spec fn spec_registered(
    r0: KprobeRegistry,
    r1: KprobeRegistry,
    name: Seq<char>,
    addr: usize,
    prog_id: u32,
    is_ret: bool,
) -> bool {
    let i = r1.pair_at(addr);
    let e = r1.probes@[i].1;
    let s = spec_slot(e, is_ret)->Some_0;
    &&& r1.has_pair(addr)
    &&& 0 <= i < r1.probes@.len()
    &&& r1.probes@[i].0 == addr
    &&& e.name@ == name
    &&& spec_slot(e, is_ret) is Some
    &&& s.state is Disabled
    &&& s.prog_id == prog_id
    &&& s.hits == 0
    &&& s.slot_addr is None
    &&& s.saved_insn is None
    &&& spec_slot(e, !is_ret) == (if r0.has_pair(addr) {
        spec_slot(r0.probes@[r0.pair_at(addr)].1, !is_ret)
    } else {
        None::<ProbeSlot>
    })
    &&& r1.probes@.len() == r0.probes@.len() + (if r0.has_pair(addr) {
        0int
    } else {
        1int
    })
    &&& (forall|j: int|
        0 <= j < r0.probes@.len() && r0.probes@[j].0 != addr ==> r1.probes@[j] == r0.probes@[j])
    &&& key_contains(assoc_view(r1.name_map@), name)
    &&& key_value_of(assoc_view(r1.name_map@), name) == addr
}

/// Conditions under which detaching a symbol must succeed: the name
/// resolves through the name index, the pair it names exists under that
/// name and holds at least one slot, and an enabled slot's probed word
/// lies on known text pages.
pub open spec fn spec_detach_ready(
    reg: KprobeRegistry,
    text: KernelText,
    name: Seq<char>,
) -> bool {
    let a = key_value_of(assoc_view(reg.name_map@), name);
    let e = reg.probes@[reg.pair_at(a)].1;
    &&& key_contains(assoc_view(reg.name_map@), name)
    &&& reg.has_pair(a)
    &&& e.name@ == name
    &&& (e.entry_slot is Some || e.ret_slot is Some)
    &&& ((slot_enabled(e, false) || slot_enabled(e, true)) ==> a + 4 <= usize::MAX
        && text.range_pages_known(a as int, 4))
}

/// The text after every slot of a pair is detached: for each enabled
/// slot, in entry-then-return order, its saved word is written back over
/// the probed address.
pub open spec fn spec_detached_text(t0: Map<int, u8>, e: KprobeEntry, a: usize) -> Map<
    int,
    u8,
> {
    let t1 = if slot_enabled(e, false) {
        spec_write_bytes(t0, a as int, e.entry_slot->Some_0.saved_insn->Some_0@)
    } else {
        t0
    };
    if slot_enabled(e, true) {
        spec_write_bytes(t1, a as int, e.ret_slot->Some_0.saved_insn->Some_0@)
    } else {
        t1
    }
}

/// One recorded hit on a slot: the counter saturates at its maximum.
pub open spec fn spec_bump(s: Option<ProbeSlot>) -> Option<ProbeSlot> {
    match s {
        Some(p) => Some(
            ProbeSlot {
                hits: if p.hits < u64::MAX {
                    (p.hits + 1) as u64
                } else {
                    u64::MAX
                },
                ..p
            },
        ),
        None => None,
    }
}

/// Whether the requested slot of a pair exists.
pub open spec fn slot_present(e: KprobeEntry, is_ret: bool) -> bool {
    spec_slot(e, is_ret) is Some
}

/// Whether the requested slot of a pair exists and is enabled.
pub open spec fn slot_enabled(e: KprobeEntry, is_ret: bool) -> bool {
    spec_slot(e, is_ret) matches Some(s) && s.state is Enabled
}

/// Whether any slot of a pair is enabled.
pub open spec fn spec_pair_enabled(e: KprobeEntry) -> bool {
    slot_enabled(e, false) || slot_enabled(e, true)
}

/// The program a pair's trap runs: the entry slot's, or failing that the
/// return slot's.
pub open spec fn spec_pair_prog(e: KprobeEntry) -> Option<u32> {
    if e.entry_slot is Some {
        Some(e.entry_slot->Some_0.prog_id)
    } else if e.ret_slot is Some {
        Some(e.ret_slot->Some_0.prog_id)
    } else {
        None
    }
}

/// The out-of-line slot a pair's trap continues at: the entry slot's
/// address when it has one, else the return slot's.
pub open spec fn spec_pair_slot(e: KprobeEntry) -> Option<usize> {
    if e.entry_slot is Some && e.entry_slot->Some_0.slot_addr is Some {
        e.entry_slot->Some_0.slot_addr
    } else if e.ret_slot is Some {
        e.ret_slot->Some_0.slot_addr
    } else {
        None
    }
}

/// A slot's bookkeeping matches its state: an enabled slot carries its
/// out-of-line address and the four saved instruction bytes.
pub open spec fn slot_wf(s: ProbeSlot) -> bool {
    s.state is Enabled ==> {
        &&& s.slot_addr is Some
        &&& s.saved_insn matches Some(v) && v@.len() == 4
    }
}

impl KprobeRegistry {
    /// Probe addresses and names are pairwise distinct, and every enabled
    /// slot carries its out-of-line address and saved instruction.
    pub open spec fn wf(&self) -> bool {
        &&& ak_unique(self.probes@)
        &&& keys_unique(assoc_view(self.name_map@))
        &&& forall|j: int|
            0 <= j < self.probes@.len() ==> {
                &&& ((#[trigger] self.probes@[j]).1.entry_slot matches Some(s) ==> slot_wf(s))
                &&& (self.probes@[j].1.ret_slot matches Some(s) ==> slot_wf(s))
            }
    }

    /// Whether a probe pair exists at an address.
    pub open spec fn has_pair(&self, addr: usize) -> bool {
        ak_contains(self.probes@, addr)
    }

    /// The index of the pair at an address.
    pub open spec fn pair_at(&self, addr: usize) -> int {
        ak_index_of(self.probes@, addr)
    }

    /// An empty registry.
    pub fn new() -> (r: KprobeRegistry)
        ensures
            r.wf(),
            r.probes@.len() == 0,
            r.name_map@.len() == 0,
    {
        KprobeRegistry { probes: Vec::new(), name_map: Vec::new() }
    }

    /// First index of an address among the probe pairs.
    fn find_pair(&self, addr: usize) -> (r: Option<usize>)
        requires
            self.wf(),
        ensures
            match r {
                Some(i) => 0 <= i < self.probes@.len() && self.probes@[i as int].0 == addr && i
                    == self.pair_at(addr) && self.has_pair(addr),
                None => !self.has_pair(addr),
            },
    {
        let mut i: usize = 0;
        while i < self.probes.len()
            invariant
                i <= self.probes@.len(),
                forall|j: int| 0 <= j < i ==> (#[trigger] self.probes@[j]).0 != addr,
            decreases self.probes@.len() - i,
        {
            if self.probes[i].0 == addr {
                proof {
                    assert(ak_contains(self.probes@, addr));
                    let k = ak_index_of(self.probes@, addr);
                    assert(0 <= k < self.probes@.len() && self.probes@[k].0 == addr);
                    if k != i as int {
                        assert(false);
                    }
                }
                return Some(i);
            }
            i = i + 1;
        }
        None
    }

    /// Register one slot under a symbol at a fixed address; never touches
    /// text. Rejected when the symbol already resolves elsewhere, or the
    /// requested slot is already taken.
    pub fn register_with_addr_for_test(&mut self, name: &str, addr: usize, prog_id: u32,
        is_ret: bool) -> (r: Result<usize, &'static str>)
        requires
            old(self).wf(),
        ensures
            final(self).wf(),
            r is Err ==> final(self).probes@ == old(self).probes@ && final(self).name_map@
                == old(self).name_map@,
            r is Ok ==> r->Ok_0 == addr && spec_registered(
                *old(self),
                *final(self),
                name@,
                addr,
                prog_id,
                is_ret,
            ),
            !key_contains(assoc_view(old(self).name_map@), name@) && !old(self).has_pair(addr)
                ==> r is Ok,
            old(self).has_pair(addr) && old(self).probes@[old(self).pair_at(addr)].1.name@
                == name@ && spec_slot(old(self).probes@[old(self).pair_at(addr)].1, is_ret)
                is None && (key_contains(assoc_view(old(self).name_map@), name@)
                ==> key_value_of(assoc_view(old(self).name_map@), name@) == addr) ==> r is Ok,
    {
        self.register_with_addr(name, addr, prog_id, is_ret)
    }

    /// Register one slot under a symbol at its resolved address.
    fn register_with_addr(&mut self, name: &str, addr: usize, prog_id: u32, is_ret: bool) -> (r:
        Result<usize, &'static str>)
        requires
            old(self).wf(),
        ensures
            final(self).wf(),
            r is Err ==> final(self).probes@ == old(self).probes@ && final(self).name_map@
                == old(self).name_map@,
            r is Ok ==> r->Ok_0 == addr && spec_registered(
                *old(self),
                *final(self),
                name@,
                addr,
                prog_id,
                is_ret,
            ),
            !key_contains(assoc_view(old(self).name_map@), name@) && !old(self).has_pair(addr)
                ==> r is Ok,
            old(self).has_pair(addr) && old(self).probes@[old(self).pair_at(addr)].1.name@
                == name@ && spec_slot(old(self).probes@[old(self).pair_at(addr)].1, is_ret)
                is None && (key_contains(assoc_view(old(self).name_map@), name@)
                ==> key_value_of(assoc_view(old(self).name_map@), name@) == addr) ==> r is Ok,
    {
        match find_key(&self.name_map, name) {
            Some(i) => {
                proof {
                    assert(assoc_view(self.name_map@)[i as int].0 == name@);
                    lemma_key_witness(assoc_view(self.name_map@), name@, i as int);
                }
                if self.name_map[i].1 != addr {
                    return Err("host probe symbol already registered at another address");
                }
            },
            None => {},
        }
        let pair_idx = match self.find_pair(addr) {
            Some(i) => {
                let owned: String = name.to_owned();
                if !(self.probes[i].1.name == owned) {
                    return Err("host probe already registered at this address");
                }
                i
            },
            None => {
                let ghost p0 = self.probes@;
                let i = self.probes.len();
                self.probes.push(
                    (
                        addr,
                        KprobeEntry {
                            name: name.to_owned(),
                            addr,
                            entry_slot: None,
                            ret_slot: None,
                        },
                    ),
                );
                proof {
                    let p1 = self.probes@;
                    assert(forall|a: int| 0 <= a < p0.len() ==> (#[trigger] p1[a]) == p0[a]);
                    assert(p1[p1.len() - 1].0 == addr);
                    assert(ak_unique(p1));
                }
                i
            },
        };
        let ghost p0 = self.probes@;
        let taken = {
            let e = &self.probes[pair_idx].1;
            if is_ret {
                e.ret_slot.is_some()
            } else {
                e.entry_slot.is_some()
            }
        };
        if taken {
            return Err("host probe already registered at this address");
        }
        let slot = ProbeSlot {
            hits: 0,
            state: KprobeState::Disabled,
            prog_id,
            slot_addr: None,
            saved_insn: None,
        };
        let e = &mut self.probes[pair_idx].1;
        if is_ret {
            e.ret_slot = Some(slot);
        } else {
            e.entry_slot = Some(slot);
        }
        proof {
            let p1 = self.probes@;
            assert(forall|j: int|
                0 <= j < p1.len() && j != pair_idx ==> p1[j] == p0[j]);
            assert(forall|j: int| 0 <= j < p1.len() ==> (#[trigger] p1[j]).0 == p0[j].0);
            assert(ak_unique(p1));
            assert(p1[pair_idx as int].0 == addr);
        }
        let ghost mid = *self;
        self.upsert_name(name, addr);
        proof {
            let p1 = self.probes@;
            assert(p1 == mid.probes@);
            assert(p1[pair_idx as int].0 == addr);
            assert(ak_contains(p1, addr));
            let k = ak_index_of(p1, addr);
            assert(0 <= k < p1.len() && p1[k].0 == addr);
            if k != pair_idx as int {
                assert(false);
            }
            if old(self).has_pair(addr) {
                let k0 = old(self).pair_at(addr);
                assert(0 <= k0 < old(self).probes@.len() && old(self).probes@[k0].0 == addr);
                if k0 != pair_idx as int {
                    assert(false);
                }
            }
            assert(spec_registered(*old(self), *self, name@, addr, prog_id, is_ret));
        }
        Ok(addr)
    }

    /// Bind a name to an address in the name index.
    fn upsert_name(&mut self, name: &str, addr: usize)
        requires
            old(self).wf(),
        ensures
            final(self).wf(),
            final(self).probes@ == old(self).probes@,
            key_contains(assoc_view(final(self).name_map@), name@),
            key_value_of(assoc_view(final(self).name_map@), name@) == addr,
            forall|k: Seq<char>|
                k != name@ ==> key_contains(assoc_view(final(self).name_map@), k)
                    == key_contains(assoc_view(old(self).name_map@), k),
    {
        match find_key(&self.name_map, name) {
            Some(i) => {
                let ghost n0 = self.name_map@;
                let e = &mut self.name_map[i];
                e.1 = addr;
                proof {
                    let n1 = assoc_view(self.name_map@);
                    let v0 = assoc_view(n0);
                    assert(forall|j: int| 0 <= j < n1.len() ==> n1[j].0 == v0[j].0);
                    assert(keys_unique(n1));
                    assert(n1[i as int].0 == name@ && n1[i as int].1 == addr);
                    lemma_key_witness(n1, name@, i as int);
                    assert forall|k: Seq<char>| k != name@ implies key_contains(n1, k)
                        == key_contains(v0, k) by {
                        if key_contains(n1, k) {
                            let w = choose|w: int| 0 <= w < n1.len() && n1[w].0 == k;
                            assert(v0[w].0 == k);
                        }
                        if key_contains(v0, k) {
                            let w = choose|w: int| 0 <= w < v0.len() && v0[w].0 == k;
                            assert(n1[w].0 == k);
                        }
                    }
                }
            },
            None => {
                let ghost v0 = assoc_view(self.name_map@);
                self.name_map.push((name.to_owned(), addr));
                proof {
                    let v1 = assoc_view(self.name_map@);
                    assert(forall|j: int| 0 <= j < v0.len() ==> v1[j] == v0[j]);
                    assert(v1[v0.len() as int].0 == name@ && v1[v0.len() as int].1 == addr);
                    assert(keys_unique(v1));
                    lemma_key_witness(v1, name@, v0.len() as int);
                    assert forall|k: Seq<char>| k != name@ implies key_contains(v1, k)
                        == key_contains(v0, k) by {
                        if key_contains(v1, k) {
                            let w = choose|w: int| 0 <= w < v1.len() && v1[w].0 == k;
                            assert(w < v0.len());
                            assert(v0[w].0 == k);
                        }
                        if key_contains(v0, k) {
                            let w = choose|w: int| 0 <= w < v0.len() && v0[w].0 == k;
                            assert(v1[w].0 == k);
                        }
                    }
                }
            },
        }
    }

    /// Register a probe slot by symbol name, resolving the address through
    /// the symbol table; never touches text.
    pub fn register(&mut self, symbols: &SymbolTable, name: &str, prog_id: u32, is_ret: bool)
        -> (r: Result<usize, &'static str>)
        requires
            old(self).wf(),
            symbols.wf(),
        ensures
            final(self).wf(),
            r is Err ==> final(self).probes@ == old(self).probes@ && final(self).name_map@
                == old(self).name_map@,
            r is Ok ==> symbols.spec_has(name@) && r->Ok_0 == symbols.spec_addr_of(name@)
                as usize && spec_registered(
                *old(self),
                *final(self),
                name@,
                r->Ok_0,
                prog_id,
                is_ret,
            ),
            symbols.spec_has(name@) && symbols.spec_addr_of(name@) <= usize::MAX as u64
                && !key_contains(assoc_view(old(self).name_map@), name@) && !old(
                self,
            ).has_pair(symbols.spec_addr_of(name@) as usize) ==> r is Ok,
    {
        let addr = match symbols.lookup_addr(name) {
            Some(a) => a,
            None => {
                return Err("symbol not found");
            },
        };
        if addr > usize::MAX as u64 {
            return Err("symbol address out of range");
        }
        self.register_with_addr(name, addr as usize, prog_id, is_ret)
    }

    /// The resolved address of a registered symbol.
    pub fn get_addr_by_name(&self, name: &str) -> (r: Option<usize>)
        requires
            self.wf(),
        ensures
            r == if key_contains(assoc_view(self.name_map@), name@) {
                Some(key_value_of(assoc_view(self.name_map@), name@))
            } else {
                None::<usize>
            },
    {
        match find_key(&self.name_map, name) {
            Some(i) => {
                proof {
                    let v = assoc_view(self.name_map@);
                    assert(v[i as int].0 == name@ && v[i as int].1 == self.name_map@[
                        i as int
                    ].1);
                    lemma_key_witness(v, name@, i as int);
                }
                Some(self.name_map[i].1)
            },
            None => {
                proof {
                    let v = assoc_view(self.name_map@);
                    if key_contains(v, name@) {
                        let w = choose|w: int| 0 <= w < v.len() && v[w].0 == name@;
                        assert(false);
                    }
                }
                None
            },
        }
    }

    /// Enable one probe slot: allocate an instruction slot, copy the
    /// original instruction there followed by the single-step breakpoint,
    /// and overwrite the probed address with the main breakpoint. Enabling
    /// an enabled slot changes nothing.
    pub fn enable(&mut self, text: &mut KernelText, pool: &mut SlotPool, addr: usize,
        is_ret: bool) -> (r: Result<(), &'static str>)
        requires
            old(self).wf(),
            old(text).wf(),
            old(pool).wf(),
            addr + 4 <= usize::MAX,
        ensures
            final(self).wf(),
            final(text).wf(),
            final(pool).wf(),
            final(self).name_map@ == old(self).name_map@,
            final(text).pages@.len() == old(text).pages@.len(),
            forall|j: int|
                0 <= j < final(text).pages@.len() ==> (#[trigger] final(text).pages@[j]).0
                    == old(text).pages@[j].0,
            r is Err ==> final(self).probes@ == old(self).probes@,
            r is Err ==> forall|k: int|
                addr <= k < addr + 4 ==> #[trigger] final(text).text().dom().contains(k)
                    == old(text).text().dom().contains(k) && (old(text).text().dom().contains(
                    k,
                ) ==> final(text).text()[k] == old(text).text()[k]),
            old(self).has_pair(addr) && slot_enabled(
                old(self).probes@[old(self).pair_at(addr)].1,
                is_ret,
            ) ==> r is Ok && final(self).probes@ == old(self).probes@ && final(text).text()
                == old(text).text() && final(pool).bitmap == old(pool).bitmap,
            old(self).has_pair(addr) && slot_present(
                old(self).probes@[old(self).pair_at(addr)].1,
                is_ret,
            ) && (addr + 4 <= old(pool).base || addr >= old(pool).base + 2048) && (exists|j: int|
                0 <= j < 64 && !bit_set(old(pool).bitmap, j)) && old(text).range_mapped(
                addr as int,
                4,
            ) && old(text).range_pages_known(addr as int, 4) && old(text).range_pages_known(
                old(pool).base as int,
                2048,
            ) ==> r is Ok,
            old(self).has_pair(addr) && r is Ok ==> {
                let i = old(self).pair_at(addr);
                let e = final(self).probes@[i].1;
                let s = if is_ret {
                    e.ret_slot->Some_0
                } else {
                    e.entry_slot->Some_0
                };
                &&& final(self).probes@.len() == old(self).probes@.len()
                &&& final(self).probes@[i].0 == addr
                &&& (forall|j: int|
                    0 <= j < final(self).probes@.len() && j != i ==> final(self).probes@[j]
                        == old(self).probes@[j])
                &&& (if is_ret {
                    e.ret_slot is Some
                } else {
                    e.entry_slot is Some
                })
                &&& e.name == old(self).probes@[i].1.name
                &&& e.addr == old(self).probes@[i].1.addr
                &&& spec_slot(e, !is_ret) == spec_slot(old(self).probes@[i].1, !is_ret)
                &&& s.state is Enabled
                &&& (!((if is_ret {
                    old(self).probes@[i].1.ret_slot->Some_0
                } else {
                    old(self).probes@[i].1.entry_slot->Some_0
                }).state is Enabled) ==> {
                    let saved = s.saved_insn->Some_0;
                    let slot_base = s.slot_addr->Some_0;
                    &&& s.saved_insn is Some
                    &&& s.slot_addr is Some
                    &&& saved@.len() == 4
                    &&& (forall|k: int|
                        0 <= k < 4 ==> old(text).text().dom().contains(#[trigger] (addr + k))
                            && saved@[k] == old(text).text()[addr + k])
                    &&& final(text).text() == spec_write_bytes(
                        spec_write_bytes(
                            old(text).text(),
                            slot_base as int,
                            saved@ + ss_brk_bytes(),
                        ),
                        addr as int,
                        main_brk_bytes(),
                    )
                    &&& (slot_base + 8 <= addr || slot_base >= addr + 4)
                })
            },
    {
        let idx = match self.find_pair(addr) {
            Some(i) => i,
            None => {
                return Err("host probe not found");
            },
        };
        let present = {
            let e = &self.probes[idx].1;
            if is_ret {
                e.ret_slot.is_some()
            } else {
                e.entry_slot.is_some()
            }
        };
        if !present {
            return Err("host probe not found");
        }
        let already = {
            let e = &self.probes[idx].1;
            if is_ret {
                match &e.ret_slot {
                    Some(s) => matches!(s.state, KprobeState::Enabled),
                    None => false,
                }
            } else {
                match &e.entry_slot {
                    Some(s) => matches!(s.state, KprobeState::Enabled),
                    None => false,
                }
            }
        };
        if already {
            return Ok(());
        }
        // The probed address must lie outside the slot pool, else the
        // out-of-line copy could alias the probed instruction.
        if !(addr + 4 <= pool.slots_base() || addr >= pool.slots_end()) {
            return Err("probed address lies inside the slot pool");
        }
        let slot_base = match pool.alloc_slot() {
            Some(a) => a,
            None => {
                proof {
                    if exists|j: int| 0 <= j < 64 && !bit_set(old(pool).bitmap, j) {
                        let j = choose|j: int| 0 <= j < 64 && !bit_set(old(pool).bitmap, j);
                        assert(false);
                    }
                }
                return Err("no free instruction slot");
            },
        };
        proof {
            let off = slot_base - pool.base;
            assert(off <= 2016) by (nonlinear_arith)
                requires
                    off % 32 == 0,
                    0 <= off < 2048,
            ;
            assert(slot_base + 8 <= pool.base + 2048);
        }
        let saved = match text.read_bytes(addr, 4) {
            Some(v) => v,
            None => {
                proof {
                    if old(text).range_mapped(addr as int, 4) {
                        let k = choose|k: int|
                            0 <= k < 4 && !text.text().dom().contains(#[trigger] (addr + k));
                        assert(text.text().dom().contains(addr + k));
                        assert(false);
                    }
                }
                pool.free_slot(slot_base);
                return Err("probed address is not mapped text");
            },
        };
        proof {
            let ps = crate::page_table::PAGE_SIZE as int;
            if old(text).range_pages_known(pool.base as int, 2048) {
                assert(pool.base as int / ps <= slot_base as int / ps) by (nonlinear_arith)
                    requires
                        ps == 4096,
                        pool.base <= slot_base,
                ;
                assert((slot_base as int + 7) / ps <= (pool.base as int + 2047) / ps) by (
                nonlinear_arith)
                    requires
                        ps == 4096,
                        slot_base + 8 <= pool.base + 2048,
                ;
                assert forall|p: int|
                    slot_base as int / ps <= p <= (slot_base as int + 7) / ps implies
                    crate::page_table::addr_contains(text.pages@, #[trigger] (p * ps)) by {
                    assert(pool.base as int / ps <= p <= (pool.base as int + 2047) / ps);
                }
                assert(text.range_pages_known(slot_base as int, 8));
            }
        }
        // Original instruction followed by the single-step breakpoint.
        let mut slot_image = crate::bytes::copy_bytes(saved.as_slice());
        slot_image.push(0xc0);
        slot_image.push(0x00);
        slot_image.push(0x20);
        slot_image.push(0xd4);
        proof {
            assert(slot_image@ =~= saved@ + ss_brk_bytes());
        }
        if !text.write_kernel_text(slot_base, slot_image.as_slice()) {
            pool.free_slot(slot_base);
            return Err("failed to write the instruction slot");
        }
        proof {
            let ps = crate::page_table::PAGE_SIZE as int;
            if old(text).range_pages_known(addr as int, 4) {
                assert forall|p: int|
                    addr as int / ps <= p <= (addr as int + 3) / ps implies
                    crate::page_table::addr_contains(text.pages@, #[trigger] (p * ps)) by {
                    assert(crate::page_table::addr_contains(old(text).pages@, p * ps));
                    let w = choose|w: int|
                        0 <= w < old(text).pages@.len() && old(text).pages@[w].0 == p * ps;
                    assert(text.pages@[w].0 == p * ps);
                }
                assert(text.range_pages_known(addr as int, 4));
            }
        }
        let brk = main_brk();
        if !text.write_kernel_text(addr, brk.as_slice()) {
            proof {
                assert forall|k: int| addr <= k < addr + 4 implies #[trigger] text.text().dom()
                    .contains(k) == old(text).text().dom().contains(k) && (old(
                    text,
                ).text().dom().contains(k) ==> text.text()[k] == old(text).text()[k]) by {
                    assert(k < slot_base || k >= slot_base + 8);
                }
            }
            pool.free_slot(slot_base);
            return Err("failed to write the main breakpoint");
        }
        let ghost p0 = self.probes@;
        let e = &mut self.probes[idx].1;
        if is_ret {
            match &mut e.ret_slot {
                Some(s) => {
                    s.state = KprobeState::Enabled;
                    s.slot_addr = Some(slot_base);
                    s.saved_insn = Some(saved);
                },
                None => {},
            }
        } else {
            match &mut e.entry_slot {
                Some(s) => {
                    s.state = KprobeState::Enabled;
                    s.slot_addr = Some(slot_base);
                    s.saved_insn = Some(saved);
                },
                None => {},
            }
        }
        proof {
            let p1 = self.probes@;
            assert(forall|j: int| 0 <= j < p1.len() && j != idx ==> p1[j] == p0[j]);
            assert(forall|j: int| 0 <= j < p1.len() ==> (#[trigger] p1[j]).0 == p0[j].0);
            assert(ak_unique(p1));
            assert(p1[idx as int].0 == addr);
            let k = ak_index_of(p1, addr);
            assert(0 <= k < p1.len() && p1[k].0 == addr);
            if k != idx as int {
                assert(false);
            }
        }
        Ok(())
    }

    /// Disable one probe slot: restore the original instruction at the
    /// probed address and free the instruction slot. Disabling a disabled
    /// slot changes nothing.
    pub fn disable(&mut self, text: &mut KernelText, pool: &mut SlotPool, addr: usize,
        is_ret: bool) -> (r: Result<(), &'static str>)
        requires
            old(self).wf(),
            old(text).wf(),
            old(pool).wf(),
        ensures
            final(self).wf(),
            final(text).wf(),
            final(pool).wf(),
            final(self).name_map@ == old(self).name_map@,
            final(text).pages@.len() == old(text).pages@.len(),
            forall|j: int|
                0 <= j < final(text).pages@.len() ==> (#[trigger] final(text).pages@[j]).0
                    == old(text).pages@[j].0,
            r is Err ==> final(text).text() == old(text).text(),
            r is Err ==> final(self).probes@ == old(self).probes@,
            old(self).has_pair(addr) && slot_present(
                old(self).probes@[old(self).pair_at(addr)].1,
                is_ret,
            ) && !slot_enabled(old(self).probes@[old(self).pair_at(addr)].1, is_ret) ==> r is Ok
                && final(self).probes@ == old(self).probes@ && final(text).text() == old(
                text,
            ).text() && final(pool).bitmap == old(pool).bitmap,
            old(self).has_pair(addr) && slot_enabled(
                old(self).probes@[old(self).pair_at(addr)].1,
                is_ret,
            ) && addr + 4 <= usize::MAX && old(text).range_pages_known(addr as int, 4) ==> r
                is Ok,
            r is Ok ==> old(self).has_pair(addr) && slot_present(
                old(self).probes@[old(self).pair_at(addr)].1,
                is_ret,
            ),
            old(self).has_pair(addr) && r is Ok ==> {
                let i = old(self).pair_at(addr);
                let e0 = old(self).probes@[i].1;
                let e1 = final(self).probes@[i].1;
                let s0x = spec_slot(e0, is_ret)->Some_0;
                let s1x = spec_slot(e1, is_ret)->Some_0;
                &&& final(self).probes@.len() == old(self).probes@.len()
                &&& final(self).probes@[i].0 == addr
                &&& (forall|j: int|
                    0 <= j < final(self).probes@.len() && j != i ==> final(self).probes@[j]
                        == old(self).probes@[j])
                &&& slot_present(e1, is_ret) == slot_present(e0, is_ret)
                &&& spec_slot(e1, !is_ret) == spec_slot(e0, !is_ret)
                &&& e1.name == e0.name
                &&& e1.addr == e0.addr
                &&& (slot_present(e0, is_ret) ==> s1x.prog_id == s0x.prog_id && s1x.hits
                    == s0x.hits)
                &&& (slot_present(e0, is_ret) && slot_enabled(e0, is_ret) ==> s1x.state
                    is Disabled && s1x.slot_addr is None && s1x.saved_insn is None)
                &&& (slot_present(e0, is_ret) && !slot_enabled(e0, is_ret) ==> s1x == s0x)
            },
            old(self).has_pair(addr) && r is Ok ==> {
                let i = old(self).pair_at(addr);
                let e0 = old(self).probes@[i].1;
                let s0 = if is_ret {
                    e0.ret_slot->Some_0
                } else {
                    e0.entry_slot->Some_0
                };
                &&& ((if is_ret {
                    e0.ret_slot is Some
                } else {
                    e0.entry_slot is Some
                }) && s0.state is Enabled && s0.saved_insn is Some ==> final(text).text()
                    == spec_write_bytes(
                    old(text).text(),
                    addr as int,
                    s0.saved_insn->Some_0@,
                ))
                &&& (!((if is_ret {
                    e0.ret_slot is Some
                } else {
                    e0.entry_slot is Some
                }) && s0.state is Enabled) ==> final(text).text() == old(text).text())
            },
    {
        let idx = match self.find_pair(addr) {
            Some(i) => i,
            None => {
                return Err("host probe not found");
            },
        };
        let present = {
            let e = &self.probes[idx].1;
            if is_ret {
                e.ret_slot.is_some()
            } else {
                e.entry_slot.is_some()
            }
        };
        if !present {
            return Err("host probe not found");
        }
        let enabled = {
            let e = &self.probes[idx].1;
            if is_ret {
                match &e.ret_slot {
                    Some(s) => matches!(s.state, KprobeState::Enabled),
                    None => false,
                }
            } else {
                match &e.entry_slot {
                    Some(s) => matches!(s.state, KprobeState::Enabled),
                    None => false,
                }
            }
        };
        if !enabled {
            return Ok(());
        }
        let (slot_addr_opt, saved_opt) = {
            let e = &self.probes[idx].1;
            let pick = if is_ret {
                &e.ret_slot
            } else {
                &e.entry_slot
            };
            match pick {
                Some(s) => {
                    let saved: Option<Vec<u8>> = match &s.saved_insn {
                        Some(v) => Some(crate::bytes::copy_bytes(v.as_slice())),
                        None => None,
                    };
                    (s.slot_addr, saved)
                },
                None => (None, None),
            }
        };
        match saved_opt {
            Some(saved) => {
                if addr > usize::MAX - saved.len() {
                    return Err("failed to restore the original instruction");
                }
                if !text.write_kernel_text(addr, saved.as_slice()) {
                    return Err("failed to restore the original instruction");
                }
            },
            None => {},
        }
        match slot_addr_opt {
            Some(sa) => {
                pool.free_slot(sa);
            },
            None => {},
        }
        let ghost p0 = self.probes@;
        let e = &mut self.probes[idx].1;
        if is_ret {
            match &mut e.ret_slot {
                Some(s) => {
                    s.state = KprobeState::Disabled;
                    s.slot_addr = None;
                    s.saved_insn = None;
                },
                None => {},
            }
        } else {
            match &mut e.entry_slot {
                Some(s) => {
                    s.state = KprobeState::Disabled;
                    s.slot_addr = None;
                    s.saved_insn = None;
                },
                None => {},
            }
        }
        proof {
            let p1 = self.probes@;
            assert(forall|j: int| 0 <= j < p1.len() && j != idx ==> p1[j] == p0[j]);
            assert(forall|j: int| 0 <= j < p1.len() ==> (#[trigger] p1[j]).0 == p0[j].0);
            assert(ak_unique(p1));
        }
        Ok(())
    }

    /// Unregister one probe slot, disabling it first; when both slots of
    /// the pair are gone, the pair and its name binding leave too.
    pub fn unregister(&mut self, text: &mut KernelText, pool: &mut SlotPool, addr: usize,
        is_ret: bool) -> (r: Result<(), &'static str>)
        requires
            old(self).wf(),
            old(text).wf(),
            old(pool).wf(),
        ensures
            final(self).wf(),
            final(text).wf(),
            final(pool).wf(),
            final(text).pages@.len() == old(text).pages@.len(),
            forall|j: int|
                0 <= j < final(text).pages@.len() ==> (#[trigger] final(text).pages@[j]).0
                    == old(text).pages@[j].0,
            r is Err ==> final(self).probes@ == old(self).probes@ && final(self).name_map@
                == old(self).name_map@ && final(text).text() == old(text).text(),
            old(self).has_pair(addr) && slot_present(
                old(self).probes@[old(self).pair_at(addr)].1,
                is_ret,
            ) && (!slot_enabled(old(self).probes@[old(self).pair_at(addr)].1, is_ret) || (addr
                + 4 <= usize::MAX && old(text).range_pages_known(addr as int, 4))) ==> r is Ok,
            r is Ok ==> old(self).has_pair(addr) && slot_present(
                old(self).probes@[old(self).pair_at(addr)].1,
                is_ret,
            ),
            r is Ok ==> {
                let i = old(self).pair_at(addr);
                let e0 = old(self).probes@[i].1;
                &&& (slot_enabled(e0, is_ret) ==> final(text).text() == spec_write_bytes(
                    old(text).text(),
                    addr as int,
                    spec_slot(e0, is_ret)->Some_0.saved_insn->Some_0@,
                ))
                &&& (!slot_enabled(e0, is_ret) ==> final(text).text() == old(text).text())
                &&& (spec_slot(e0, !is_ret) is None ==> {
                    &&& !final(self).has_pair(addr)
                    &&& final(self).probes@.len() == old(self).probes@.len() - 1
                    &&& !key_contains(assoc_view(final(self).name_map@), e0.name@)
                    &&& (forall|k: Seq<char>|
                        k != e0.name@ ==> key_contains(assoc_view(final(self).name_map@), k)
                            == key_contains(assoc_view(old(self).name_map@), k))
                })
                &&& (spec_slot(e0, !is_ret) is Some ==> {
                    let e1 = final(self).probes@[final(self).pair_at(addr)].1;
                    &&& final(self).has_pair(addr)
                    &&& final(self).probes@.len() == old(self).probes@.len()
                    &&& final(self).name_map@ == old(self).name_map@
                    &&& spec_slot(e1, is_ret) is None
                    &&& spec_slot(e1, !is_ret) == spec_slot(e0, !is_ret)
                    &&& e1.name@ == e0.name@
                    &&& (forall|j: int|
                        0 <= j < final(self).probes@.len() && j != i ==> final(self).probes@[j]
                            == old(self).probes@[j])
                })
            },
    {
        match self.disable(text, pool, addr, is_ret) {
            Ok(()) => {},
            Err(e) => {
                return Err(e);
            },
        }
        let idx = match self.find_pair(addr) {
            Some(i) => i,
            None => {
                proof {
                    assert(false);
                }
                return Err("host probe not found");
            },
        };
        proof {
            let k0 = old(self).pair_at(addr);
            assert(0 <= k0 < old(self).probes@.len() && old(self).probes@[k0].0 == addr);
            assert(self.probes@[k0].0 == addr);
            if k0 != idx as int {
                assert(false);
            }
        }
        let ghost p0 = self.probes@;
        let had = {
            let e = &mut self.probes[idx].1;
            let had = if is_ret {
                e.ret_slot.is_some()
            } else {
                e.entry_slot.is_some()
            };
            if is_ret {
                e.ret_slot = None;
            } else {
                e.entry_slot = None;
            }
            had
        };
        proof {
            let p1 = self.probes@;
            assert(forall|j: int| 0 <= j < p1.len() && j != idx ==> p1[j] == p0[j]);
            assert(forall|j: int| 0 <= j < p1.len() ==> (#[trigger] p1[j]).0 == p0[j].0);
            assert(ak_unique(p1));
        }
        if !had {
            proof {
                assert(false);
            }
            return Err("host probe not found");
        }
        let empty = {
            let e = &self.probes[idx].1;
            e.entry_slot.is_none() && e.ret_slot.is_none()
        };
        if empty {
            let name = self.probes[idx].1.name.clone();
            let ghost pm = self.probes@;
            let _ = self.probes.remove(idx);
            proof {
                assert(ak_unique(self.probes@));
                let pr = self.probes@;
                assert forall|j: int| 0 <= j < pr.len() implies (#[trigger] pr[j]).0 != addr by {
                    if j < idx as int {
                        assert(pr[j] == pm[j]);
                        assert(pm[j].0 == old(self).probes@[j].0);
                    } else {
                        assert(pr[j] == pm[j + 1]);
                        assert(pm[j + 1].0 == old(self).probes@[j + 1].0);
                    }
                }
            }
            self.remove_name(name.as_str());
            proof {
                if self.has_pair(addr) {
                    let w = ak_index_of(self.probes@, addr);
                    assert(0 <= w < self.probes@.len() && self.probes@[w].0 == addr);
                    assert(false);
                }
            }
        } else {
            proof {
                let p1 = self.probes@;
                assert(p1[idx as int].0 == addr);
                let k = ak_index_of(p1, addr);
                assert(0 <= k < p1.len() && p1[k].0 == addr);
                if k != idx as int {
                    assert(false);
                }
            }
        }
        Ok(())
    }

    /// Drop a name binding.
    fn remove_name(&mut self, name: &str)
        requires
            old(self).wf(),
        ensures
            final(self).wf(),
            final(self).probes@ == old(self).probes@,
            !key_contains(assoc_view(final(self).name_map@), name@),
            forall|k: Seq<char>|
                k != name@ ==> key_contains(assoc_view(final(self).name_map@), k)
                    == key_contains(assoc_view(old(self).name_map@), k),
    {
        match find_key(&self.name_map, name) {
            Some(i) => {
                let _ = self.name_map.remove(i);
                proof {
                    let v0 = assoc_view(old(self).name_map@);
                    let v1 = assoc_view(self.name_map@);
                    assert(forall|a: int|
                        0 <= a < v1.len() ==> #[trigger] v1[a] == if a < i as int {
                            v0[a]
                        } else {
                            v0[a + 1]
                        });
                    assert(keys_unique(v1));
                    assert(v0[i as int].0 == name@);
                    assert forall|a: int| 0 <= a < v1.len() implies v1[a].0 != name@ by {
                        if a < i as int {
                            assert(v1[a] == v0[a]);
                        } else {
                            assert(v1[a] == v0[a + 1]);
                        }
                    }
                    assert forall|k: Seq<char>| k != name@ implies key_contains(v1, k)
                        == key_contains(v0, k) by {
                        if key_contains(v1, k) {
                            let w = choose|w: int| 0 <= w < v1.len() && v1[w].0 == k;
                            if w < i as int {
                                assert(v0[w].0 == k);
                            } else {
                                assert(v0[w + 1].0 == k);
                            }
                        }
                        if key_contains(v0, k) {
                            let w = choose|w: int| 0 <= w < v0.len() && v0[w].0 == k;
                            assert(w != i as int);
                            if w < i as int {
                                assert(v1[w].0 == k);
                            } else {
                                assert(v1[w - 1].0 == k);
                            }
                        }
                    }
                }
            },
            None => {
                proof {
                    let v0 = assoc_view(self.name_map@);
                    if key_contains(v0, name@) {
                        let w = choose|w: int| 0 <= w < v0.len() && v0[w].0 == name@;
                        assert(false);
                    }
                }
            },
        }
    }

    /// Disable and unregister every slot registered under a symbol name:
    /// each enabled slot writes its saved word back over the probed
    /// address, and the pair and its name binding leave the registry.
    pub fn unregister_by_name(&mut self, text: &mut KernelText, pool: &mut SlotPool,
        name: &str) -> (r: Result<(), &'static str>)
        requires
            old(self).wf(),
            old(text).wf(),
            old(pool).wf(),
        ensures
            final(self).wf(),
            final(text).wf(),
            final(pool).wf(),
            !key_contains(assoc_view(old(self).name_map@), name@) ==> r is Err && final(self)
                .probes@ == old(self).probes@ && final(self).name_map@ == old(self).name_map@
                && final(text).text() == old(text).text(),
            spec_detach_ready(*old(self), *old(text), name@) ==> {
                let a = key_value_of(assoc_view(old(self).name_map@), name@);
                let e0 = old(self).probes@[old(self).pair_at(a)].1;
                &&& r is Ok
                &&& !final(self).has_pair(a)
                &&& !key_contains(assoc_view(final(self).name_map@), name@)
                &&& final(text).text() == spec_detached_text(old(text).text(), e0, a)
            },
    {
        let addr = match self.get_addr_by_name(name) {
            Some(a) => a,
            None => {
                return Err("host probe not found");
            },
        };
        let (has_entry, has_ret) = match self.find_pair(addr) {
            Some(i) => {
                let e = &self.probes[i].1;
                (e.entry_slot.is_some(), e.ret_slot.is_some())
            },
            None => {
                return Err("host probe not found");
            },
        };
        let ghost r0 = *old(self);
        let ghost t0 = *old(text);
        let ghost ready = spec_detach_ready(r0, t0, name@);
        let ghost e0 = r0.probes@[r0.pair_at(addr as usize)].1;
        if has_entry {
            match self.unregister(text, pool, addr, false) {
                Ok(()) => {},
                Err(e) => {
                    return Err(e);
                },
            }
        }
        proof {
            if ready && has_entry && has_ret {
                // The kept pair still sits at the address, holds the
                // untouched return slot, and its pages are still known.
                assert(self.probes@[self.pair_at(addr as usize)].1.ret_slot == e0.ret_slot);
                let ps = crate::page_table::PAGE_SIZE as int;
                if t0.range_pages_known(addr as int, 4) {
                    assert forall|p: int|
                        addr as int / ps <= p <= (addr as int + 3) / ps implies
                        crate::page_table::addr_contains(text.pages@, #[trigger] (p * ps)) by {
                        assert(crate::page_table::addr_contains(t0.pages@, p * ps));
                        let w = choose|w: int|
                            0 <= w < t0.pages@.len() && t0.pages@[w].0 == p * ps;
                        assert(text.pages@[w].0 == p * ps);
                    }
                    assert(text.range_pages_known(addr as int, 4));
                }
            }
        }
        if has_ret {
            match self.unregister(text, pool, addr, true) {
                Ok(()) => {},
                Err(e) => {
                    return Err(e);
                },
            }
        }
        proof {
            if ready {
                assert(final(text).text() == spec_detached_text(t0.text(), e0, addr as usize));
            }
        }
        Ok(())
    }

    /// Register and enable one probe slot by name; a failed enable rolls
    /// the registration back.
    pub fn attach(&mut self, symbols: &SymbolTable, text: &mut KernelText,
        pool: &mut SlotPool, name: &str, prog_id: u32, is_ret: bool) -> (r: Result<
        usize,
        &'static str,
    >)
        requires
            old(self).wf(),
            symbols.wf(),
            old(text).wf(),
            old(pool).wf(),
        ensures
            final(self).wf(),
            final(text).wf(),
            final(pool).wf(),
            r is Ok ==> {
                let a = r->Ok_0;
                let e = final(self).probes@[final(self).pair_at(a)].1;
                let s = spec_slot(e, is_ret)->Some_0;
                &&& symbols.spec_has(name@)
                &&& a == symbols.spec_addr_of(name@) as usize
                &&& final(self).has_pair(a)
                &&& e.name@ == name@
                &&& slot_enabled(e, is_ret)
                &&& s.saved_insn is Some
                &&& s.saved_insn->Some_0@.len() == 4
                &&& (forall|k: int|
                    0 <= k < 4 ==> old(text).text().dom().contains(#[trigger] (a + k))
                        && s.saved_insn->Some_0@[k] == old(text).text()[a + k])
                &&& (forall|k: int|
                    0 <= k < 4 ==> final(text).text().dom().contains(#[trigger] (a + k))
                        && final(text).text()[a + k] == main_brk_bytes()[k])
                &&& key_contains(assoc_view(final(self).name_map@), name@)
                &&& key_value_of(assoc_view(final(self).name_map@), name@) == a
            },
            final(text).pages@.len() == old(text).pages@.len(),
            forall|j: int|
                0 <= j < final(text).pages@.len() ==> (#[trigger] final(text).pages@[j]).0
                    == old(text).pages@[j].0,
            r is Err && symbols.spec_has(name@) ==> ({
                let a = symbols.spec_addr_of(name@) as usize;
                forall|k: int|
                    a <= k < a + 4 ==> #[trigger] final(text).text().dom().contains(k) == old(
                        text,
                    ).text().dom().contains(k) && (old(text).text().dom().contains(k)
                        ==> final(text).text()[k] == old(text).text()[k])
            }),
            symbols.spec_has(name@) && symbols.spec_addr_of(name@) <= (usize::MAX - 4) as u64
                && !key_contains(assoc_view(old(self).name_map@), name@) && !old(self).has_pair(
                symbols.spec_addr_of(name@) as usize,
            ) && (symbols.spec_addr_of(name@) as usize + 4 <= old(pool).base
                || symbols.spec_addr_of(name@) as usize >= old(pool).base + 2048) && (exists|
                j: int,
            |
                0 <= j < 64 && !bit_set(old(pool).bitmap, j)) && old(text).range_mapped(
                symbols.spec_addr_of(name@) as int,
                4,
            ) && old(text).range_pages_known(symbols.spec_addr_of(name@) as int, 4) && old(
                text,
            ).range_pages_known(old(pool).base as int, 2048) ==> r is Ok,
            r is Err && !key_contains(assoc_view(old(self).name_map@), name@) && (
            symbols.spec_has(name@) ==> !old(self).has_pair(
                symbols.spec_addr_of(name@) as usize,
            )) ==> final(self).probes@.len() == old(self).probes@.len() && !key_contains(
                assoc_view(final(self).name_map@),
                name@,
            ) && (symbols.spec_has(name@) ==> !final(self).has_pair(
                symbols.spec_addr_of(name@) as usize,
            )),
    {
        let ghost r0 = *self;
        let addr = match self.register(symbols, name, prog_id, is_ret) {
            Ok(a) => a,
            Err(e) => {
                return Err(e);
            },
        };
        let ghost mid = *self;
        if addr > usize::MAX - 4 {
            let _ = self.unregister(text, pool, addr, is_ret);
            return Err("symbol address out of range");
        }
        match self.enable(text, pool, addr, is_ret) {
            Ok(()) => {
                proof {
                    let i = mid.pair_at(addr);
                    assert(self.probes@[i].0 == addr);
                    assert(ak_contains(self.probes@, addr));
                    let k = ak_index_of(self.probes@, addr);
                    assert(0 <= k < self.probes@.len() && self.probes@[k].0 == addr);
                    if k != i {
                        assert(false);
                    }
                }
                Ok(addr)
            },
            Err(e) => {
                let ghost tmid = *text;
                let _ = self.unregister(text, pool, addr, is_ret);
                proof {
                    // The fresh slot stayed disabled, so the rollback
                    // never writes text; the enable call left the probed
                    // word alone on its failure path.
                    assert(text.text() == tmid.text());
                }
                Err(e)
            },
        }
    }

    /// Disable and unregister every slot of a symbol: both slots are
    /// removed with the pair and the name binding, and each enabled
    /// slot's saved original instruction is written back over the probed
    /// word.
    pub fn detach(&mut self, text: &mut KernelText, pool: &mut SlotPool, name: &str) -> (r:
        Result<(), &'static str>)
        requires
            old(self).wf(),
            old(text).wf(),
            old(pool).wf(),
        ensures
            final(self).wf(),
            final(text).wf(),
            final(pool).wf(),
            !key_contains(assoc_view(old(self).name_map@), name@) ==> r is Err && final(self)
                .probes@ == old(self).probes@ && final(self).name_map@ == old(self).name_map@
                && final(text).text() == old(text).text(),
            spec_detach_ready(*old(self), *old(text), name@) ==> {
                let a = key_value_of(assoc_view(old(self).name_map@), name@);
                let e0 = old(self).probes@[old(self).pair_at(a)].1;
                &&& r is Ok
                &&& !final(self).has_pair(a)
                &&& !key_contains(assoc_view(final(self).name_map@), name@)
                &&& final(text).text() == spec_detached_text(old(text).text(), e0, a)
            },
    {
        self.unregister_by_name(text, pool, name)
    }

    /// Whether any slot at an address is enabled.
    pub fn lookup(&self, addr: usize) -> (r: Option<bool>)
        requires
            self.wf(),
        ensures
            r == if self.has_pair(addr) {
                Some(spec_pair_enabled(self.probes@[self.pair_at(addr)].1))
            } else {
                None::<bool>
            },
    {
        match self.find_pair(addr) {
            Some(i) => {
                let e = &self.probes[i].1;
                let enabled = match &e.entry_slot {
                    Some(s) => matches!(s.state, KprobeState::Enabled),
                    None => false,
                } || match &e.ret_slot {
                    Some(s) => matches!(s.state, KprobeState::Enabled),
                    None => false,
                };
                Some(enabled)
            },
            None => None,
        }
    }

    /// Whether the pair at an address has a return slot.
    pub fn has_ret_slot(&self, addr: usize) -> (r: bool)
        requires
            self.wf(),
        ensures
            r == (self.has_pair(addr) && self.probes@[self.pair_at(addr)].1.ret_slot is Some),
    {
        match self.find_pair(addr) {
            Some(i) => self.probes[i].1.ret_slot.is_some(),
            None => false,
        }
    }

    /// The program bound to the entry slot at an address, or failing that
    /// the return slot.
    pub fn lookup_prog_id(&self, addr: usize) -> (r: Option<u32>)
        requires
            self.wf(),
        ensures
            r == if self.has_pair(addr) {
                spec_pair_prog(self.probes@[self.pair_at(addr)].1)
            } else {
                None::<u32>
            },
    {
        match self.find_pair(addr) {
            Some(i) => {
                let e = &self.probes[i].1;
                match &e.entry_slot {
                    Some(s) => Some(s.prog_id),
                    None => match &e.ret_slot {
                        Some(s) => Some(s.prog_id),
                        None => None,
                    },
                }
            },
            None => None,
        }
    }

    /// Record hits at trap time on both slots of the pair; reports which
    /// slots were present.
    pub fn record_break_hit(&mut self, addr: usize) -> (r: (bool, bool))
        requires
            old(self).wf(),
        ensures
            final(self).wf(),
            final(self).probes@.len() == old(self).probes@.len(),
            !old(self).has_pair(addr) ==> r == (false, false) && final(self).probes@ == old(
                self,
            ).probes@,
            old(self).has_pair(addr) ==> {
                let i = old(self).pair_at(addr);
                let e0 = old(self).probes@[i].1;
                &&& r.0 == (e0.entry_slot is Some)
                &&& r.1 == (e0.ret_slot is Some)
                &&& (forall|j: int|
                    0 <= j < final(self).probes@.len() && j != i ==> final(self).probes@[j]
                        == old(self).probes@[j])
                &&& final(self).probes@[i].0 == addr
                &&& final(self).probes@[i].1 == (KprobeEntry {
                    entry_slot: spec_bump(e0.entry_slot),
                    ret_slot: spec_bump(e0.ret_slot),
                    ..e0
                })
            },
    {
        let idx = match self.find_pair(addr) {
            Some(i) => i,
            None => {
                return (false, false);
            },
        };
        let ghost p0 = self.probes@;
        let e = &mut self.probes[idx].1;
        let mut entry_hit = false;
        let mut ret_hit = false;
        match &mut e.entry_slot {
            Some(s) => {
                if s.hits < u64::MAX {
                    s.hits = s.hits + 1;
                }
                entry_hit = true;
            },
            None => {},
        }
        match &mut e.ret_slot {
            Some(s) => {
                if s.hits < u64::MAX {
                    s.hits = s.hits + 1;
                }
                ret_hit = true;
            },
            None => {},
        }
        proof {
            let p1 = self.probes@;
            assert(forall|j: int| 0 <= j < p1.len() && j != idx ==> p1[j] == p0[j]);
            assert(forall|j: int| 0 <= j < p1.len() ==> (#[trigger] p1[j]).0 == p0[j].0);
            assert(ak_unique(p1));
        }
        (entry_hit, ret_hit)
    }

    /// Record one hit on whichever slots exist at an address.
    pub fn record_hit(&mut self, addr: usize)
        requires
            old(self).wf(),
        ensures
            final(self).wf(),
    {
        let _ = self.record_break_hit(addr);
    }

    /// Every probe slot, flattened for display: name, address, hits,
    /// enabled, is-return and program id.
    pub fn list_all(&self) -> (r: Vec<(String, usize, u64, bool, bool, u32)>)
        ensures
            r@.len() <= 2 * self.probes@.len(),
    {
        let mut out: Vec<(String, usize, u64, bool, bool, u32)> = Vec::new();
        let mut i: usize = 0;
        while i < self.probes.len()
            invariant
                i <= self.probes@.len(),
                out@.len() <= 2 * i,
            decreases self.probes@.len() - i,
        {
            let e = &self.probes[i].1;
            match &e.entry_slot {
                Some(s) => {
                    out.push(
                        (
                            e.name.clone(),
                            e.addr,
                            s.hits,
                            matches!(s.state, KprobeState::Enabled),
                            false,
                            s.prog_id,
                        ),
                    );
                },
                None => {},
            }
            match &e.ret_slot {
                Some(s) => {
                    out.push(
                        (
                            e.name.clone(),
                            e.addr,
                            s.hits,
                            matches!(s.state, KprobeState::Enabled),
                            true,
                            s.prog_id,
                        ),
                    );
                },
                None => {},
            }
            i = i + 1;
        }
        out
    }
}

/// Host probe text stability: after enabling a probe (which injects the
/// main breakpoint) and disabling it again (which writes the saved
/// original back), every byte of the probed word equals its pre-enable
/// value, whatever the out-of-line slot now holds, as long as the slot
/// region does not overlap the probed word.
pub proof fn lemma_attach_detach_text_stable(t0: Map<int, u8>, slot_base: int, slot_img: Seq<
    u8,
>, addr: int, saved: Seq<u8>)
    requires
        saved.len() == 4,
        forall|a: int| addr <= a < addr + 4 ==> t0.dom().contains(a),
        forall|a: int| addr <= a < addr + 4 ==> t0[a] == saved[a - addr],
        slot_base + slot_img.len() <= addr || slot_base >= addr + 4,
    ensures
        forall|a: int|
            addr <= a < addr + 4 ==> spec_write_bytes(
                spec_write_bytes(
                    spec_write_bytes(t0, slot_base, slot_img),
                    addr,
                    main_brk_bytes(),
                ),
                addr,
                saved,
            )[a] == t0[a],
{
}

} // verus!
