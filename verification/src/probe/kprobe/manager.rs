//! Guest probe manager: registration, enabling and lifecycle of probes on
//! guest-kernel text, keyed by VM id and guest virtual address.
//!
//! Two injection modes: Stage-2 fault flips the guest-physical page's
//! execute permission off; breakpoint injection saves the original guest
//! instruction word at its host virtual address, writes the breakpoint
//! encoding there, and restores the word on disable. A detached
//! breakpoint-mode probe is retained in a bounded stale registry so that
//! in-flight traps can be absorbed and retried.

use vstd::prelude::*;

use crate::page_table::{addr_contains, addr_value_of, addrs_unique};
use crate::probe::kprobe::addr_translate::{pte_map, spec_walk, Translator};

verus! {

/// Guest probe injection mode.
#[derive(Debug, Clone, Copy, PartialEq, Eq, Structural)]
pub enum KprobeMode {
    /// Mark the guest-physical page non-executable through Stage-2.
    Stage2Fault,
    /// Write a breakpoint instruction into guest memory.
    BrkInject,
}

/// Lifecycle state of a guest probe.
#[derive(Debug, Clone, Copy, PartialEq, Eq, Structural)]
pub enum GuestKprobeState {
    /// Registered, never enabled.
    Registered,
    /// Breakpoint or fault injection active.
    Enabled,
    /// Injection undone.
    Disabled,
}

/// The breakpoint instruction word injected into guest text.
pub const GUEST_BRK_INSN: u32 = 0xd4200000;

/// Retained stale-probe retries per entry.
pub const STALE_BRK_RETRY_BUDGET: u32 = 4096;

/// Capacity of the stale registry.
pub const STALE_BRK_MAX_ENTRIES: usize = 64;

/// A registered guest probe.
pub struct GuestKprobeEntry {
    /// VM this probe targets; zero matches any VM.
    pub vm_id: u32,
    /// Guest virtual address.
    pub gva: u64,
    /// Symbol name, when resolved.
    pub symbol: Option<String>,
    /// Injection mode.
    pub mode: KprobeMode,
    /// Bound program id.
    pub prog_id: u32,
    /// Hit count.
    pub hits: u64,
    /// Whether this is a return probe.
    pub is_ret: bool,
    /// Lifecycle state.
    pub state: GuestKprobeState,
    /// Saved original instruction (breakpoint mode only).
    pub saved_insn: Option<u32>,
    /// Resolved guest physical address (Stage-2 mode only).
    pub resolved_gpa: Option<u64>,
    /// Resolved host virtual address (breakpoint mode only).
    pub resolved_hva: Option<usize>,
}

/// A detached breakpoint probe retained for stale trap recovery.
#[derive(Debug, Clone, Copy, PartialEq, Eq, Structural)]
pub struct StaleBrkEntry {
    /// Host virtual address of the patched word.
    pub hva: usize,
    /// The original instruction word.
    pub saved_insn: u32,
    /// Remaining retry credits.
    pub retries_left: u32,
}

/// Guest text words by host virtual address.
pub struct GuestMemory {
    /// Instruction words, by address.
    pub words: Vec<(usize, u32)>,
}

/// The guest words as a partial map.
pub open spec fn words_map(entries: Seq<(usize, u32)>) -> Map<int, u32> {
    Map::new(|a: int| addr_contains(entries, a), |a: int| addr_value_of(entries, a))
}

impl GuestMemory {
    /// Word addresses are unique.
    pub open spec fn wf(&self) -> bool {
        addrs_unique(self.words@)
    }

    /// The words as a partial map.
    pub open spec fn view_of(&self) -> Map<int, u32> {
        words_map(self.words@)
    }

    /// An empty guest memory model.
    pub fn new() -> (r: GuestMemory)
        ensures
            r.wf(),
            r.words@.len() == 0,
    {
        GuestMemory { words: Vec::new() }
    }

    /// Read the instruction word at an address.
    pub fn read_word(&self, hva: usize) -> (r: Option<u32>)
        requires
            self.wf(),
        ensures
            match r {
                Some(w) => self.view_of().dom().contains(hva as int) && w == self.view_of()[
                    hva as int
                ],
                None => !self.view_of().dom().contains(hva as int),
            },
    {
        let mut i: usize = 0;
        while i < self.words.len()
            invariant
                i <= self.words@.len(),
                forall|j: int| 0 <= j < i ==> self.words@[j].0 != hva,
            decreases self.words@.len() - i,
        {
            if self.words[i].0 == hva {
                proof {
                    let k = choose|k: int| 0 <= k < self.words@.len() && self.words@[k].0
                        == hva as int;
                    assert(addr_contains(self.words@, hva as int));
                    if k != i as int {
                        assert(false);
                    }
                }
                return Some(self.words[i].1);
            }
            i = i + 1;
        }
        None
    }

    /// Write the instruction word at an address; a fresh address is added
    /// to the model. The instruction cache over the word is considered
    /// flushed once the write lands.
    pub fn write_word(&mut self, hva: usize, w: u32)
        requires
            old(self).wf(),
        ensures
            final(self).wf(),
            final(self).view_of() == old(self).view_of().insert(hva as int, w),
    {
        let mut i: usize = 0;
        while i < self.words.len()
            invariant
                i <= self.words@.len(),
                self.words@ == old(self).words@,
                forall|j: int| 0 <= j < i ==> self.words@[j].0 != hva,
            decreases self.words@.len() - i,
        {
            if self.words[i].0 == hva {
                let ghost w0 = self.words@;
                let e = &mut self.words[i];
                e.1 = w;
                proof {
                    let w1 = self.words@;
                    assert forall|x: int, y: int| 0 <= x < y < w1.len() implies w1[x].0
                        != w1[y].0 by {
                        assert(w1[x].0 == w0[x].0 && w1[y].0 == w0[y].0);
                    }
                    lemma_word_upsert(w0, w1, hva as int, w, i as int);
                    assert(self.view_of() =~= old(self).view_of().insert(hva as int, w));
                }
                return ;
            }
            i = i + 1;
        }
        let ghost w0 = self.words@;
        self.words.push((hva, w));
        proof {
            let w1 = self.words@;
            assert(forall|j: int| 0 <= j < w0.len() ==> (#[trigger] w1[j]) == w0[j]);
            assert forall|x: int, y: int| 0 <= x < y < w1.len() implies w1[x].0 != w1[y].0 by {
                if y < w1.len() - 1 {
                    assert(w1[x] == w0[x] && w1[y] == w0[y]);
                } else {
                    assert(w1[x] == w0[x]);
                    assert(w0[x].0 != hva);
                }
            }
            lemma_word_upsert(w0, w1, hva as int, w, w1.len() - 1);
            assert(self.view_of() =~= old(self).view_of().insert(hva as int, w));
        }
    }
}

/// After a single-entry upsert, the word map is the old map with one
/// binding replaced or added.
proof fn lemma_word_upsert(w0: Seq<(usize, u32)>, w1: Seq<(usize, u32)>, addr: int, w: u32,
    i: int)
    requires
        addrs_unique(w0),
        addrs_unique(w1),
        0 <= i < w1.len(),
        w1[i].0 == addr,
        w1[i].1 == w,
        forall|j: int| 0 <= j < w1.len() && j != i ==> w1[j] == w0[j],
        w1.len() == w0.len() || (w1.len() == w0.len() + 1 && i == w0.len()),
        w1.len() == w0.len() ==> w0[i].0 == addr,
    ensures
        words_map(w1) == words_map(w0).insert(addr, w),
{
    let k = choose|k: int| 0 <= k < w1.len() && w1[k].0 == addr;
    assert(w1[i].0 == addr);
    assert(addr_contains(w1, addr));
    if k != i {
        assert(false);
    }
    assert forall|a: int| addr_contains(w1, a) && a != addr implies addr_contains(w0, a) by {
        let j = choose|j: int| 0 <= j < w1.len() && w1[j].0 == a;
        assert(j != i);
        assert(w0[j].0 == a);
    }
    assert forall|a: int| addr_contains(w0, a) && a != addr implies addr_contains(w1, a) by {
        let j = choose|j: int| 0 <= j < w0.len() && w0[j].0 == a;
        if w1.len() == w0.len() {
            assert(j != i || w0[i].0 == addr);
        }
        assert(w1[j].0 == a);
    }
    assert forall|a: int| addr_contains(w0, a) && a != addr implies addr_value_of(w1, a)
        == addr_value_of(w0, a) by {
        let j = choose|j: int| 0 <= j < w0.len() && w0[j].0 == a;
        let j0 = choose|x: int| 0 <= x < w0.len() && w0[x].0 == a;
        assert(w0[j].0 == a);
        let j1 = choose|x: int| 0 <= x < w1.len() && w1[x].0 == a;
        assert(w1[j].0 == a);
        if j1 != j {
            assert(false);
        }
        if j0 != j {
            assert(false);
        }
    }
    assert(words_map(w1) =~= words_map(w0).insert(addr, w));
}

/// Restoring the saved word after injecting a breakpoint at the same
/// address brings guest memory back to its pre-enable contents.
pub proof fn lemma_brk_restore(m: Map<int, u32>, hva: int, saved: u32)
    requires
        m.dom().contains(hva),
        m[hva] == saved,
    ensures
        m.insert(hva, GUEST_BRK_INSN).insert(hva, saved) == m,
{
    assert(m.insert(hva, GUEST_BRK_INSN).insert(hva, saved) =~= m);
}

/// Whether a (VM, page) list holds a pair.
pub open spec fn nonexec_contains(s: Seq<(u32, u64)>, k: (u32, u64)) -> bool {
    exists|i: int| 0 <= i < s.len() && s[i] == k
}

/// The Stage-2 execute-permission backend: whether it is installed, and
/// which (VM, guest physical page) pairs currently have execute disabled.
pub struct Stage2 {
    /// Whether the backend hook is installed.
    pub present: bool,
    /// Pages with execute currently off.
    pub non_exec: Vec<(u32, u64)>,
}

impl Stage2 {
    /// A backend that is not installed yet.
    pub fn new() -> (r: Stage2)
        ensures
            r.present == false,
            r.non_exec@.len() == 0,
    {
        Stage2 { present: false, non_exec: Vec::new() }
    }

    /// Install the backend.
    pub fn register_stage2_exec_hook(&mut self)
        ensures
            final(self).present,
            final(self).non_exec@ == old(self).non_exec@,
    {
        self.present = true;
    }

    /// Remove the backend.
    pub fn clear_stage2_exec_hook_for_test(&mut self)
        ensures
            !final(self).present,
            final(self).non_exec@ == old(self).non_exec@,
    {
        self.present = false;
    }

    /// Flip the execute permission of a guest physical page.
    pub fn set_stage2_executable(&mut self, vm_id: u32, gpa: u64, executable: bool) -> (r:
        Result<(), ()>)
        ensures
            !old(self).present ==> r is Err && final(self).non_exec@ == old(self).non_exec@,
            old(self).present ==> r is Ok,
            final(self).present == old(self).present,
            r is Ok && !executable ==> final(self).non_exec@ == old(self).non_exec@.push(
                (vm_id, gpa),
            ),
            r is Ok && executable ==> forall|k: (u32, u64)|
                nonexec_contains(final(self).non_exec@, k) == (nonexec_contains(
                    old(self).non_exec@,
                    k,
                ) && k != (vm_id, gpa)),
    {
        if !self.present {
            return Err(());
        }
        if executable {
            let mut out: Vec<(u32, u64)> = Vec::new();
            let mut i: usize = 0;
            while i < self.non_exec.len()
                invariant
                    i <= self.non_exec@.len(),
                    self.non_exec@ == old(self).non_exec@,
                    forall|k: (u32, u64)|
                        nonexec_contains(out@, k) == (nonexec_contains(
                            old(self).non_exec@.subrange(0, i as int),
                            k,
                        ) && k != (vm_id, gpa)),
                decreases self.non_exec@.len() - i,
            {
                let ghost o0 = out@;
                let ghost pre = old(self).non_exec@.subrange(0, i as int);
                let ghost cur = old(self).non_exec@[i as int];
                let ghost post = old(self).non_exec@.subrange(0, i as int + 1);
                proof {
                    assert(post =~= pre.push(cur));
                }
                if !(self.non_exec[i].0 == vm_id && self.non_exec[i].1 == gpa) {
                    out.push((self.non_exec[i].0, self.non_exec[i].1));
                    proof {
                        assert(cur != (vm_id, gpa));
                        assert(out@ =~= o0.push(cur));
                        assert forall|k: (u32, u64)|
                            nonexec_contains(out@, k) == (nonexec_contains(post, k) && k != (
                            vm_id,
                            gpa,
                            )) by {
                            assert(nonexec_contains(o0, k) == (nonexec_contains(pre, k) && k
                                != (vm_id, gpa)));
                            if nonexec_contains(out@, k) {
                                let w = choose|w: int| 0 <= w < out@.len() && out@[w] == k;
                                if w < o0.len() {
                                    assert(o0[w] == k);
                                    assert(nonexec_contains(o0, k));
                                    let u = choose|u: int| 0 <= u < pre.len() && pre[u] == k;
                                    assert(post[u] == k);
                                } else {
                                    assert(k == cur);
                                    assert(post[pre.len() as int] == k);
                                }
                            }
                            if nonexec_contains(post, k) && k != (vm_id, gpa) {
                                let w = choose|w: int| 0 <= w < post.len() && post[w] == k;
                                if w < pre.len() {
                                    assert(pre[w] == k);
                                    assert(nonexec_contains(pre, k));
                                    let u = choose|u: int| 0 <= u < o0.len() && o0[u] == k;
                                    assert(out@[u] == k);
                                } else {
                                    assert(k == cur);
                                    assert(out@[o0.len() as int] == k);
                                }
                            }
                        }
                    }
                } else {
                    proof {
                        assert(cur == (vm_id, gpa));
                        assert forall|k: (u32, u64)|
                            nonexec_contains(out@, k) == (nonexec_contains(post, k) && k != (
                            vm_id,
                            gpa,
                            )) by {
                            assert(nonexec_contains(out@, k) == (nonexec_contains(pre, k) && k
                                != (vm_id, gpa)));
                            if nonexec_contains(out@, k) {
                                assert(nonexec_contains(pre, k) && k != (vm_id, gpa));
                                let u = choose|u: int| 0 <= u < pre.len() && pre[u] == k;
                                assert(post[u] == k);
                            }
                            if nonexec_contains(post, k) && k != (vm_id, gpa) {
                                let w = choose|w: int| 0 <= w < post.len() && post[w] == k;
                                if w < pre.len() {
                                    assert(pre[w] == k);
                                    assert(nonexec_contains(pre, k));
                                } else {
                                    assert(k == cur);
                                    assert(false);
                                }
                            }
                        }
                    }
                }
                i = i + 1;
            }
            proof {
                assert(old(self).non_exec@.subrange(0, old(self).non_exec@.len() as int)
                    =~= old(self).non_exec@);
            }
            self.non_exec = out;
        } else {
            self.non_exec.push((vm_id, gpa));
        }
        Ok(())
    }
}


/// Whether a probe-keyed list holds a key.
pub open spec fn pk_contains<T>(s: Seq<((u32, u64), T)>, k: (u32, u64)) -> bool {
    exists|i: int| 0 <= i < s.len() && s[i].0 == k
}

/// The index of a key in a probe-keyed list.
pub open spec fn pk_index_of<T>(s: Seq<((u32, u64), T)>, k: (u32, u64)) -> int {
    choose|i: int| 0 <= i < s.len() && s[i].0 == k
}

/// Keys of a probe-keyed list are pairwise distinct.
pub open spec fn pk_unique<T>(s: Seq<((u32, u64), T)>) -> bool {
    forall|i: int, j: int| 0 <= i < j < s.len() ==> s[i].0 != s[j].0
}

/// Registry of guest probes, their stale remains, and the test hook that
/// fails the next enable deterministically.
pub struct GuestKprobeRegistry {
    /// Probes by (VM id, guest virtual address).
    pub probes: Vec<((u32, u64), GuestKprobeEntry)>,
    /// Detached breakpoint probes kept for stale trap recovery, oldest
    /// first.
    pub stale: Vec<((u32, u64), StaleBrkEntry)>,
    /// Key whose next enable fails, for tests.
    pub mock_fail_enable: Option<(u32, u64)>,
}

impl GuestKprobeRegistry {
    /// Probe and stale keys are pairwise distinct, and every entry's key
    /// matches its fields.
    pub open spec fn wf(&self) -> bool {
        &&& pk_unique(self.probes@)
        &&& pk_unique(self.stale@)
        &&& forall|i: int|
            0 <= i < self.probes@.len() ==> (#[trigger] self.probes@[i]).0 == (
            self.probes@[i].1.vm_id,
            self.probes@[i].1.gva,
            )
        &&& self.stale@.len() <= STALE_BRK_MAX_ENTRIES
    }

    /// Whether a probe is registered under a key.
    pub open spec fn has_probe(&self, vm_id: u32, gva: u64) -> bool {
        pk_contains(self.probes@, (vm_id, gva))
    }

    /// The index of a registered probe.
    pub open spec fn probe_at(&self, vm_id: u32, gva: u64) -> int {
        pk_index_of(self.probes@, (vm_id, gva))
    }

    /// Whether a stale record is retained under a key.
    pub open spec fn has_stale(&self, vm_id: u32, gva: u64) -> bool {
        pk_contains(self.stale@, (vm_id, gva))
    }

    /// The index of a stale record.
    pub open spec fn stale_at(&self, vm_id: u32, gva: u64) -> int {
        pk_index_of(self.stale@, (vm_id, gva))
    }

    /// An empty registry.
    pub fn new() -> (r: GuestKprobeRegistry)
        ensures
            r.wf(),
            r.probes@.len() == 0,
            r.stale@.len() == 0,
            r.mock_fail_enable is None,
    {
        GuestKprobeRegistry { probes: Vec::new(), stale: Vec::new(), mock_fail_enable: None }
    }

    /// First index of a key among the probes.
    fn find_probe(&self, vm_id: u32, gva: u64) -> (r: Option<usize>)
        requires
            self.wf(),
        ensures
            match r {
                Some(i) => 0 <= i < self.probes@.len() && self.probes@[i as int].0 == (
                    vm_id,
                    gva,
                ) && i == self.probe_at(vm_id, gva) && self.has_probe(vm_id, gva),
                None => !self.has_probe(vm_id, gva),
            },
    {
        let mut i: usize = 0;
        while i < self.probes.len()
            invariant
                i <= self.probes@.len(),
                forall|j: int| 0 <= j < i ==> (#[trigger] self.probes@[j]).0 != (vm_id, gva),
            decreases self.probes@.len() - i,
        {
            if self.probes[i].0.0 == vm_id && self.probes[i].0.1 == gva {
                proof {
                    assert(self.probes@[i as int].0 == (vm_id, gva));
                    let k = pk_index_of(self.probes@, (vm_id, gva));
                    assert(0 <= k < self.probes@.len() && self.probes@[k].0 == (vm_id, gva));
                    if k != i as int {
                        assert(false);
                    }
                }
                return Some(i);
            }
            i = i + 1;
        }
        None
    }

    /// First index of a key among the stale records.
    fn find_stale(&self, vm_id: u32, gva: u64) -> (r: Option<usize>)
        requires
            self.wf(),
        ensures
            match r {
                Some(i) => 0 <= i < self.stale@.len() && self.stale@[i as int].0 == (
                    vm_id,
                    gva,
                ) && i == self.stale_at(vm_id, gva) && self.has_stale(vm_id, gva),
                None => !self.has_stale(vm_id, gva),
            },
    {
        let mut i: usize = 0;
        while i < self.stale.len()
            invariant
                i <= self.stale@.len(),
                forall|j: int| 0 <= j < i ==> (#[trigger] self.stale@[j]).0 != (vm_id, gva),
            decreases self.stale@.len() - i,
        {
            if self.stale[i].0.0 == vm_id && self.stale[i].0.1 == gva {
                proof {
                    assert(self.stale@[i as int].0 == (vm_id, gva));
                    let k = pk_index_of(self.stale@, (vm_id, gva));
                    assert(0 <= k < self.stale@.len() && self.stale@[k].0 == (vm_id, gva));
                    if k != i as int {
                        assert(false);
                    }
                }
                return Some(i);
            }
            i = i + 1;
        }
        None
    }

    /// Drop the stale record for a key, if any.
    fn clear_stale_brk(&mut self, vm_id: u32, gva: u64)
        requires
            old(self).wf(),
        ensures
            final(self).wf(),
            !final(self).has_stale(vm_id, gva),
            final(self).probes@ == old(self).probes@,
            final(self).mock_fail_enable == old(self).mock_fail_enable,
    {
        match self.find_stale(vm_id, gva) {
            Some(i) => {
                let _ = self.stale.remove(i);
                proof {
                    let s0 = old(self).stale@;
                    let s1 = self.stale@;
                    assert(forall|a: int|
                        0 <= a < s1.len() ==> #[trigger] s1[a] == if a < i as int {
                            s0[a]
                        } else {
                            s0[a + 1]
                        });
                    assert(pk_unique(s1));
                    assert(!pk_contains(s1, (vm_id, gva)));
                }
            },
            None => {},
        }
    }

    /// Retain a detached breakpoint probe for stale trap recovery, with
    /// the full retry budget; the oldest record leaves at capacity.
    fn remember_stale_brk(&mut self, vm_id: u32, gva: u64, hva: usize, saved_insn: u32)
        requires
            old(self).wf(),
            !old(self).has_stale(vm_id, gva),
        ensures
            final(self).wf(),
            final(self).has_stale(vm_id, gva),
            final(self).stale@[final(self).stale_at(vm_id, gva)].1 == (StaleBrkEntry {
                hva,
                saved_insn,
                retries_left: STALE_BRK_RETRY_BUDGET,
            }),
            final(self).probes@ == old(self).probes@,
            final(self).mock_fail_enable == old(self).mock_fail_enable,
    {
        if self.stale.len() >= STALE_BRK_MAX_ENTRIES {
            let _ = self.stale.remove(0);
            proof {
                let s0 = old(self).stale@;
                let s1 = self.stale@;
                assert(forall|a: int| 0 <= a < s1.len() ==> #[trigger] s1[a] == s0[a + 1]);
                assert(pk_unique(s1));
                assert(!pk_contains(s1, (vm_id, gva)));
            }
        }
        let ghost s0 = self.stale@;
        self.stale.push(
            ((vm_id, gva), StaleBrkEntry { hva, saved_insn, retries_left: STALE_BRK_RETRY_BUDGET }),
        );
        proof {
            let s1 = self.stale@;
            assert(s1[s1.len() - 1].0 == (vm_id, gva));
            assert(forall|a: int| 0 <= a < s0.len() ==> (#[trigger] s1[a]) == s0[a]);
            assert(pk_unique(s1));
            let k = pk_index_of(s1, (vm_id, gva));
            assert(0 <= k < s1.len() && s1[k].0 == (vm_id, gva));
            if k != s1.len() - 1 {
                assert(false);
            }
        }
    }

    /// Register a guest probe; a second registration under the same key is
    /// rejected.
    pub fn register(&mut self, vm_id: u32, gva: u64, prog_id: u32, is_ret: bool,
        mode: KprobeMode) -> (r: Result<(), &'static str>)
        requires
            old(self).wf(),
        ensures
            final(self).wf(),
            old(self).has_probe(vm_id, gva) ==> {
                &&& r is Err
                &&& final(self).probes@ == old(self).probes@
                &&& final(self).stale@ == old(self).stale@
            },
            !old(self).has_probe(vm_id, gva) ==> {
                &&& r is Ok
                &&& final(self).has_probe(vm_id, gva)
                &&& final(self).probes@.len() == old(self).probes@.len() + 1
                &&& forall|j: int|
                    0 <= j < old(self).probes@.len() ==> final(self).probes@[j] == old(
                        self,
                    ).probes@[j]
                &&& final(self).probes@.last().0 == (vm_id, gva)
                &&& final(self).probes@.last().1 == (GuestKprobeEntry {
                    vm_id,
                    gva,
                    symbol: None,
                    mode,
                    prog_id,
                    hits: 0,
                    is_ret,
                    state: GuestKprobeState::Registered,
                    saved_insn: None,
                    resolved_gpa: None,
                    resolved_hva: None,
                })
                &&& !final(self).has_stale(vm_id, gva)
            },
            final(self).mock_fail_enable == old(self).mock_fail_enable,
    {
        match self.find_probe(vm_id, gva) {
            Some(_) => Err("guest kprobe already registered at this address"),
            None => {
                self.clear_stale_brk(vm_id, gva);
                let ghost p0 = self.probes@;
                self.probes.push(
                    (
                        (vm_id, gva),
                        GuestKprobeEntry {
                            vm_id,
                            gva,
                            symbol: None,
                            mode,
                            prog_id,
                            hits: 0,
                            is_ret,
                            state: GuestKprobeState::Registered,
                            saved_insn: None,
                            resolved_gpa: None,
                            resolved_hva: None,
                        },
                    ),
                );
                proof {
                    let p1 = self.probes@;
                    assert(p1[p1.len() - 1].0 == (vm_id, gva));
                    assert(forall|a: int| 0 <= a < p0.len() ==> (#[trigger] p1[a]) == p0[a]);
                    assert(pk_unique(p1));
                }
                Ok(())
            },
        }
    }

    /// Enable a guest probe: resolve its target through the translation
    /// backends and inject the Stage-2 fault or the breakpoint word.
    /// Enabling an already enabled probe changes nothing.
    pub fn enable(&mut self, translator: &Translator, stage2: &mut Stage2,
        mem: &mut GuestMemory, vm_id: u32, gva: u64) -> (r: Result<(), &'static str>)
        requires
            old(self).wf(),
            translator.wf(),
            old(mem).wf(),
        ensures
            final(self).wf(),
            final(mem).wf(),
            !old(self).has_probe(vm_id, gva) ==> {
                &&& r is Err
                &&& final(self).probes@ == old(self).probes@
                &&& final(mem).view_of() == old(mem).view_of()
            },
            r is Err ==> final(mem).view_of() == old(mem).view_of() && final(self).probes@
                == old(self).probes@,
            old(self).has_probe(vm_id, gva) && !(old(self).probes@[old(self).probe_at(
                vm_id,
                gva,
            )].1.state is Enabled) && old(self).mock_fail_enable == Some((vm_id, gva)) ==> r
                is Err,
            old(self).has_probe(vm_id, gva) && (old(self).probes@[old(self).probe_at(
                vm_id,
                gva,
            )].1.mode is Stage2Fault) && !(old(self).mock_fail_enable == Some((vm_id, gva)))
                && old(stage2).present && translator.pt is Some && (
            translator.ttbr matches Some(t) && (exists|i: int|
                0 <= i < t@.len() && (#[trigger] t@[i]).0 == vm_id) && (forall|i: int|
                0 <= i < t@.len() && (#[trigger] t@[i]).0 == vm_id ==> spec_walk(
                    pte_map(translator.pt->Some_0@),
                    gva,
                    t@[i].1,
                ) is Ok)) ==> r is Ok,
            old(self).has_probe(vm_id, gva) && (old(self).probes@[old(self).probe_at(
                vm_id,
                gva,
            )].1.mode is BrkInject) && !(old(self).mock_fail_enable == Some((vm_id, gva))) && (
            translator.direct matches Some(d) && (exists|i: int|
                0 <= i < d@.len() && (#[trigger] d@[i]).0 == gva && d@[i].1 == vm_id) && (
            forall|i: int|
                0 <= i < d@.len() && (#[trigger] d@[i]).0 == gva && d@[i].1 == vm_id ==> old(
                    mem,
                ).view_of().dom().contains(d@[i].2 as int))) ==> r is Ok,
            old(self).has_probe(vm_id, gva) && r is Ok ==> {
                let i = old(self).probe_at(vm_id, gva);
                let e0 = old(self).probes@[i].1;
                let e = final(self).probes@[i].1;
                &&& final(self).probes@.len() == old(self).probes@.len()
                &&& final(self).has_probe(vm_id, gva)
                &&& final(self).probe_at(vm_id, gva) == i
                &&& e.state is Enabled
                &&& e.vm_id == e0.vm_id
                &&& e.gva == e0.gva
                &&& e.symbol == e0.symbol
                &&& e.mode == e0.mode
                &&& e.prog_id == e0.prog_id
                &&& e.hits == e0.hits
                &&& e.is_ret == e0.is_ret
                &&& (forall|j: int|
                    0 <= j < final(self).probes@.len() && j != i ==> final(self).probes@[j]
                        == old(self).probes@[j])
                &&& (e0.state is Enabled ==> final(self).probes@ == old(self).probes@
                    && final(mem).view_of() == old(mem).view_of())
                &&& (!(e0.state is Enabled) && e0.mode is BrkInject ==> {
                    let hva = e.resolved_hva->Some_0;
                    &&& e.resolved_hva is Some
                    &&& e.saved_insn is Some
                    &&& e.resolved_gpa == e0.resolved_gpa
                    &&& old(mem).view_of().dom().contains(hva as int)
                    &&& e.saved_insn->Some_0 == old(mem).view_of()[hva as int]
                    &&& final(mem).view_of() == old(mem).view_of().insert(
                        hva as int,
                        GUEST_BRK_INSN,
                    )
                })
                &&& (!(e0.state is Enabled) && e0.mode is Stage2Fault ==> {
                    &&& e.resolved_gpa is Some
                    &&& e.resolved_hva == e0.resolved_hva
                    &&& e.saved_insn == e0.saved_insn
                    &&& final(mem).view_of() == old(mem).view_of()
                })
            },
    {
        let idx = match self.find_probe(vm_id, gva) {
            Some(i) => i,
            None => {
                return Err("guest kprobe not found");
            },
        };
        if matches!(self.probes[idx].1.state, GuestKprobeState::Enabled) {
            return Ok(());
        }
        match self.mock_fail_enable {
            Some(k) => {
                if k.0 == vm_id && k.1 == gva {
                    self.mock_fail_enable = None;
                    proof {
                        assert(self.probes@ == old(self).probes@);
                    }
                    return Err("mock backend enable failed");
                }
            },
            None => {},
        }
        let mode = self.probes[idx].1.mode;
        match mode {
            KprobeMode::Stage2Fault => {
                if translator.vm_ttbr1_el1(vm_id).is_err() {
                    return Err("VM translation table register is not ready");
                }
                let gpa = match translator.gva_to_gpa_with_vm(gva, vm_id) {
                    Ok(v) => v,
                    Err(_) => {
                        return Err("failed to translate guest virtual address");
                    },
                };
                if stage2.set_stage2_executable(vm_id, gpa, false).is_err() {
                    return Err("Stage-2 execute hook not registered");
                }
                proof {
                    assert(self.probes@ == old(self).probes@);
                }
                let ghost p0 = self.probes@;
                let e = &mut self.probes[idx].1;
                e.resolved_gpa = Some(gpa);
                e.state = GuestKprobeState::Enabled;
                proof {
                    lemma_probe_field_update(p0, self.probes@, idx as int, vm_id, gva);
                }
                Ok(())
            },
            KprobeMode::BrkInject => {
                if translator.direct.is_none() && translator.vm_ttbr1_el1(vm_id).is_err() {
                    return Err("VM translation table register is not ready");
                }
                self.clear_stale_brk(vm_id, gva);
                let hva = match translator.gva_to_hva_for_vm(gva, vm_id) {
                    Ok(v) => v,
                    Err(_) => {
                        return Err("failed to translate to a host virtual address");
                    },
                };
                let saved = match mem.read_word(hva) {
                    Some(w) => w,
                    None => {
                        proof {
                            if translator.direct is Some {
                                let d = translator.direct->Some_0;
                                if exists|i: int|
                                    0 <= i < d@.len() && #[trigger] d@[i] == (gva, vm_id, hva) {
                                    let i = choose|i: int|
                                        0 <= i < d@.len() && #[trigger] d@[i] == (
                                        gva,
                                        vm_id,
                                        hva,
                                        );
                                    assert(d@[i].0 == gva && d@[i].1 == vm_id);
                                }
                            }
                        }
                        return Err("guest instruction word is not mapped");
                    },
                };
                mem.write_word(hva, GUEST_BRK_INSN);
                let ghost p0 = self.probes@;
                let e = &mut self.probes[idx].1;
                e.saved_insn = Some(saved);
                e.resolved_hva = Some(hva);
                e.state = GuestKprobeState::Enabled;
                proof {
                    lemma_probe_field_update(p0, self.probes@, idx as int, vm_id, gva);
                }
                Ok(())
            },
        }
    }

    /// Disable a guest probe: restore the execute permission or the saved
    /// instruction word, and retain a breakpoint probe's remains in the
    /// stale registry. Disabling an absent or not-enabled probe changes
    /// nothing.
    pub fn disable(&mut self, stage2: &mut Stage2, mem: &mut GuestMemory, vm_id: u32,
        gva: u64) -> (r: Result<(), &'static str>)
        requires
            old(self).wf(),
            old(mem).wf(),
        ensures
            final(self).wf(),
            final(mem).wf(),
            !old(self).has_probe(vm_id, gva) ==> {
                &&& r is Ok
                &&& final(self).probes@ == old(self).probes@
                &&& final(self).stale@ == old(self).stale@
                &&& final(mem).view_of() == old(mem).view_of()
            },
            old(self).has_probe(vm_id, gva) && !(old(self).probes@[old(self).probe_at(
                vm_id,
                gva,
            )].1.state is Enabled) ==> {
                &&& r is Ok
                &&& final(self).probes@ == old(self).probes@
                &&& final(self).stale@ == old(self).stale@
                &&& final(mem).view_of() == old(mem).view_of()
            },
            r is Err <==> (old(self).has_probe(vm_id, gva) && old(self).probes@[old(
                self,
            ).probe_at(vm_id, gva)].1.state is Enabled && old(self).probes@[old(self).probe_at(
                vm_id,
                gva,
            )].1.mode is Stage2Fault && old(self).probes@[old(self).probe_at(
                vm_id,
                gva,
            )].1.resolved_gpa is Some && !old(stage2).present),
            r is Err ==> final(self).probes@ == old(self).probes@ && final(self).stale@ == old(
                self,
            ).stale@ && final(mem).view_of() == old(mem).view_of(),
            old(self).has_probe(vm_id, gva) && old(self).probes@[old(self).probe_at(
                vm_id,
                gva,
            )].1.state is Enabled && r is Ok ==> {
                let i = old(self).probe_at(vm_id, gva);
                let e0 = old(self).probes@[i].1;
                let e = final(self).probes@[i].1;
                &&& final(self).probes@.len() == old(self).probes@.len()
                &&& e.state is Disabled
                &&& (e0.mode is Stage2Fault ==> e == (GuestKprobeEntry {
                    resolved_gpa: None,
                    state: GuestKprobeState::Disabled,
                    ..e0
                }))
                &&& (e0.mode is BrkInject ==> e == (GuestKprobeEntry {
                    saved_insn: None,
                    resolved_hva: None,
                    state: GuestKprobeState::Disabled,
                    ..e0
                }))
                &&& (forall|j: int|
                    0 <= j < final(self).probes@.len() && j != i ==> final(self).probes@[j]
                        == old(self).probes@[j])
                &&& (e0.mode is BrkInject && e0.resolved_hva is Some && e0.saved_insn is Some
                    ==> {
                    &&& final(mem).view_of() == old(mem).view_of().insert(
                        e0.resolved_hva->Some_0 as int,
                        e0.saved_insn->Some_0,
                    )
                    &&& final(self).has_stale(vm_id, gva)
                    &&& final(self).stale@[final(self).stale_at(vm_id, gva)].1
                        == (StaleBrkEntry {
                        hva: e0.resolved_hva->Some_0,
                        saved_insn: e0.saved_insn->Some_0,
                        retries_left: STALE_BRK_RETRY_BUDGET,
                    })
                })
                &&& (e0.mode is Stage2Fault ==> final(mem).view_of() == old(mem).view_of())
            },
    {
        let idx = match self.find_probe(vm_id, gva) {
            Some(i) => i,
            None => {
                return Ok(());
            },
        };
        if !matches!(self.probes[idx].1.state, GuestKprobeState::Enabled) {
            return Ok(());
        }
        let mode = self.probes[idx].1.mode;
        match mode {
            KprobeMode::Stage2Fault => {
                let gpa_opt = self.probes[idx].1.resolved_gpa;
                match gpa_opt {
                    Some(gpa) => {
                        if stage2.set_stage2_executable(vm_id, gpa, true).is_err() {
                            return Err("failed to restore Stage-2 execute permission");
                        }
                    },
                    None => {},
                }
                let ghost p0 = self.probes@;
                let e = &mut self.probes[idx].1;
                e.resolved_gpa = None;
                e.state = GuestKprobeState::Disabled;
                proof {
                    lemma_probe_field_update(p0, self.probes@, idx as int, vm_id, gva);
                }
                Ok(())
            },
            KprobeMode::BrkInject => {
                let hva_opt = self.probes[idx].1.resolved_hva;
                let saved_opt = self.probes[idx].1.saved_insn;
                match (hva_opt, saved_opt) {
                    (Some(hva), Some(saved)) => {
                        self.clear_stale_brk(vm_id, gva);
                        self.remember_stale_brk(vm_id, gva, hva, saved);
                        mem.write_word(hva, saved);
                    },
                    _ => {},
                }
                let ghost p0 = self.probes@;
                let e = &mut self.probes[idx].1;
                e.saved_insn = None;
                e.resolved_hva = None;
                e.state = GuestKprobeState::Disabled;
                proof {
                    lemma_probe_field_update(p0, self.probes@, idx as int, vm_id, gva);
                }
                Ok(())
            },
        }
    }

    /// Unregister a guest probe, disabling it first; absent keys are
    /// ignored.
    pub fn unregister(&mut self, stage2: &mut Stage2, mem: &mut GuestMemory, vm_id: u32,
        gva: u64) -> (r: Result<(), &'static str>)
        requires
            old(self).wf(),
            old(mem).wf(),
        ensures
            final(self).wf(),
            final(mem).wf(),
            r is Ok ==> !final(self).has_probe(vm_id, gva),
            r is Err <==> (old(self).has_probe(vm_id, gva) && old(self).probes@[old(
                self,
            ).probe_at(vm_id, gva)].1.state is Enabled && old(self).probes@[old(self).probe_at(
                vm_id,
                gva,
            )].1.mode is Stage2Fault && old(self).probes@[old(self).probe_at(
                vm_id,
                gva,
            )].1.resolved_gpa is Some && !old(stage2).present),
    {
        match self.disable(stage2, mem, vm_id, gva) {
            Ok(()) => {},
            Err(e) => {
                return Err(e);
            },
        }
        match self.find_probe(vm_id, gva) {
            Some(i) => {
                let _ = self.probes.remove(i);
                proof {
                    let p0 = self.probes@;
                    assert(pk_unique(self.probes@));
                    assert(!pk_contains(self.probes@, (vm_id, gva)));
                }
                Ok(())
            },
            None => Ok(()),
        }
    }

    /// Register and enable in one step; a failed enable rolls the
    /// registration back.
    pub fn attach(&mut self, translator: &Translator, stage2: &mut Stage2,
        mem: &mut GuestMemory, vm_id: u32, gva: u64, prog_id: u32, is_ret: bool,
        mode: KprobeMode) -> (r: Result<(), &'static str>)
        requires
            old(self).wf(),
            translator.wf(),
            old(mem).wf(),
        ensures
            final(self).wf(),
            final(mem).wf(),
            old(self).has_probe(vm_id, gva) ==> r is Err && final(self).probes@ == old(
                self,
            ).probes@ && final(self).stale@ == old(self).stale@ && final(mem).view_of() == old(
                mem,
            ).view_of(),
            r is Err && !old(self).has_probe(vm_id, gva) ==> !final(self).has_probe(
                vm_id,
                gva,
            ),
            !old(self).has_probe(vm_id, gva) && old(self).mock_fail_enable == Some(
                (vm_id, gva),
            ) ==> r is Err,
            !old(self).has_probe(vm_id, gva) && (mode is Stage2Fault) && !(old(
                self,
            ).mock_fail_enable == Some((vm_id, gva))) && old(stage2).present
                && translator.pt is Some && (translator.ttbr matches Some(t) && (exists|i: int|
                0 <= i < t@.len() && (#[trigger] t@[i]).0 == vm_id) && (forall|i: int|
                0 <= i < t@.len() && (#[trigger] t@[i]).0 == vm_id ==> spec_walk(
                    pte_map(translator.pt->Some_0@),
                    gva,
                    t@[i].1,
                ) is Ok)) ==> r is Ok,
            !old(self).has_probe(vm_id, gva) && (mode is BrkInject) && !(old(
                self,
            ).mock_fail_enable == Some((vm_id, gva))) && (translator.direct matches Some(d) && (
            exists|i: int|
                0 <= i < d@.len() && (#[trigger] d@[i]).0 == gva && d@[i].1 == vm_id) && (
            forall|i: int|
                0 <= i < d@.len() && (#[trigger] d@[i]).0 == gva && d@[i].1 == vm_id ==> old(
                    mem,
                ).view_of().dom().contains(d@[i].2 as int))) ==> r is Ok,
            r is Ok ==> {
                &&& final(self).has_probe(vm_id, gva)
                &&& final(self).probes@[final(self).probe_at(vm_id, gva)].1.state is Enabled
            },
    {
        match self.register(vm_id, gva, prog_id, is_ret, mode) {
            Ok(()) => {},
            Err(e) => {
                return Err(e);
            },
        }
        match self.enable(translator, stage2, mem, vm_id, gva) {
            Ok(()) => {
                proof {
                    assert(final(self).probes@[final(self).probe_at(vm_id, gva)].1.state
                        is Enabled);
                }
                Ok(())
            },
            Err(e) => {
                proof {
                    let p = self.probes@;
                    let k = pk_index_of(p, (vm_id, gva));
                    assert(0 <= k < p.len() && p[k].0 == (vm_id, gva));
                    if k != p.len() - 1 {
                        assert(false);
                    }
                    assert(p[k].1.state is Registered);
                }
                let _ = self.unregister(stage2, mem, vm_id, gva);
                Err(e)
            },
        }
    }

    /// Detach: unregister the probe.
    pub fn detach(&mut self, stage2: &mut Stage2, mem: &mut GuestMemory, vm_id: u32,
        gva: u64) -> (r: Result<(), &'static str>)
        requires
            old(self).wf(),
            old(mem).wf(),
        ensures
            final(self).wf(),
            final(mem).wf(),
            r is Ok ==> !final(self).has_probe(vm_id, gva),
            r is Err <==> (old(self).has_probe(vm_id, gva) && old(self).probes@[old(
                self,
            ).probe_at(vm_id, gva)].1.state is Enabled && old(self).probes@[old(self).probe_at(
                vm_id,
                gva,
            )].1.mode is Stage2Fault && old(self).probes@[old(self).probe_at(
                vm_id,
                gva,
            )].1.resolved_gpa is Some && !old(stage2).present),
    {
        self.unregister(stage2, mem, vm_id, gva)
    }

    /// The enabled probe a trigger at a key dispatches to: the VM-specific
    /// entry is preferred over the wildcard entry with VM id zero, and a
    /// disabled VM-specific entry shadows the wildcard.
    pub open spec fn spec_enabled_probe(&self, vm_id: u32, gva: u64) -> Option<(u32, bool)> {
        if self.has_probe(vm_id, gva) {
            let e = self.probes@[self.probe_at(vm_id, gva)].1;
            if e.state is Enabled {
                Some((e.prog_id, e.is_ret))
            } else {
                None
            }
        } else if self.has_probe(0, gva) {
            let e = self.probes@[self.probe_at(0, gva)].1;
            if e.state is Enabled {
                Some((e.prog_id, e.is_ret))
            } else {
                None
            }
        } else {
            None
        }
    }

    /// The index a hit at a key is recorded at: the VM-specific entry,
    /// else the wildcard entry.
    pub open spec fn spec_hit_index(&self, vm_id: u32, gva: u64) -> int {
        if self.has_probe(vm_id, gva) {
            self.probe_at(vm_id, gva)
        } else {
            self.probe_at(0, gva)
        }
    }

    /// Look a probe up by key, preferring the VM-specific entry over the
    /// wildcard entry with VM id zero.
    pub fn lookup_enabled(&self, vm_id: u32, gva: u64) -> (r: Option<(u32, bool)>)
        requires
            self.wf(),
        ensures
            r == self.spec_enabled_probe(vm_id, gva),
    {
        match self.find_probe(vm_id, gva) {
            Some(i) => {
                if matches!(self.probes[i].1.state, GuestKprobeState::Enabled) {
                    proof {
                        assert(self.probes@[i as int].0 == (vm_id, gva));
                    }
                    return Some((self.probes[i].1.prog_id, self.probes[i].1.is_ret));
                }
                None
            },
            None => {
                match self.find_probe(0, gva) {
                    Some(i) => {
                        if matches!(self.probes[i].1.state, GuestKprobeState::Enabled) {
                            proof {
                                assert(self.probes@[i as int].0 == (0u32, gva));
                            }
                            return Some((self.probes[i].1.prog_id, self.probes[i].1.is_ret));
                        }
                        None
                    },
                    None => None,
                }
            },
        }
    }

    /// Record one hit for the probe at a key, preferring the VM-specific
    /// entry; absent keys are ignored.
    pub fn record_probe_hit(&mut self, vm_id: u32, gva: u64) -> (r: bool)
        requires
            old(self).wf(),
        ensures
            final(self).wf(),
            r == (old(self).has_probe(vm_id, gva) || old(self).has_probe(0, gva)),
            final(self).probes@.len() == old(self).probes@.len(),
            final(self).stale@ == old(self).stale@,
            !r ==> final(self).probes@ == old(self).probes@,
            r ==> {
                let i = old(self).spec_hit_index(vm_id, gva);
                let e0 = old(self).probes@[i].1;
                &&& (forall|j: int|
                    0 <= j < final(self).probes@.len() && j != i ==> final(self).probes@[j]
                        == old(self).probes@[j])
                &&& final(self).probes@[i].0 == old(self).probes@[i].0
                &&& final(self).probes@[i].1 == (GuestKprobeEntry {
                    hits: if e0.hits < u64::MAX {
                        (e0.hits + 1) as u64
                    } else {
                        e0.hits
                    },
                    ..e0
                })
            },
    {
        let idx = match self.find_probe(vm_id, gva) {
            Some(i) => i,
            None => {
                match self.find_probe(0, gva) {
                    Some(i) => i,
                    None => {
                        return false;
                    },
                }
            },
        };
        let ghost p0 = self.probes@;
        let ghost key = p0[idx as int].0;
        let e = &mut self.probes[idx].1;
        if e.hits < u64::MAX {
            e.hits = e.hits + 1;
        }
        proof {
            lemma_probe_field_update(p0, self.probes@, idx as int, key.0, key.1);
        }
        true
    }

    /// A copy of one probe entry, field for field.
    fn copy_entry(e: &GuestKprobeEntry) -> (r: GuestKprobeEntry)
        ensures
            r.vm_id == e.vm_id,
            r.gva == e.gva,
            r.symbol is Some <==> e.symbol is Some,
            r.symbol is Some ==> r.symbol->Some_0@ == e.symbol->Some_0@,
            r.mode == e.mode,
            r.prog_id == e.prog_id,
            r.hits == e.hits,
            r.is_ret == e.is_ret,
            r.state == e.state,
            r.saved_insn == e.saved_insn,
            r.resolved_gpa == e.resolved_gpa,
            r.resolved_hva == e.resolved_hva,
    {
        let symbol: Option<String> = match &e.symbol {
            Some(s) => Some(s.clone()),
            None => None,
        };
        GuestKprobeEntry {
            vm_id: e.vm_id,
            gva: e.gva,
            symbol,
            mode: e.mode,
            prog_id: e.prog_id,
            hits: e.hits,
            is_ret: e.is_ret,
            state: e.state,
            saved_insn: e.saved_insn,
            resolved_gpa: e.resolved_gpa,
            resolved_hva: e.resolved_hva,
        }
    }

    /// A snapshot of the probe a trap at an address resolves to: the
    /// VM-specific entry first, else the wildcard entry for any VM.
    pub fn lookup(&self, vm_id: u32, gva: u64) -> (r: Option<GuestKprobeEntry>)
        requires
            self.wf(),
        ensures
            ({
                let tgt = if self.has_probe(vm_id, gva) {
                    Some(self.probes@[self.probe_at(vm_id, gva)].1)
                } else if self.has_probe(0, gva) {
                    Some(self.probes@[self.probe_at(0, gva)].1)
                } else {
                    None::<GuestKprobeEntry>
                };
                match (r, tgt) {
                    (Some(a), Some(b)) => {
                        &&& a.vm_id == b.vm_id
                        &&& a.gva == b.gva
                        &&& (a.symbol is Some <==> b.symbol is Some)
                        &&& (a.symbol is Some ==> a.symbol->Some_0@ == b.symbol->Some_0@)
                        &&& a.mode == b.mode
                        &&& a.prog_id == b.prog_id
                        &&& a.hits == b.hits
                        &&& a.is_ret == b.is_ret
                        &&& a.state == b.state
                        &&& a.saved_insn == b.saved_insn
                        &&& a.resolved_gpa == b.resolved_gpa
                        &&& a.resolved_hva == b.resolved_hva
                    },
                    (None, None) => true,
                    _ => false,
                }
            }),
    {
        match self.find_probe(vm_id, gva) {
            Some(i) => Some(Self::copy_entry(&self.probes[i].1)),
            None => match self.find_probe(0, gva) {
                Some(i) => Some(Self::copy_entry(&self.probes[i].1)),
                None => None,
            },
        }
    }

    /// Record one hit on the probe a trap resolves to, preferring the
    /// VM-specific entry over the wildcard; an unknown address is
    /// ignored. The counter saturates at its maximum.
    pub fn record_hit(&mut self, vm_id: u32, gva: u64)
        requires
            old(self).wf(),
        ensures
            final(self).wf(),
            final(self).probes@.len() == old(self).probes@.len(),
            final(self).stale@ == old(self).stale@,
            !(old(self).has_probe(vm_id, gva) || old(self).has_probe(0, gva)) ==> final(self)
                .probes@ == old(self).probes@,
            old(self).has_probe(vm_id, gva) || old(self).has_probe(0, gva) ==> {
                let i = old(self).spec_hit_index(vm_id, gva);
                let e0 = old(self).probes@[i].1;
                &&& (forall|j: int|
                    0 <= j < final(self).probes@.len() && j != i ==> final(self).probes@[j]
                        == old(self).probes@[j])
                &&& final(self).probes@[i].1 == (GuestKprobeEntry {
                    hits: if e0.hits < u64::MAX {
                        (e0.hits + 1) as u64
                    } else {
                        e0.hits
                    },
                    ..e0
                })
            },
    {
        let _ = self.record_probe_hit(vm_id, gva);
    }

    /// A snapshot of every probe entry, in registration order.
    pub fn list(&self) -> (r: Vec<GuestKprobeEntry>)
        requires
            self.wf(),
        ensures
            r@.len() == self.probes@.len(),
            forall|i: int|
                0 <= i < r@.len() ==> (#[trigger] r@[i]).vm_id == self.probes@[i].1.vm_id
                    && r@[i].gva == self.probes@[i].1.gva && r@[i].hits
                    == self.probes@[i].1.hits && r@[i].state == self.probes@[i].1.state
                    && r@[i].prog_id == self.probes@[i].1.prog_id && r@[i].is_ret
                    == self.probes@[i].1.is_ret,
    {
        let mut out: Vec<GuestKprobeEntry> = Vec::new();
        let mut i: usize = 0;
        while i < self.probes.len()
            invariant
                i <= self.probes@.len(),
                out@.len() == i,
                forall|j: int|
                    0 <= j < i ==> (#[trigger] out@[j]).vm_id == self.probes@[j].1.vm_id
                        && out@[j].gva == self.probes@[j].1.gva && out@[j].hits
                        == self.probes@[j].1.hits && out@[j].state == self.probes@[j].1.state
                        && out@[j].prog_id == self.probes@[j].1.prog_id && out@[j].is_ret
                        == self.probes@[j].1.is_ret,
            decreases self.probes@.len() - i,
        {
            out.push(Self::copy_entry(&self.probes[i].1));
            i = i + 1;
        }
        out
    }

    /// Every probe, flattened for display.
    pub fn list_all(&self) -> (r: Vec<(u32, u64, Option<String>, u64, bool, bool, u32,
        KprobeMode)>)
        ensures
            r@.len() == self.probes@.len(),
            forall|i: int|
                0 <= i < r@.len() ==> (#[trigger] r@[i]).0 == self.probes@[i].1.vm_id
                    && r@[i].1 == self.probes@[i].1.gva && r@[i].4 == (self.probes@[i].1.state
                    is Enabled),
    {
        let mut out: Vec<(u32, u64, Option<String>, u64, bool, bool, u32, KprobeMode)> =
            Vec::new();
        let mut i: usize = 0;
        while i < self.probes.len()
            invariant
                i <= self.probes@.len(),
                out@.len() == i,
                forall|j: int|
                    0 <= j < i ==> (#[trigger] out@[j]).0 == self.probes@[j].1.vm_id && out@[j].1
                        == self.probes@[j].1.gva && out@[j].4 == (self.probes@[j].1.state
                        is Enabled),
            decreases self.probes@.len() - i,
        {
            let e = &self.probes[i].1;
            let sym: Option<String> = match &e.symbol {
                Some(s) => Some(s.clone()),
                None => None,
            };
            out.push(
                (
                    e.vm_id,
                    e.gva,
                    sym,
                    e.hits,
                    matches!(e.state, GuestKprobeState::Enabled),
                    e.is_ret,
                    e.prog_id,
                    e.mode,
                ),
            );
            i = i + 1;
        }
        out
    }

    /// Absorb a stale breakpoint trap: a trap at a detached key within the
    /// retry budget restores the saved word once more, consumes one retry
    /// credit, and asks the caller to retry the guest instruction. A trap
    /// with no retained record is reported unhandled.
    pub fn consume_stale_brk(&mut self, mem: &mut GuestMemory, vm_id: u32, gva: u64) -> (r:
        bool)
        requires
            old(self).wf(),
            old(mem).wf(),
        ensures
            final(self).wf(),
            final(mem).wf(),
            r == old(self).has_stale(vm_id, gva),
            !old(self).has_stale(vm_id, gva) ==> {
                &&& final(self).stale@ == old(self).stale@
                &&& final(mem).view_of() == old(mem).view_of()
            },
            old(self).has_stale(vm_id, gva) ==> {
                let i = old(self).stale_at(vm_id, gva);
                let s = old(self).stale@[i].1;
                &&& final(mem).view_of() == old(mem).view_of().insert(
                    s.hva as int,
                    s.saved_insn,
                )
                &&& (s.retries_left <= 1 ==> {
                    &&& !final(self).has_stale(vm_id, gva)
                    &&& final(self).stale@ == old(self).stale@.remove(i)
                })
                &&& (s.retries_left > 1 ==> {
                    &&& final(self).has_stale(vm_id, gva)
                    &&& final(self).stale@[final(self).stale_at(vm_id, gva)].1
                        == (StaleBrkEntry {
                        retries_left: (s.retries_left - 1) as u32,
                        ..s
                    })
                })
            },
            final(self).probes@ == old(self).probes@,
    {
        let idx = match self.find_stale(vm_id, gva) {
            Some(i) => i,
            None => {
                return false;
            },
        };
        let hva = self.stale[idx].1.hva;
        let saved = self.stale[idx].1.saved_insn;
        let retries = self.stale[idx].1.retries_left;
        if retries <= 1 {
            let _ = self.stale.remove(idx);
            proof {
                let s1 = self.stale@;
                assert(pk_unique(s1));
                assert(!pk_contains(s1, (vm_id, gva)));
            }
        } else {
            let ghost s0 = self.stale@;
            let e = &mut self.stale[idx].1;
            e.retries_left = retries - 1;
            proof {
                let s1 = self.stale@;
                assert(forall|j: int|
                    0 <= j < s1.len() ==> (#[trigger] s1[j]).0 == s0[j].0);
                assert(pk_unique(s1));
                assert(s1[idx as int].0 == (vm_id, gva));
                let k = pk_index_of(s1, (vm_id, gva));
                assert(0 <= k < s1.len() && s1[k].0 == (vm_id, gva));
                if k != idx as int {
                    assert(false);
                }
            }
        }
        mem.write_word(hva, saved);
        true
    }

    /// Drop every stale record.
    pub fn clear_stale_brk_for_test(&mut self)
        requires
            old(self).wf(),
        ensures
            final(self).wf(),
            final(self).stale@.len() == 0,
            final(self).probes@ == old(self).probes@,
    {
        self.stale.clear();
    }

    /// Fail the next enable of the given key, for tests.
    pub fn install_mock_backend_fail_on_enable(&mut self, vm_id: u32, gva: u64)
        ensures
            final(self).mock_fail_enable == Some((vm_id, gva)),
            final(self).probes@ == old(self).probes@,
            final(self).stale@ == old(self).stale@,
    {
        self.mock_fail_enable = Some((vm_id, gva));
    }
}

/// Updating one probe's entry under its own key keeps the registry well
/// formed.
proof fn lemma_probe_field_update(p0: Seq<((u32, u64), GuestKprobeEntry)>, p1: Seq<
    ((u32, u64), GuestKprobeEntry),
>, i: int, vm_id: u32, gva: u64)
    requires
        pk_unique(p0),
        forall|j: int| 0 <= j < p0.len() ==> (#[trigger] p0[j]).0 == (p0[j].1.vm_id, p0[j].1.gva),
        0 <= i < p1.len(),
        p1.len() == p0.len(),
        forall|j: int| 0 <= j < p1.len() && j != i ==> p1[j] == p0[j],
        p1[i].0 == p0[i].0,
        p1[i].1.vm_id == p0[i].1.vm_id,
        p1[i].1.gva == p0[i].1.gva,
        p0[i].0 == (vm_id, gva),
    ensures
        pk_unique(p1),
        forall|j: int| 0 <= j < p1.len() ==> (#[trigger] p1[j]).0 == (p1[j].1.vm_id, p1[j].1.gva),
        pk_index_of(p1, (vm_id, gva)) == i || !pk_contains(p0, (vm_id, gva)),
{
    assert forall|x: int, y: int| 0 <= x < y < p1.len() implies p1[x].0 != p1[y].0 by {
        assert(p1[x].0 == p0[x].0 && p1[y].0 == p0[y].0);
    }
    assert(p1[i].0 == (vm_id, gva));
    assert(pk_contains(p1, (vm_id, gva)));
    let k = pk_index_of(p1, (vm_id, gva));
    assert(0 <= k < p1.len() && p1[k].0 == (vm_id, gva));
    if k != i {
        assert(p1[k].0 == p0[k].0);
        assert(false);
    }
}

} // verus!
