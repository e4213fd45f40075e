//! Guest address translation: a four-level page-table walk from guest
//! virtual to guest physical addresses, the Stage-2 step to host physical
//! addresses, and the composite walk to host virtual addresses.
//!
//! Reading guest descriptor memory, mapping guest physical to host
//! physical addresses, fetching a VM's top-level table register and the
//! direct short-circuit translation are each backends the surrounding
//! system installs as data; an absent backend fails with `Unsupported`.

use vstd::prelude::*;

verus! {

/// Error surface of guest address translation.
#[derive(Debug, Clone, Copy, PartialEq, Eq, Structural)]
pub enum TranslateError {
    /// The needed backend is not installed.
    Unsupported,
    /// A descriptor on the walk is invalid or of an unsupported type.
    BadState,
    /// An address is not present in the installed backend.
    NotFound,
    /// An address is out of range.
    InvalidInput,
}

/// Whether a 64-bit-keyed table holds a key.
pub open spec fn u64_contains<T>(entries: Seq<(u64, T)>, a: u64) -> bool {
    exists|i: int| 0 <= i < entries.len() && entries[i].0 == a
}

/// The value a 64-bit-keyed table binds.
pub open spec fn u64_value_of<T>(entries: Seq<(u64, T)>, a: u64) -> T {
    entries[choose|i: int| 0 <= i < entries.len() && entries[i].0 == a].1
}

/// The descriptor memory as a partial map.
pub open spec fn pte_map(entries: Seq<(u64, u64)>) -> Map<u64, u64> {
    Map::new(|a: u64| u64_contains(entries, a), |a: u64| u64_value_of(entries, a))
}

/// One step of the walk: the descriptor at a table entry, if readable.
pub open spec fn spec_entry(pt: Map<u64, u64>, table_base: u64, index: u64) -> Option<u64> {
    if table_base + index * 8 > u64::MAX {
        None
    } else if pt.dom().contains((table_base + index * 8) as u64) {
        Some(pt[(table_base + index * 8) as u64])
    } else {
        None
    }
}

/// The nine-bit table index of a guest virtual address at a level shift.
pub open spec fn spec_table_index(gva: u64, shift: u64) -> u64 {
    (gva >> shift) & 0x1ff
}

/// The four-level walk from guest virtual to guest physical address:
/// 9 bits per level with a 12-bit page offset, table descriptors at the
/// upper levels, 1 GiB and 2 MiB blocks at levels one and two, and a
/// 4 KiB page at level three.
pub open spec fn spec_walk(pt: Map<u64, u64>, gva: u64, ttbr1: u64) -> Result<u64, TranslateError> {
    let l0_base = ttbr1 & 0x0000_ffff_ffff_f000;
    match spec_entry(pt, l0_base, spec_table_index(gva, 39)) {
        None => Err(TranslateError::NotFound),
        Some(l0) => {
            if l0 & 1 == 0 || l0 & 3 != 3 {
                Err(TranslateError::BadState)
            } else {
                let l1_base = l0 & 0x0000_ffff_ffff_f000;
                match spec_entry(pt, l1_base, spec_table_index(gva, 30)) {
                    None => Err(TranslateError::NotFound),
                    Some(l1) => {
                        if l1 & 1 == 0 {
                            Err(TranslateError::BadState)
                        } else if l1 & 3 == 1 {
                            Ok((l1 & !0x3fff_ffffu64) | (gva & 0x3fff_ffffu64))
                        } else if l1 & 3 != 3 {
                            Err(TranslateError::BadState)
                        } else {
                            let l2_base = l1 & 0x0000_ffff_ffff_f000;
                            match spec_entry(pt, l2_base, spec_table_index(gva, 21)) {
                                None => Err(TranslateError::NotFound),
                                Some(l2) => {
                                    if l2 & 1 == 0 {
                                        Err(TranslateError::BadState)
                                    } else if l2 & 3 == 1 {
                                        Ok((l2 & !0x1f_ffffu64) | (gva & 0x1f_ffffu64))
                                    } else if l2 & 3 != 3 {
                                        Err(TranslateError::BadState)
                                    } else {
                                        let l3_base = l2 & 0x0000_ffff_ffff_f000;
                                        match spec_entry(
                                            pt,
                                            l3_base,
                                            spec_table_index(gva, 12),
                                        ) {
                                            None => Err(TranslateError::NotFound),
                                            Some(l3) => {
                                                if l3 & 1 == 0 || l3 & 3 != 3 {
                                                    Err(TranslateError::BadState)
                                                } else {
                                                    Ok(
                                                        (l3 & 0x0000_ffff_ffff_f000) | (gva
                                                            & 0xfffu64),
                                                    )
                                                }
                                            },
                                        }
                                    }
                                },
                            }
                        }
                    },
                }
            }
        },
    }
}

/// The nine-bit table index of a guest virtual address at a level shift.
fn table_index(gva: u64, shift: u64) -> (r: u64)
    requires
        shift < 64,
    ensures
        r == spec_table_index(gva, shift),
        r <= 0x1ff,
{
    let r = (gva >> shift) & 0x1ff;
    proof {
        assert((gva >> shift) & 0x1ff <= 0x1ff) by (bit_vector);
    }
    r
}

/// The guest address translation backends, as installed data.
pub struct Translator {
    /// Guest descriptor memory: physical address to 64-bit descriptor.
    pub pt: Option<Vec<(u64, u64)>>,
    /// Stage-2 mappings: (guest physical address, VM id) to host physical.
    pub gpa_hpa: Option<Vec<(u64, u32, u64)>>,
    /// Per-VM top-level table register.
    pub ttbr: Option<Vec<(u32, u64)>>,
    /// Direct short-circuit translation: (guest virtual, VM id) to host
    /// virtual; preferred over the two-step walk when installed.
    pub direct: Option<Vec<(u64, u32, usize)>>,
    /// Linear offset from host physical to host virtual addresses.
    pub phys_virt_offset: u64,
}

impl Translator {
    /// Validity of the installed backends: descriptor addresses unique.
    pub open spec fn wf(&self) -> bool {
        self.pt matches Some(t) ==> forall|i: int, j: int|
            0 <= i < j < t@.len() ==> t@[i].0 != t@[j].0
    }

    /// A translator with no backends installed.
    pub fn new() -> (r: Translator)
        ensures
            r.pt is None,
            r.gpa_hpa is None,
            r.ttbr is None,
            r.direct is None,
            r.phys_virt_offset == 0,
    {
        Translator { pt: None, gpa_hpa: None, ttbr: None, direct: None, phys_virt_offset: 0 }
    }

    /// Install the guest descriptor memory backend; descriptor addresses
    /// must be pairwise distinct.
    pub fn register_guest_pt_read_hook(&mut self, table: Vec<(u64, u64)>)
        requires
            forall|i: int, j: int| 0 <= i < j < table@.len() ==> table@[i].0 != table@[j].0,
        ensures
            final(self).wf(),
            final(self).pt matches Some(t) && t@ == table@,
            final(self).gpa_hpa == old(self).gpa_hpa,
            final(self).ttbr == old(self).ttbr,
            final(self).direct == old(self).direct,
    {
        self.pt = Some(table);
    }

    /// Remove the guest descriptor memory backend.
    pub fn clear_guest_pt_read_hook_for_test(&mut self)
        ensures
            final(self).wf(),
            final(self).pt is None,
            final(self).gpa_hpa == old(self).gpa_hpa,
            final(self).ttbr == old(self).ttbr,
            final(self).direct == old(self).direct,
            final(self).phys_virt_offset == old(self).phys_virt_offset,
    {
        self.pt = None;
    }

    /// Install the Stage-2 mapping backend.
    pub fn register_gpa_to_hpa_hook(&mut self, table: Vec<(u64, u32, u64)>)
        requires
            old(self).wf(),
        ensures
            final(self).wf(),
            final(self).gpa_hpa matches Some(t) && t@ == table@,
            final(self).pt == old(self).pt,
            final(self).ttbr == old(self).ttbr,
            final(self).direct == old(self).direct,
            final(self).phys_virt_offset == old(self).phys_virt_offset,
    {
        self.gpa_hpa = Some(table);
    }

    /// Remove the Stage-2 mapping backend.
    pub fn clear_gpa_to_hpa_hook_for_test(&mut self)
        requires
            old(self).wf(),
        ensures
            final(self).wf(),
            final(self).gpa_hpa is None,
            final(self).pt == old(self).pt,
            final(self).ttbr == old(self).ttbr,
            final(self).direct == old(self).direct,
            final(self).phys_virt_offset == old(self).phys_virt_offset,
    {
        self.gpa_hpa = None;
    }

    /// Install the per-VM table register backend.
    pub fn register_vm_ttbr1_hook(&mut self, table: Vec<(u32, u64)>)
        requires
            old(self).wf(),
        ensures
            final(self).wf(),
            final(self).ttbr matches Some(t) && t@ == table@,
            final(self).pt == old(self).pt,
            final(self).gpa_hpa == old(self).gpa_hpa,
            final(self).direct == old(self).direct,
            final(self).phys_virt_offset == old(self).phys_virt_offset,
    {
        self.ttbr = Some(table);
    }

    /// Remove the per-VM table register backend.
    pub fn clear_vm_ttbr1_hook_for_test(&mut self)
        requires
            old(self).wf(),
        ensures
            final(self).wf(),
            final(self).ttbr is None,
            final(self).pt == old(self).pt,
            final(self).gpa_hpa == old(self).gpa_hpa,
            final(self).direct == old(self).direct,
            final(self).phys_virt_offset == old(self).phys_virt_offset,
    {
        self.ttbr = None;
    }

    /// Install the direct translation backend.
    pub fn register_gva_to_hva_hook(&mut self, table: Vec<(u64, u32, usize)>)
        requires
            old(self).wf(),
        ensures
            final(self).wf(),
            final(self).direct matches Some(t) && t@ == table@,
            final(self).pt == old(self).pt,
            final(self).gpa_hpa == old(self).gpa_hpa,
            final(self).ttbr == old(self).ttbr,
            final(self).phys_virt_offset == old(self).phys_virt_offset,
    {
        self.direct = Some(table);
    }

    /// Remove the direct translation backend.
    pub fn clear_gva_to_hva_hook_for_test(&mut self)
        requires
            old(self).wf(),
        ensures
            final(self).wf(),
            final(self).direct is None,
            final(self).pt == old(self).pt,
            final(self).gpa_hpa == old(self).gpa_hpa,
            final(self).ttbr == old(self).ttbr,
            final(self).phys_virt_offset == old(self).phys_virt_offset,
    {
        self.direct = None;
    }

    /// Read one guest descriptor word.
    fn read_pte(&self, paddr: u64) -> (r: Result<u64, TranslateError>)
        requires
            self.wf(),
        ensures
            self.pt is None ==> r == Err::<u64, TranslateError>(TranslateError::Unsupported),
            self.pt matches Some(t) ==> match r {
                Ok(v) => pte_map(t@).dom().contains(paddr) && v == pte_map(t@)[paddr],
                Err(e) => e == TranslateError::NotFound && !pte_map(t@).dom().contains(paddr),
            },
    {
        match &self.pt {
            None => Err(TranslateError::Unsupported),
            Some(t) => {
                let mut i: usize = 0;
                while i < t.len()
                    invariant
                        i <= t@.len(),
                        forall|j: int| 0 <= j < i ==> t@[j].0 != paddr,
                    decreases t@.len() - i,
                {
                    if t[i].0 == paddr {
                        proof {
                            assert(u64_contains(t@, paddr));
                            let k = choose|k: int| 0 <= k < t@.len() && t@[k].0 == paddr;
                            if k != i as int {
                                assert(false);
                            }
                        }
                        return Ok(t[i].1);
                    }
                    i = i + 1;
                }
                Err(TranslateError::NotFound)
            },
        }
    }

    /// Translate a guest virtual address by walking the guest's tables
    /// rooted at the given register value.
    pub fn gva_to_gpa(&self, gva: u64, ttbr1_el1: u64) -> (r: Result<u64, TranslateError>)
        requires
            self.wf(),
        ensures
            self.pt is None ==> r == Err::<u64, TranslateError>(TranslateError::Unsupported),
            self.pt matches Some(t) ==> r == spec_walk(pte_map(t@), gva, ttbr1_el1),
    {
        let l0_base = ttbr1_el1 & 0x0000_ffff_ffff_f000;
        let l0 = match self.read_entry(l0_base, table_index(gva, 39)) {
            Ok(v) => v,
            Err(e) => {
                return Err(e);
            },
        };
        if l0 & 1 == 0 || l0 & 3 != 3 {
            return Err(TranslateError::BadState);
        }
        let l1_base = l0 & 0x0000_ffff_ffff_f000;
        let l1 = match self.read_entry(l1_base, table_index(gva, 30)) {
            Ok(v) => v,
            Err(e) => {
                return Err(e);
            },
        };
        if l1 & 1 == 0 {
            return Err(TranslateError::BadState);
        }
        if l1 & 3 == 1 {
            return Ok((l1 & !0x3fff_ffffu64) | (gva & 0x3fff_ffffu64));
        }
        if l1 & 3 != 3 {
            return Err(TranslateError::BadState);
        }
        let l2_base = l1 & 0x0000_ffff_ffff_f000;
        let l2 = match self.read_entry(l2_base, table_index(gva, 21)) {
            Ok(v) => v,
            Err(e) => {
                return Err(e);
            },
        };
        if l2 & 1 == 0 {
            return Err(TranslateError::BadState);
        }
        if l2 & 3 == 1 {
            return Ok((l2 & !0x1f_ffffu64) | (gva & 0x1f_ffffu64));
        }
        if l2 & 3 != 3 {
            return Err(TranslateError::BadState);
        }
        let l3_base = l2 & 0x0000_ffff_ffff_f000;
        let l3 = match self.read_entry(l3_base, table_index(gva, 12)) {
            Ok(v) => v,
            Err(e) => {
                return Err(e);
            },
        };
        if l3 & 1 == 0 || l3 & 3 != 3 {
            return Err(TranslateError::BadState);
        }
        Ok((l3 & 0x0000_ffff_ffff_f000) | (gva & 0xfffu64))
    }

    /// Read the descriptor at a table entry, guarding the address compute.
    fn read_entry(&self, table_base: u64, index: u64) -> (r: Result<u64, TranslateError>)
        requires
            self.wf(),
            index <= 0x1ff,
        ensures
            self.pt is None ==> r == Err::<u64, TranslateError>(TranslateError::Unsupported),
            self.pt matches Some(t) ==> match spec_entry(pte_map(t@), table_base, index) {
                Some(v) => r == Ok::<u64, TranslateError>(v),
                None => r == Err::<u64, TranslateError>(TranslateError::NotFound),
            },
    {
        if table_base > u64::MAX - index * 8 {
            match &self.pt {
                None => {
                    return Err(TranslateError::Unsupported);
                },
                Some(_) => {
                    return Err(TranslateError::NotFound);
                },
            }
        }
        self.read_pte(table_base + index * 8)
    }

    /// Translate a guest virtual address for a VM, looking its table
    /// register up first.
    pub fn gva_to_gpa_with_vm(&self, gva: u64, vm_id: u32) -> (r: Result<u64, TranslateError>)
        requires
            self.wf(),
        ensures
            self.ttbr is None ==> r == Err::<u64, TranslateError>(TranslateError::Unsupported),
            self.ttbr matches Some(t) && (forall|i: int|
                0 <= i < t@.len() ==> (#[trigger] t@[i]).0 != vm_id) ==> r == Err::<
                u64,
                TranslateError,
            >(TranslateError::NotFound),
            r is Ok ==> self.pt is Some && (self.ttbr matches Some(t) && exists|i: int|
                0 <= i < t@.len() && (#[trigger] t@[i]).0 == vm_id && Ok::<u64, TranslateError>(
                    r->Ok_0,
                ) == spec_walk(pte_map(self.pt->Some_0@), gva, t@[i].1)),
            self.pt is Some && (self.ttbr matches Some(t) && (exists|i: int|
                0 <= i < t@.len() && (#[trigger] t@[i]).0 == vm_id) && (forall|i: int|
                0 <= i < t@.len() && (#[trigger] t@[i]).0 == vm_id ==> spec_walk(
                    pte_map(self.pt->Some_0@),
                    gva,
                    t@[i].1,
                ) is Ok)) ==> r is Ok,
    {
        let ttbr1 = match self.vm_ttbr1_el1(vm_id) {
            Ok(v) => v,
            Err(e) => {
                return Err(e);
            },
        };
        self.gva_to_gpa(gva, ttbr1)
    }

    /// The Stage-2 mapping of a guest physical address for a VM.
    pub fn gpa_to_hpa(&self, gpa: u64, vm_id: u32) -> (r: Result<u64, TranslateError>)
        ensures
            self.gpa_hpa is None ==> r == Err::<u64, TranslateError>(
                TranslateError::Unsupported,
            ),
            self.gpa_hpa matches Some(t) ==> match r {
                Ok(v) => exists|i: int|
                    0 <= i < t@.len() && t@[i] == (gpa, vm_id, v),
                Err(e) => e == TranslateError::NotFound && forall|i: int|
                    0 <= i < t@.len() ==> !((#[trigger] t@[i]).0 == gpa && t@[i].1 == vm_id),
            },
    {
        match &self.gpa_hpa {
            None => Err(TranslateError::Unsupported),
            Some(t) => {
                let mut i: usize = 0;
                while i < t.len()
                    invariant
                        i <= t@.len(),
                        forall|j: int|
                            0 <= j < i ==> !((#[trigger] t@[j]).0 == gpa && t@[j].1 == vm_id),
                    decreases t@.len() - i,
                {
                    if t[i].0 == gpa && t[i].1 == vm_id {
                        proof {
                            assert(t@[i as int] == (gpa, vm_id, t@[i as int].2));
                        }
                        return Ok(t[i].2);
                    }
                    i = i + 1;
                }
                Err(TranslateError::NotFound)
            },
        }
    }

    /// A VM's top-level table register.
    pub fn vm_ttbr1_el1(&self, vm_id: u32) -> (r: Result<u64, TranslateError>)
        ensures
            self.ttbr is None ==> r == Err::<u64, TranslateError>(TranslateError::Unsupported),
            self.ttbr matches Some(t) ==> match r {
                Ok(v) => exists|i: int| 0 <= i < t@.len() && t@[i] == (vm_id, v),
                Err(e) => e == TranslateError::NotFound && forall|i: int|
                    0 <= i < t@.len() ==> (#[trigger] t@[i]).0 != vm_id,
            },
    {
        match &self.ttbr {
            None => Err(TranslateError::Unsupported),
            Some(t) => {
                let mut i: usize = 0;
                while i < t.len()
                    invariant
                        i <= t@.len(),
                        forall|j: int| 0 <= j < i ==> (#[trigger] t@[j]).0 != vm_id,
                    decreases t@.len() - i,
                {
                    if t[i].0 == vm_id {
                        proof {
                            assert(t@[i as int] == (vm_id, t@[i as int].1));
                        }
                        return Ok(t[i].1);
                    }
                    i = i + 1;
                }
                Err(TranslateError::NotFound)
            },
        }
    }

    /// The full chain: guest virtual to guest physical to host physical,
    /// then through the linear mapping to a host virtual address.
    pub fn gva_to_hva(&self, gva: u64, ttbr1_el1: u64, vm_id: u32) -> (r: Result<
        usize,
        TranslateError,
    >)
        requires
            self.wf(),
        ensures
            self.pt is None ==> r == Err::<usize, TranslateError>(TranslateError::Unsupported),
            self.pt is Some && spec_walk(pte_map(self.pt->Some_0@), gva, ttbr1_el1) is Err
                ==> r == Err::<usize, TranslateError>(
                spec_walk(pte_map(self.pt->Some_0@), gva, ttbr1_el1)->Err_0,
            ),
            self.pt is Some && spec_walk(pte_map(self.pt->Some_0@), gva, ttbr1_el1) is Ok
                && self.gpa_hpa is None ==> r == Err::<usize, TranslateError>(
                TranslateError::Unsupported,
            ),
            r is Ok ==> self.pt is Some && (self.gpa_hpa matches Some(m) && exists|i: int|
                0 <= i < m@.len() && #[trigger] m@[i] == (
                    spec_walk(pte_map(self.pt->Some_0@), gva, ttbr1_el1)->Ok_0,
                    vm_id,
                    (r->Ok_0 - self.phys_virt_offset) as u64,
                )),
    {
        let gpa = match self.gva_to_gpa(gva, ttbr1_el1) {
            Ok(v) => v,
            Err(e) => {
                return Err(e);
            },
        };
        let hpa = match self.gpa_to_hpa(gpa, vm_id) {
            Ok(v) => v,
            Err(e) => {
                return Err(e);
            },
        };
        if hpa > u64::MAX - self.phys_virt_offset {
            return Err(TranslateError::InvalidInput);
        }
        let hva = hpa + self.phys_virt_offset;
        if hva > usize::MAX as u64 {
            return Err(TranslateError::InvalidInput);
        }
        Ok(hva as usize)
    }

    /// Translate a guest virtual address to a host virtual address for a
    /// VM, preferring the direct backend when one is installed.
    pub fn gva_to_hva_for_vm(&self, gva: u64, vm_id: u32) -> (r: Result<usize, TranslateError>)
        requires
            self.wf(),
        ensures
            self.direct matches Some(t) ==> match r {
                Ok(v) => exists|i: int|
                    0 <= i < t@.len() && t@[i] == (gva, vm_id, v),
                Err(e) => e == TranslateError::NotFound && forall|i: int|
                    0 <= i < t@.len() ==> !((#[trigger] t@[i]).0 == gva && t@[i].1 == vm_id),
            },
            self.direct is None && self.ttbr is None ==> r == Err::<usize, TranslateError>(
                TranslateError::Unsupported,
            ),
            self.direct is None && (self.ttbr matches Some(t) && (forall|i: int|
                0 <= i < t@.len() ==> (#[trigger] t@[i]).0 != vm_id)) ==> r == Err::<
                usize,
                TranslateError,
            >(TranslateError::NotFound),
            self.direct is None && r is Ok ==> self.pt is Some && (
            self.ttbr matches Some(t) && exists|i: int|
                0 <= i < t@.len() && (#[trigger] t@[i]).0 == vm_id && (
                self.gpa_hpa matches Some(m) && exists|j: int|
                    0 <= j < m@.len() && #[trigger] m@[j] == (
                        spec_walk(pte_map(self.pt->Some_0@), gva, t@[i].1)->Ok_0,
                        vm_id,
                        (r->Ok_0 - self.phys_virt_offset) as u64,
                    ))),
    {
        match &self.direct {
            Some(t) => {
                let mut i: usize = 0;
                while i < t.len()
                    invariant
                        i <= t@.len(),
                        forall|j: int|
                            0 <= j < i ==> !((#[trigger] t@[j]).0 == gva && t@[j].1 == vm_id),
                    decreases t@.len() - i,
                {
                    if t[i].0 == gva && t[i].1 == vm_id {
                        proof {
                            assert(t@[i as int] == (gva, vm_id, t@[i as int].2));
                        }
                        return Ok(t[i].2);
                    }
                    i = i + 1;
                }
                Err(TranslateError::NotFound)
            },
            None => {
                let ttbr1 = match self.vm_ttbr1_el1(vm_id) {
                    Ok(v) => v,
                    Err(e) => {
                        return Err(e);
                    },
                };
                self.gva_to_hva(gva, ttbr1, vm_id)
            },
        }
    }
}

} // verus!
