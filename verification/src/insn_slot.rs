//! Instruction slot allocator: a fixed pool of 64 executable slots of 32
//! bytes each, carved out of host text and tracked by a 64-bit bitmap.

use vstd::prelude::*;

verus! {

/// Size of each instruction slot in bytes.
pub const SLOT_SIZE: usize = 32;

/// Number of slots in the pool.
pub const NUM_SLOTS: usize = 64;

/// The slot pool: its base address in host text and the allocation bitmap,
/// bit `i` set when slot `i` is in use.
pub struct SlotPool {
    /// Base address of the slot region.
    pub base: usize,
    /// Allocation bitmap.
    pub bitmap: u64,
}

/// Whether bit `i` of a bitmap is set.
pub open spec fn bit_set(bitmap: u64, i: int) -> bool {
    bitmap & (1u64 << (i as u64)) != 0
}

/// The number of clear bits among the first `n` bits of a bitmap.
pub open spec fn spec_free_count(bitmap: u64, n: int) -> int
    decreases n,
{
    if n <= 0 {
        0
    } else {
        spec_free_count(bitmap, n - 1) + if bit_set(bitmap, n - 1) {
            0int
        } else {
            1int
        }
    }
}

impl SlotPool {
    /// The pool's addresses stay within the address space.
    pub open spec fn wf(&self) -> bool {
        self.base + NUM_SLOTS * SLOT_SIZE <= usize::MAX
    }

    /// A fresh pool over a slot region: every slot free.
    pub fn new(base: usize) -> (r: SlotPool)
        requires
            base + 2048 <= usize::MAX,
        ensures
            r.wf(),
            r.base == base,
            r.bitmap == 0,
    {
        SlotPool { base, bitmap: 0 }
    }

    /// Base address of the slot region.
    pub fn slots_base(&self) -> (r: usize)
        ensures
            r == self.base,
    {
        self.base
    }

    /// End address of the slot region.
    pub fn slots_end(&self) -> (r: usize)
        requires
            self.wf(),
        ensures
            r == self.base + 2048,
    {
        self.base + NUM_SLOTS * SLOT_SIZE
    }

    /// Whether an address lies within the slot region.
    pub fn is_slot_address(&self, addr: usize) -> (r: bool)
        requires
            self.wf(),
        ensures
            r == (self.base <= addr < self.base + 2048),
    {
        addr >= self.base && addr < self.base + NUM_SLOTS * SLOT_SIZE
    }

    /// Allocate the first free slot and return its address, or `None` when
    /// every slot is in use.
    pub fn alloc_slot(&mut self) -> (r: Option<usize>)
        requires
            old(self).wf(),
        ensures
            final(self).wf(),
            final(self).base == old(self).base,
            match r {
                Some(addr) => {
                    let i = (addr - old(self).base) / SLOT_SIZE as int;
                    &&& old(self).base <= addr < old(self).base + 2048
                    &&& (addr - old(self).base) % SLOT_SIZE as int == 0
                    &&& !bit_set(old(self).bitmap, i)
                    &&& final(self).bitmap == old(self).bitmap | (1u64 << (i as u64))
                    &&& forall|j: int| 0 <= j < i ==> bit_set(old(self).bitmap, j)
                },
                None => final(self).bitmap == old(self).bitmap && (forall|j: int|
                    0 <= j < 64 ==> bit_set(old(self).bitmap, j)),
            },
    {
        let mut i: usize = 0;
        while i < 64
            invariant
                i <= 64,
                self.bitmap == old(self).bitmap,
                self.base == old(self).base,
                self.wf(),
                forall|j: int| 0 <= j < i ==> bit_set(old(self).bitmap, j),
            decreases 64 - i,
        {
            if (self.bitmap & (1u64 << (i as u64))) == 0 {
                self.bitmap = self.bitmap | (1u64 << (i as u64));
                proof {
                    assert((i as usize * SLOT_SIZE as usize) as int % SLOT_SIZE as int == 0
                        && (i as usize * SLOT_SIZE as usize) as int / SLOT_SIZE as int
                        == i as int && i * 32 < 2048) by (nonlinear_arith)
                        requires
                            0 <= i < 64,
                    ;
                }
                return Some(self.base + i * SLOT_SIZE);
            }
            i = i + 1;
        }
        None
    }

    /// Free a previously allocated slot; an address outside the pool is
    /// ignored.
    pub fn free_slot(&mut self, addr: usize)
        requires
            old(self).wf(),
        ensures
            final(self).wf(),
            final(self).base == old(self).base,
            !(old(self).base <= addr < old(self).base + 2048) ==> final(self).bitmap == old(
                self,
            ).bitmap,
            old(self).base <= addr < old(self).base + 2048 ==> final(self).bitmap == old(
                self,
            ).bitmap & !(1u64 << (((addr - old(self).base) / SLOT_SIZE as int) as u64)),
    {
        if addr < self.base || addr >= self.base + NUM_SLOTS * SLOT_SIZE {
            return ;
        }
        let idx = (addr - self.base) / SLOT_SIZE;
        proof {
            assert(idx < 64) by (nonlinear_arith)
                requires
                    idx == (addr - self.base) / 32,
                    addr - self.base < 2048,
                    addr >= self.base,
            ;
        }
        self.bitmap = self.bitmap & !(1u64 << (idx as u64));
    }

    /// Number of free slots: exactly the clear bits of the bitmap.
    pub fn free_count(&self) -> (r: usize)
        ensures
            r == spec_free_count(self.bitmap, 64),
            r <= 64,
            self.bitmap == 0 ==> r == 64,
    {
        let mut n: usize = 0;
        let mut i: usize = 0;
        while i < 64
            invariant
                i <= 64,
                n <= i,
                n == spec_free_count(self.bitmap, i as int),
                self.bitmap == 0 ==> n == i,
            decreases 64 - i,
        {
            if (self.bitmap & (1u64 << (i as u64))) == 0 {
                n = n + 1;
            } else {
                proof {
                    let bm = self.bitmap;
                    let ii = i as u64;
                    assert(bm != 0) by (bit_vector)
                        requires
                            bm & (1u64 << ii) != 0,
                    ;
                }
            }
            i = i + 1;
        }
        n
    }
}

} // verus!
