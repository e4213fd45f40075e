//! Host text permission primitive: a model of the hypervisor's own text
//! pages and bytes. `set_kernel_text_writable` flips the writable flag of
//! every covered page it can find, and `write_kernel_text` scopes a write
//! between a writable toggle and the read-only restore.
//!
//! The machine side of this primitive — walking the live translation
//! tables, flipping the terminal descriptor's read-only bit and
//! broadcasting a TLB invalidate — acts on hardware this library never
//! touches; this model carries the text bytes and per-page writability the
//! probe machinery reasons about.

use vstd::prelude::*;

verus! {

/// Page size of host text pages.
pub const PAGE_SIZE: usize = 4096;

/// The host's own text: per-page writability and the text bytes.
pub struct KernelText {
    /// Known pages by base address, with their current writability.
    pub pages: Vec<(usize, bool)>,
    /// Text bytes by address.
    pub bytes: Vec<(usize, u8)>,
}

/// Whether an address table holds an address.
pub open spec fn addr_contains<T>(entries: Seq<(usize, T)>, a: int) -> bool {
    exists|i: int| 0 <= i < entries.len() && entries[i].0 == a
}

/// The value an address table binds (meaningful when unique).
pub open spec fn addr_value_of<T>(entries: Seq<(usize, T)>, a: int) -> T {
    entries[choose|i: int| 0 <= i < entries.len() && entries[i].0 == a].1
}

/// Addresses are pairwise distinct.
pub open spec fn addrs_unique<T>(entries: Seq<(usize, T)>) -> bool {
    forall|i: int, j: int| 0 <= i < j < entries.len() ==> entries[i].0 != entries[j].0
}

/// The byte contents as a partial map from address to byte.
pub open spec fn bytes_map(entries: Seq<(usize, u8)>) -> Map<int, u8> {
    Map::new(|a: int| addr_contains(entries, a), |a: int| addr_value_of(entries, a))
}

/// A byte map after writing a byte string at an address.
pub open spec fn spec_write_bytes(m: Map<int, u8>, addr: int, data: Seq<u8>) -> Map<int, u8> {
    Map::new(
        |a: int| m.dom().contains(a) || (addr <= a < addr + data.len()),
        |a: int|
            if addr <= a < addr + data.len() {
                data[a - addr]
            } else {
                m[a]
            },
    )
}

/// Whether a page base is covered by a byte range: the base is aligned
/// and its page index falls within the range's pages.
pub open spec fn page_covered(base: int, addr: int, size: int) -> bool {
    &&& size > 0
    &&& base % PAGE_SIZE as int == 0
    &&& addr / (PAGE_SIZE as int) <= base / (PAGE_SIZE as int) <= (addr + size - 1) / (
    PAGE_SIZE as int)
}

/// The writable flag of a page after the toggle has processed the pages
/// from `start_page` up to (not including) `upto`.
pub open spec fn page_flag_after(base: int, flag0: bool, start_page: int, upto: int,
    writable: bool) -> bool {
    if base % (PAGE_SIZE as int) == 0 && start_page <= base / (PAGE_SIZE as int) < upto {
        writable
    } else {
        flag0
    }
}

/// Restoring saved bytes after an overwrite of the same range brings the
/// text back to its pre-overwrite contents.
pub proof fn lemma_overwrite_then_restore(m: Map<int, u8>, addr: int, patch: Seq<u8>,
    saved: Seq<u8>)
    requires
        saved.len() == patch.len(),
        forall|a: int| addr <= a < addr + saved.len() ==> m.dom().contains(a),
        forall|a: int| addr <= a < addr + saved.len() ==> m[a] == saved[a - addr],
    ensures
        spec_write_bytes(spec_write_bytes(m, addr, patch), addr, saved) == m,
{
    assert(spec_write_bytes(spec_write_bytes(m, addr, patch), addr, saved) =~= m);
}

impl KernelText {
    /// Page bases and byte addresses are unique.
    pub open spec fn wf(&self) -> bool {
        &&& addrs_unique(self.pages@)
        &&& addrs_unique(self.bytes@)
    }

    /// The text bytes as a partial map.
    pub open spec fn text(&self) -> Map<int, u8> {
        bytes_map(self.bytes@)
    }

    /// Whether a page is known and writable.
    pub open spec fn page_writable(&self, page: int) -> bool {
        addr_contains(self.pages@, page) && addr_value_of(self.pages@, page)
    }

    /// Every byte of the range is a known text byte.
    pub open spec fn range_mapped(&self, addr: int, n: int) -> bool {
        forall|a: int| addr <= a < addr + n ==> self.text().dom().contains(a)
    }

    /// Every page the range touches is known to the model.
    pub open spec fn range_pages_known(&self, addr: int, size: int) -> bool {
        forall|p: int|
            addr / (PAGE_SIZE as int) <= p <= (addr + size - 1) / (PAGE_SIZE as int)
                ==> addr_contains(self.pages@, #[trigger] (p * PAGE_SIZE as int))
    }

    /// An empty text model.
    pub fn new() -> (r: KernelText)
        ensures
            r.wf(),
            r.pages@.len() == 0,
            r.bytes@.len() == 0,
    {
        KernelText { pages: Vec::new(), bytes: Vec::new() }
    }

    /// Declare the read-only text page containing an address; a known page
    /// is left alone.
    pub fn add_page(&mut self, addr: usize)
        requires
            old(self).wf(),
        ensures
            final(self).wf(),
            addr_contains(final(self).pages@, (addr as int / PAGE_SIZE as int) * (PAGE_SIZE as int)),
            final(self).bytes@ == old(self).bytes@,
    {
        let page = addr / PAGE_SIZE * PAGE_SIZE;
        let mut i: usize = 0;
        while i < self.pages.len()
            invariant
                i <= self.pages@.len(),
                forall|j: int| 0 <= j < i ==> self.pages@[j].0 != page,
            decreases self.pages@.len() - i,
        {
            if self.pages[i].0 == page {
                proof {
                    assert(addr_contains(self.pages@, page as int));
                }
                return ;
            }
            i = i + 1;
        }
        self.pages.push((page, false));
        proof {
            assert(self.pages@[self.pages@.len() - 1].0 == page);
        }
    }

    /// Set one text byte; a fresh address is added to the model.
    pub fn set_byte(&mut self, addr: usize, b: u8)
        requires
            old(self).wf(),
        ensures
            final(self).wf(),
            final(self).pages@ == old(self).pages@,
            final(self).text() == old(self).text().insert(addr as int, b),
    {
        let mut i: usize = 0;
        while i < self.bytes.len()
            invariant
                i <= self.bytes@.len(),
                self.bytes@ == old(self).bytes@,
                self.pages@ == old(self).pages@,
                forall|j: int| 0 <= j < i ==> self.bytes@[j].0 != addr,
            decreases self.bytes@.len() - i,
        {
            if self.bytes[i].0 == addr {
                let ghost b0 = self.bytes@;
                let e = &mut self.bytes[i];
                e.1 = b;
                proof {
                    let b1 = self.bytes@;
                    assert(b0 == old(self).bytes@);
                    assert forall|x: int, y: int| 0 <= x < y < b1.len() implies b1[x].0
                        != b1[y].0 by {
                        assert(b1[x].0 == b0[x].0 && b1[y].0 == b0[y].0);
                    }
                    assert(addrs_unique(b1));
                    lemma_upsert_view(b0, b1, addr as int, b, i as int);
                    assert(self.text() =~= old(self).text().insert(addr as int, b));
                }
                return ;
            }
            i = i + 1;
        }
        let ghost b0 = self.bytes@;
        self.bytes.push((addr, b));
        proof {
            let b1 = self.bytes@;
            assert(b1[b1.len() - 1] == (addr, b));
            assert(forall|j: int| 0 <= j < b0.len() ==> (#[trigger] b1[j]) == b0[j]);
            assert forall|x: int, y: int| 0 <= x < y < b1.len() implies b1[x].0 != b1[y].0 by {
                if y < b1.len() - 1 {
                    assert(b1[x] == b0[x] && b1[y] == b0[y]);
                } else {
                    assert(b1[x] == b0[x]);
                    assert(b0[x].0 != addr);
                }
            }
            assert(addrs_unique(b1));
            lemma_upsert_view(b0, b1, addr as int, b, b1.len() - 1);
            assert(self.text() =~= old(self).text().insert(addr as int, b));
        }
    }

    /// Read one text byte.
    pub fn read_byte(&self, addr: usize) -> (r: Option<u8>)
        requires
            self.wf(),
        ensures
            match r {
                Some(b) => self.text().dom().contains(addr as int) && b == self.text()[
                    addr as int
                ],
                None => !self.text().dom().contains(addr as int),
            },
    {
        let mut i: usize = 0;
        while i < self.bytes.len()
            invariant
                i <= self.bytes@.len(),
                forall|j: int| 0 <= j < i ==> self.bytes@[j].0 != addr,
            decreases self.bytes@.len() - i,
        {
            if self.bytes[i].0 == addr {
                proof {
                    lemma_addr_witness(self.bytes@, addr as int, i as int);
                }
                return Some(self.bytes[i].1);
            }
            i = i + 1;
        }
        None
    }

    /// Read `n` text bytes; `None` when any byte of the range is unknown.
    pub fn read_bytes(&self, addr: usize, n: usize) -> (r: Option<Vec<u8>>)
        requires
            self.wf(),
            addr + n <= usize::MAX,
        ensures
            match r {
                Some(v) => {
                    &&& v@.len() == n
                    &&& forall|k: int|
                        0 <= k < n ==> self.text().dom().contains(#[trigger] (addr + k))
                            && v@[k] == self.text()[addr + k]
                },
                None => exists|k: int|
                    0 <= k < n && !self.text().dom().contains(#[trigger] (addr + k)),
            },
    {
        let mut out: Vec<u8> = Vec::new();
        let mut k: usize = 0;
        while k < n
            invariant
                k <= n,
                addr + n <= usize::MAX,
                out@.len() == k,
                self.wf(),
                forall|j: int|
                    0 <= j < k ==> self.text().dom().contains(#[trigger] (addr + j))
                        && out@[j] == self.text()[addr + j],
            decreases n - k,
        {
            match self.read_byte(addr + k) {
                Some(b) => {
                    out.push(b);
                },
                None => {
                    return None;
                },
            }
            k = k + 1;
        }
        Some(out)
    }

    /// Flip the writable flag of every known page covering the range.
    ///
    /// Reports success exactly when every covered page is known to the
    /// model; a missing page still leaves the found pages flipped, as the
    /// toggle proceeds page by page.
    pub fn set_kernel_text_writable(&mut self, addr: usize, size: usize, writable: bool) -> (r:
        bool)
        requires
            old(self).wf(),
            addr + size <= usize::MAX,
        ensures
            final(self).wf(),
            final(self).bytes@ == old(self).bytes@,
            final(self).pages@.len() == old(self).pages@.len(),
            size == 0 ==> r && final(self).pages@ == old(self).pages@,
            size > 0 ==> r == old(self).range_pages_known(addr as int, size as int),
            forall|j: int|
                0 <= j < final(self).pages@.len() ==> {
                    &&& (#[trigger] final(self).pages@[j]).0 == old(self).pages@[j].0
                    &&& final(self).pages@[j].1 == (if page_covered(
                        old(self).pages@[j].0 as int,
                        addr as int,
                        size as int,
                    ) {
                        writable
                    } else {
                        old(self).pages@[j].1
                    })
                },
    {
        let mut success = true;
        if size == 0 {
            return true;
        }
        let start_page = addr / PAGE_SIZE;
        let end_page = (addr + (size - 1)) / PAGE_SIZE;
        let mut p = start_page;
        while p <= end_page
            invariant
                start_page <= p,
                p <= end_page + 1,
                start_page == addr as int / PAGE_SIZE as int,
                end_page == (addr + size - 1) as int / PAGE_SIZE as int,
                size > 0,
                addr + size <= usize::MAX,
                self.wf(),
                self.bytes@ == old(self).bytes@,
                self.pages@.len() == old(self).pages@.len(),
                success == forall|q: int|
                    start_page <= q < p ==> addr_contains(
                        old(self).pages@,
                        #[trigger] (q * PAGE_SIZE as int),
                    ),
                forall|j: int|
                    0 <= j < self.pages@.len() ==> {
                        &&& (#[trigger] self.pages@[j]).0 == old(self).pages@[j].0
                        &&& self.pages@[j].1 == page_flag_after(
                            old(self).pages@[j].0 as int,
                            old(self).pages@[j].1,
                            start_page as int,
                            p as int,
                            writable,
                        )
                    },
            decreases end_page + 1 - p,
        {
            let ghost pages_before = self.pages@;
            let hit = self.flip_page(p, writable);
            if !hit {
                success = false;
            }
            proof {
                assert forall|j: int| 0 <= j < self.pages@.len() implies self.pages@[j].1
                    == page_flag_after(
                    old(self).pages@[j].0 as int,
                    old(self).pages@[j].1,
                    start_page as int,
                    p as int + 1,
                    writable,
                ) by {
                    let b = old(self).pages@[j].0 as int;
                    if b == p as int * PAGE_SIZE as int {
                        assert(b % PAGE_SIZE as int == 0 && b / PAGE_SIZE as int == p as int)
                            by (nonlinear_arith)
                            requires
                                b == p as int * 4096,
                                PAGE_SIZE == 4096,
                        ;
                    } else if b % PAGE_SIZE as int == 0 && b / PAGE_SIZE as int == p as int {
                        assert(b == p as int * PAGE_SIZE as int) by (nonlinear_arith)
                            requires
                                b % 4096 == 0,
                                b / 4096 == p as int,
                                PAGE_SIZE == 4096,
                        ;
                    }
                }
                let x = p as int * PAGE_SIZE as int;
                assert(pages_before.len() == old(self).pages@.len());
                if addr_contains(pages_before, x) {
                    let k = choose|k: int|
                        0 <= k < pages_before.len() && pages_before[k].0 == x;
                    assert(old(self).pages@[k].0 == pages_before[k].0);
                    assert(addr_contains(old(self).pages@, x));
                }
                if addr_contains(old(self).pages@, x) {
                    let k = choose|k: int|
                        0 <= k < old(self).pages@.len() && old(self).pages@[k].0 == x;
                    assert(pages_before[k].0 == old(self).pages@[k].0);
                    assert(addr_contains(pages_before, x));
                }
                assert(addr_contains(pages_before, x) == addr_contains(old(self).pages@, x));
            }
            p = p + 1;
        }
        proof {
            assert forall|j: int| 0 <= j < self.pages@.len() implies self.pages@[j].1 == (
            if page_covered(old(self).pages@[j].0 as int, addr as int, size as int) {
                writable
            } else {
                old(self).pages@[j].1
            }) by {
                assert(p == end_page + 1);
            }
        }
        success
    }

    /// Flip one page's writable flag; false when the page is unknown.
    fn flip_page(&mut self, page_index: usize, writable: bool) -> (r: bool)
        requires
            old(self).wf(),
        ensures
            final(self).wf(),
            final(self).bytes@ == old(self).bytes@,
            final(self).pages@.len() == old(self).pages@.len(),
            r == addr_contains(old(self).pages@, page_index as int * PAGE_SIZE as int),
            forall|j: int|
                0 <= j < final(self).pages@.len() ==> {
                    &&& (#[trigger] final(self).pages@[j]).0 == old(self).pages@[j].0
                    &&& final(self).pages@[j].1 == (if old(self).pages@[j].0 as int
                        == page_index as int * PAGE_SIZE as int {
                        writable
                    } else {
                        old(self).pages@[j].1
                    })
                },
    {
        if page_index > usize::MAX / PAGE_SIZE {
            proof {
                assert forall|j: int| 0 <= j < self.pages@.len() implies (
                #[trigger] self.pages@[j]).0 as int != page_index as int
                    * PAGE_SIZE as int by {
                    assert(self.pages@[j].0 <= usize::MAX);
                    assert(page_index as int * PAGE_SIZE as int > usize::MAX) by (
                    nonlinear_arith)
                        requires
                            page_index > usize::MAX / PAGE_SIZE,
                            PAGE_SIZE == 4096,
                    ;
                }
            }
            return false;
        }
        let page = page_index * PAGE_SIZE;
        let mut i: usize = 0;
        while i < self.pages.len()
            invariant
                i <= self.pages@.len(),
                self.wf(),
                self.pages@ == old(self).pages@,
                self.bytes@ == old(self).bytes@,
                page == page_index * PAGE_SIZE,
                forall|j: int| 0 <= j < i ==> (#[trigger] self.pages@[j]).0 != page,
            decreases self.pages@.len() - i,
        {
            if self.pages[i].0 == page {
                let ghost p0 = self.pages@;
                let e = &mut self.pages[i];
                e.1 = writable;
                proof {
                    assert(forall|j: int|
                        0 <= j < self.pages@.len() && j != i ==> self.pages@[j] == p0[j]);
                    assert(forall|j: int|
                        0 <= j < self.pages@.len() ==> (#[trigger] self.pages@[j]).0 == p0[j].0);
                    assert(addr_contains(p0, page as int));
                }
                return true;
            }
            i = i + 1;
        }
        false
    }

    /// Write bytes into host text: make the covered pages writable, copy
    /// the bytes, restore read-only and flush the instruction cache over
    /// the range. Succeeds exactly when every covered page is known, and
    /// re-imposes read-only on the success and failure paths alike.
    pub fn write_kernel_text(&mut self, addr: usize, data: &[u8]) -> (r: bool)
        requires
            old(self).wf(),
            addr + data@.len() <= usize::MAX,
        ensures
            final(self).wf(),
            r ==> final(self).text() == spec_write_bytes(old(self).text(), addr as int, data@),
            !r ==> final(self).text() == old(self).text(),
            r == (data@.len() == 0 || old(self).range_pages_known(
                addr as int,
                data@.len() as int,
            )),
            data@.len() == 0 ==> final(self).pages@ == old(self).pages@,
            data@.len() > 0 ==> final(self).pages@.len() == old(self).pages@.len() && forall|
                j: int,
            |
                0 <= j < final(self).pages@.len() ==> {
                    &&& (#[trigger] final(self).pages@[j]).0 == old(self).pages@[j].0
                    &&& final(self).pages@[j].1 == (if page_covered(
                        old(self).pages@[j].0 as int,
                        addr as int,
                        data@.len() as int,
                    ) {
                        false
                    } else {
                        old(self).pages@[j].1
                    })
                },
    {
        if data.len() == 0 {
            proof {
                assert(spec_write_bytes(self.text(), addr as int, data@) =~= self.text());
            }
            return true;
        }
        if !self.set_kernel_text_writable(addr, data.len(), true) {
            let _ = self.set_kernel_text_writable(addr, data.len(), false);
            return false;
        }
        let ghost t0 = self.text();
        let ghost pages_writable = self.pages@;
        let mut k: usize = 0;
        while k < data.len()
            invariant
                k <= data@.len(),
                addr + data@.len() <= usize::MAX,
                self.wf(),
                self.pages@ == pages_writable,
                self.text() == spec_write_bytes(t0, addr as int, data@.subrange(0, k as int)),
            decreases data@.len() - k,
        {
            let ghost tp = self.text();
            self.set_byte(addr + k, data[k]);
            k = k + 1;
            proof {
                assert(self.text() =~= spec_write_bytes(
                    t0,
                    addr as int,
                    data@.subrange(0, k as int),
                ));
            }
        }
        let _ = self.set_kernel_text_writable(addr, data.len(), false);
        proof {
            assert(data@.subrange(0, data@.len() as int) =~= data@);
            assert forall|j: int| 0 <= j < self.pages@.len() implies self.pages@[j].1 == (
            if page_covered(old(self).pages@[j].0 as int, addr as int, data@.len() as int) {
                false
            } else {
                old(self).pages@[j].1
            }) by {
                assert(pages_writable[j].0 == old(self).pages@[j].0);
            }
        }
        true
    }
}

/// After a single-entry upsert, the byte map is the old map with one
/// binding replaced or added.
proof fn lemma_upsert_view(b0: Seq<(usize, u8)>, b1: Seq<(usize, u8)>, addr: int, b: u8, i: int)
    requires
        addrs_unique(b0),
        addrs_unique(b1),
        0 <= i < b1.len(),
        b1[i].0 == addr,
        b1[i].1 == b,
        forall|j: int| 0 <= j < b1.len() && j != i ==> b1[j] == b0[j],
        b1.len() == b0.len() || (b1.len() == b0.len() + 1 && i == b0.len()),
        b1.len() == b0.len() ==> b0[i].0 == addr,
    ensures
        bytes_map(b1) == bytes_map(b0).insert(addr, b),
{
    lemma_addr_witness(b1, addr, i);
    assert forall|a: int| addr_contains(b1, a) && a != addr implies addr_contains(b0, a) by {
        let j = choose|j: int| 0 <= j < b1.len() && b1[j].0 == a;
        assert(j != i);
        assert(b0[j].0 == a);
    }
    assert forall|a: int| addr_contains(b0, a) && a != addr implies addr_contains(b1, a) by {
        let j = choose|j: int| 0 <= j < b0.len() && b0[j].0 == a;
        assert(j < b1.len());
        if b1.len() == b0.len() {
            assert(j != i || b0[i].0 == addr);
        }
        assert(b1[j].0 == a);
    }
    assert forall|a: int| addr_contains(b0, a) && a != addr implies addr_value_of(b1, a)
        == addr_value_of(b0, a) by {
        let j = choose|j: int| 0 <= j < b0.len() && b0[j].0 == a;
        lemma_addr_witness(b0, a, j);
        assert(b1[j] == b0[j]);
        lemma_addr_witness(b1, a, j);
    }
    assert(bytes_map(b1) =~= bytes_map(b0).insert(addr, b));
}

/// A matching index is the index the address map speaks of.
proof fn lemma_addr_witness<T>(entries: Seq<(usize, T)>, a: int, i: int)
    requires
        addrs_unique(entries),
        0 <= i < entries.len(),
        entries[i].0 == a,
    ensures
        addr_contains(entries, a),
        addr_value_of(entries, a) == entries[i].1,
{
    let j = choose|j: int| 0 <= j < entries.len() && entries[j].0 == a;
    assert(0 <= j < entries.len() && entries[j].0 == a);
    if i != j {
        assert(false);
    }
}

} // verus!
