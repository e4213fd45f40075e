//! Host symbol table: lookup of symbol addresses by name and of symbols
//! by address, over a table of (name, address, size) records.

use vstd::prelude::*;

use crate::assoc::{assoc_view, keys_unique};

verus! {

/// Error surface of the symbol table.
#[derive(Debug)]
pub enum Error {
    /// The table was already initialised.
    AlreadyInitialized,
    /// The symbol data could not be parsed.
    ParseError(&'static str),
    /// The table has not been initialised.
    NotInitialized,
}

/// One symbol: its name, start address and size in bytes.
pub struct SymbolEntry {
    /// Symbol name.
    pub name: String,
    /// Start address.
    pub addr: u64,
    /// Size in bytes.
    pub size: u64,
}

/// The host symbol table.
pub struct SymbolTable {
    /// Symbol records; names are pairwise distinct.
    pub entries: Vec<SymbolEntry>,
    /// Whether the table was initialised.
    pub initialized: bool,
}

impl SymbolTable {
    /// Names are pairwise distinct.
    pub open spec fn wf(&self) -> bool {
        forall|i: int, j: int|
            0 <= i < j < self.entries@.len() ==> self.entries@[i].name@ != self.entries@[j].name@
    }

    /// An empty, uninitialised table.
    pub fn new() -> (r: SymbolTable)
        ensures
            r.wf(),
            !r.initialized,
            r.entries@.len() == 0,
    {
        SymbolTable { entries: Vec::new(), initialized: false }
    }

    /// Initialise the table from symbol records; a second initialisation
    /// is rejected, and a record whose name repeats an earlier one is
    /// dropped.
    pub fn init(&mut self, records: Vec<SymbolEntry>) -> (r: Result<(), Error>)
        requires
            old(self).wf(),
        ensures
            final(self).wf(),
            old(self).initialized ==> {
                &&& r matches Err(e) && e is AlreadyInitialized
                &&& final(self).entries@ == old(self).entries@
            },
            !old(self).initialized ==> r is Ok && final(self).initialized,
    {
        if self.initialized {
            return Err(Error::AlreadyInitialized);
        }
        self.entries = Vec::new();
        let mut recs = records;
        loop
            invariant
                self.wf(),
                !self.initialized,
            decreases recs@.len(),
        {
            if recs.len() == 0 {
                break ;
            }
            let rec = recs.remove(0);
            let mut dup = false;
            let mut i: usize = 0;
            while i < self.entries.len()
                invariant
                    i <= self.entries@.len(),
                    self.wf(),
                    !dup ==> forall|j: int|
                        0 <= j < i ==> self.entries@[j].name@ != rec.name@,
                decreases self.entries@.len() - i,
            {
                if self.entries[i].name == rec.name {
                    dup = true;
                    proof {
                        assert(self.entries@[i as int].name@ == rec.name@);
                    }
                    break ;
                }
                i = i + 1;
            }
            if !dup {
                let ghost e0 = self.entries@;
                self.entries.push(rec);
                proof {
                    assert(forall|j: int|
                        0 <= j < e0.len() ==> (#[trigger] self.entries@[j]) == e0[j]);
                }
            }
        }
        self.initialized = true;
        Ok(())
    }

    /// Whether the table was initialised.
    pub fn is_initialized(&self) -> (r: bool)
        ensures
            r == self.initialized,
    {
        self.initialized
    }

    /// Whether the table holds a symbol of this name.
    pub open spec fn spec_has(&self, name: Seq<char>) -> bool {
        exists|i: int| 0 <= i < self.entries@.len() && self.entries@[i].name@ == name
    }

    /// The address of a named symbol (meaningful when the name is held).
    pub open spec fn spec_addr_of(&self, name: Seq<char>) -> u64 {
        self.entries@[choose|i: int|
            0 <= i < self.entries@.len() && self.entries@[i].name@ == name].addr
    }

    /// The address of a symbol by name: exactly the held symbol's address,
    /// and `None` exactly for an unknown name.
    pub fn lookup_addr(&self, name: &str) -> (r: Option<u64>)
        requires
            self.wf(),
        ensures
            r == if self.spec_has(name@) {
                Some(self.spec_addr_of(name@))
            } else {
                None::<u64>
            },
    {
        let owned: String = name.to_owned();
        let mut i: usize = 0;
        while i < self.entries.len()
            invariant
                i <= self.entries@.len(),
                owned@ == name@,
                forall|j: int| 0 <= j < i ==> (#[trigger] self.entries@[j]).name@ != name@,
            decreases self.entries@.len() - i,
        {
            if self.entries[i].name == owned {
                proof {
                    assert(self.entries@[i as int].name@ == name@);
                    assert(self.spec_has(name@));
                    let k = choose|k: int|
                        0 <= k < self.entries@.len() && self.entries@[k].name@ == name@;
                    if k != i as int {
                        assert(false);
                    }
                }
                return Some(self.entries[i].addr);
            }
            i = i + 1;
        }
        None
    }

    /// The symbol containing an address, with the offset of the address
    /// inside it: (name, size, offset).
    pub fn lookup_symbol(&self, addr: u64) -> (r: Option<(String, u64, u64)>)
        requires
            self.wf(),
        ensures
            match r {
                Some((name, size, offset)) => exists|i: int|
                    0 <= i < self.entries@.len() && (#[trigger] self.entries@[i]).name@ == name@
                        && self.entries@[i].size == size && self.entries@[i].addr + offset
                        == addr && offset < size,
                None => true,
            },
    {
        let mut i: usize = 0;
        while i < self.entries.len()
            invariant
                i <= self.entries@.len(),
            decreases self.entries@.len() - i,
        {
            let e = &self.entries[i];
            if e.addr <= addr && addr - e.addr < e.size {
                proof {
                    assert(self.entries@[i as int].addr + (addr - self.entries@[i as int].addr)
                        == addr);
                }
                return Some((e.name.clone(), e.size, addr - e.addr));
            }
            i = i + 1;
        }
        None
    }
}

} // verus!
