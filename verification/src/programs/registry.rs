//! Roster of pre-compiled programs. This build embeds no pre-compiled
//! objects, so the roster is empty; the structure carries the name,
//! description and bytecode of each program a deployment ships with.

use vstd::prelude::*;

verus! {

/// One pre-compiled program.
pub struct PrecompiledProgram {
    /// Program name.
    pub name: String,
    /// Program description.
    pub description: String,
    /// Bytecode.
    pub bytecode: Vec<u8>,
}

/// The pre-compiled program roster.
pub struct ProgramRegistry {
    /// The shipped programs.
    pub programs: Vec<PrecompiledProgram>,
}

impl ProgramRegistry {
    /// The roster of this build: empty, as no objects are embedded.
    pub fn new() -> (r: ProgramRegistry)
        ensures
            r.programs@.len() == 0,
    {
        ProgramRegistry { programs: Vec::new() }
    }

    /// Every available pre-compiled program.
    pub fn list(&self) -> (r: Vec<(String, String)>)
        ensures
            r@.len() == self.programs@.len(),
    {
        let mut out: Vec<(String, String)> = Vec::new();
        let mut i: usize = 0;
        while i < self.programs.len()
            invariant
                i <= self.programs@.len(),
                out@.len() == i,
            decreases self.programs@.len() - i,
        {
            out.push((self.programs[i].name.clone(), self.programs[i].description.clone()));
            i = i + 1;
        }
        out
    }

    /// The bytecode of a pre-compiled program by name.
    pub fn get(&self, name: &str) -> (r: Option<Vec<u8>>)
        ensures
            r is Some ==> exists|i: int|
                0 <= i < self.programs@.len() && (#[trigger] self.programs@[i]).name@ == name@,
    {
        let owned: String = name.to_owned();
        let mut i: usize = 0;
        while i < self.programs.len()
            invariant
                i <= self.programs@.len(),
                owned@ == name@,
            decreases self.programs@.len() - i,
        {
            if self.programs[i].name == owned {
                proof {
                    assert(self.programs@[i as int].name@ == name@);
                }
                return Some(crate::bytes::copy_bytes(self.programs[i].bytecode.as_slice()));
            }
            i = i + 1;
        }
        None
    }

    /// Whether any pre-compiled program is available.
    pub fn is_available(&self) -> (r: bool)
        ensures
            r == (self.programs@.len() > 0),
    {
        self.programs.len() > 0
    }
}

} // verus!
