//! Attachment registry: an ordered mapping from event-name strings to
//! loaded programs, plus the global verbose flag.
//!
//! Attaching is idempotent-rejecting: an attach to a live name fails with
//! `AlreadyAttached`, exactly then, whatever the program id; an unknown
//! program id is reported only for a free name.

use vstd::prelude::*;

use crate::assoc::{assoc_view, find_key, key_contains, key_index_of, keys_unique,
    lemma_key_witness};
use crate::runtime::ProgramStore;

verus! {

/// Error surface of the attachment registry.
#[derive(Debug, Clone)]
pub enum Error {
    /// The named tracepoint does not exist.
    TracepointNotFound(String),
    /// The program id is not loaded.
    ProgramNotFound(u32),
    /// The tracepoint already has an attached program.
    AlreadyAttached(String),
    /// The tracepoint has no attached program.
    NotAttached(String),
}

/// An attachment: the bound program and its display name.
#[derive(Debug, Clone)]
pub struct AttachmentInfo {
    /// Program id in the program registry.
    pub prog_id: u32,
    /// Program name for display.
    pub prog_name: String,
}

/// The attachment registry and the verbose flag.
pub struct AttachRegistry {
    /// Bindings from event name to attachment, in attach order.
    pub entries: Vec<(String, AttachmentInfo)>,
    /// Whether verbose output is on.
    pub verbose: bool,
}

impl AttachRegistry {
    /// Names are pairwise distinct.
    pub open spec fn wf(&self) -> bool {
        keys_unique(assoc_view(self.entries@))
    }

    /// Whether an attachment is live for a name.
    pub open spec fn attached(&self, name: Seq<char>) -> bool {
        key_contains(assoc_view(self.entries@), name)
    }

    /// The index of a live attachment.
    pub open spec fn index_of(&self, name: Seq<char>) -> int {
        key_index_of(assoc_view(self.entries@), name)
    }

    /// An empty registry with verbose mode off.
    pub fn new() -> (r: AttachRegistry)
        ensures
            r.wf(),
            r.entries@.len() == 0,
            r.verbose == false,
    {
        AttachRegistry { entries: Vec::new(), verbose: false }
    }

    /// Turn verbose mode on or off.
    pub fn set_verbose(&mut self, enabled: bool)
        ensures
            final(self).verbose == enabled,
            final(self).entries@ == old(self).entries@,
    {
        self.verbose = enabled;
    }

    /// Whether verbose mode is on.
    pub fn is_verbose(&self) -> (r: bool)
        ensures
            r == self.verbose,
    {
        self.verbose
    }

    /// Attach a program to an event name.
    ///
    /// Fails with `AlreadyAttached` exactly when an attachment for the
    /// name is live, whatever the program id; on a free name it fails
    /// with `ProgramNotFound` when the program id is not loaded.
    pub fn attach(&mut self, progs: &ProgramStore, tracepoint: &str, prog_id: u32,
        prog_name: &str) -> (r: Result<(), Error>)
        requires
            old(self).wf(),
        ensures
            final(self).wf(),
            final(self).verbose == old(self).verbose,
            old(self).attached(tracepoint@) ==> {
                &&& r matches Err(e) && e is AlreadyAttached
                &&& final(self).entries@ == old(self).entries@
            },
            !old(self).attached(tracepoint@) && !progs.live(prog_id) ==> {
                &&& r matches Err(e) && e is ProgramNotFound
                &&& final(self).entries@ == old(self).entries@
            },
            !old(self).attached(tracepoint@) && progs.live(prog_id) ==> {
                &&& r is Ok
                &&& final(self).entries@.len() == old(self).entries@.len() + 1
                &&& final(self).attached(tracepoint@)
                &&& final(self).entries@.last().0@ == tracepoint@
                &&& final(self).entries@.last().1.prog_id == prog_id
                &&& final(self).entries@.last().1.prog_name@ == prog_name@
                &&& forall|j: int|
                    0 <= j < old(self).entries@.len() ==> final(self).entries@[j] == old(
                        self,
                    ).entries@[j]
            },
    {
        match find_key(&self.entries, tracepoint) {
            Some(i) => {
                proof {
                    assert(assoc_view(self.entries@)[i as int].0 == tracepoint@);
                }
                Err(Error::AlreadyAttached(tracepoint.to_owned()))
            },
            None => {
                if progs.get_program(prog_id).is_none() {
                    return Err(Error::ProgramNotFound(prog_id));
                }
                let ghost av0 = assoc_view(self.entries@);
                self.entries.push(
                    (
                        tracepoint.to_owned(),
                        AttachmentInfo { prog_id, prog_name: prog_name.to_owned() },
                    ),
                );
                proof {
                    let av = assoc_view(self.entries@);
                    assert(forall|j: int| 0 <= j < av0.len() ==> av[j] == av0[j]);
                    assert(av[av0.len() as int].0 == tracepoint@);
                    assert(keys_unique(av));
                }
                Ok(())
            },
        }
    }

    /// Detach the program bound to an event name, returning the previous
    /// binding; fails with `NotAttached` exactly when none is live.
    pub fn detach(&mut self, tracepoint: &str) -> (r: Result<AttachmentInfo, Error>)
        requires
            old(self).wf(),
        ensures
            final(self).wf(),
            final(self).verbose == old(self).verbose,
            !old(self).attached(tracepoint@) ==> {
                &&& r matches Err(e) && e is NotAttached
                &&& final(self).entries@ == old(self).entries@
            },
            old(self).attached(tracepoint@) ==> {
                &&& r matches Ok(info) && info.prog_id == old(self).entries@[old(
                    self,
                ).index_of(tracepoint@)].1.prog_id
                &&& final(self).entries@ == old(self).entries@.remove(
                    old(self).index_of(tracepoint@),
                )
                &&& !final(self).attached(tracepoint@)
            },
    {
        match find_key(&self.entries, tracepoint) {
            Some(i) => {
                proof {
                    lemma_key_witness(assoc_view(self.entries@), tracepoint@, i as int);
                }
                let (_, info) = self.entries.remove(i);
                proof {
                    let av0 = assoc_view(old(self).entries@);
                    let av = assoc_view(self.entries@);
                    assert(av =~~= av0.remove(i as int));
                    assert(forall|a: int|
                        0 <= a < av.len() ==> #[trigger] av[a] == if a < i as int {
                            av0[a]
                        } else {
                            av0[a + 1]
                        });
                    assert(keys_unique(av));
                    assert(!key_contains(av, tracepoint@));
                }
                Ok(info)
            },
            None => Err(Error::NotAttached(tracepoint.to_owned())),
        }
    }

    /// The attachment live for a name, if any.
    pub fn get_attached(&self, tracepoint: &str) -> (r: Option<AttachmentInfo>)
        requires
            self.wf(),
        ensures
            match r {
                Some(info) => self.attached(tracepoint@) && info.prog_id == self.entries@[
                    self.index_of(tracepoint@)
                ].1.prog_id,
                None => !self.attached(tracepoint@),
            },
    {
        match find_key(&self.entries, tracepoint) {
            Some(i) => {
                proof {
                    lemma_key_witness(assoc_view(self.entries@), tracepoint@, i as int);
                }
                let info = AttachmentInfo {
                    prog_id: self.entries[i].1.prog_id,
                    prog_name: self.entries[i].1.prog_name.clone(),
                };
                Some(info)
            },
            None => None,
        }
    }

    /// Every binding, in attach order.
    pub fn list_attachments(&self) -> (r: Vec<(String, AttachmentInfo)>)
        ensures
            r@.len() == self.entries@.len(),
            forall|i: int|
                0 <= i < r@.len() ==> (#[trigger] r@[i]).0@ == self.entries@[i].0@
                    && r@[i].1.prog_id == self.entries@[i].1.prog_id,
    {
        let mut out: Vec<(String, AttachmentInfo)> = Vec::new();
        let mut i: usize = 0;
        while i < self.entries.len()
            invariant
                i <= self.entries@.len(),
                out@.len() == i,
                forall|j: int|
                    0 <= j < i ==> (#[trigger] out@[j]).0@ == self.entries@[j].0@
                        && out@[j].1.prog_id == self.entries@[j].1.prog_id,
            decreases self.entries@.len() - i,
        {
            let info = AttachmentInfo {
                prog_id: self.entries[i].1.prog_id,
                prog_name: self.entries[i].1.prog_name.clone(),
            };
            out.push((self.entries[i].0.clone(), info));
            i = i + 1;
        }
        out
    }

    /// Number of live attachments.
    pub fn attachment_count(&self) -> (r: usize)
        ensures
            r == self.entries@.len(),
    {
        self.entries.len()
    }
}

} // verus!
