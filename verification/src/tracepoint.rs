//! Static tracepoint management: the `subsystem:event` naming scheme and
//! the per-tracepoint enabled flag over the compiled-in roster.

use vstd::prelude::*;

use crate::tracepoints::registry::TracepointRegistry;

verus! {

/// Error surface of tracepoint management.
#[derive(Debug, Clone)]
pub enum Error {
    /// The subsystem has not been initialised.
    NotInitialized,
    /// No tracepoint has the name.
    NotFound(String),
    /// The name is not of the form `subsystem:event`.
    InvalidName(String),
    /// The subsystem was already initialised.
    AlreadyInitialized,
    /// Initialisation failed.
    InitFailed(&'static str),
}

/// Information about a single tracepoint.
#[derive(Debug, Clone)]
pub struct TracepointInfo {
    /// Full name, `subsystem:event`.
    pub name: String,
    /// Subsystem name.
    pub subsystem: String,
    /// Event name.
    pub event: String,
    /// Whether the tracepoint is currently enabled.
    pub enabled: bool,
    /// Tracepoint id.
    pub id: u32,
}

/// Split a tracepoint name at its first colon into subsystem and event.
pub fn parse_tracepoint_name<'a>(name: &'a str) -> (r: Option<(&'a str, &'a str)>)
    ensures
        r matches Some((sub, ev)) ==> exists|i: int|
            {
                &&& 0 <= i < name@.len()
                &&& #[trigger] name@[i] == ':'
                &&& sub@ == name@.subrange(0, i)
                &&& ev@ == name@.subrange(i + 1, name@.len() as int)
                &&& forall|j: int| 0 <= j < i ==> name@[j] != ':'
            },
        r is None ==> !name.is_ascii() || (forall|j: int|
            0 <= j < name@.len() ==> name@[j] != ':'),
        name.is_ascii() && (exists|j: int| 0 <= j < name@.len() && name@[j] == ':') ==> r
            is Some,
{
    if !name.is_ascii() {
        return None;
    }
    let n = name.unicode_len();
    let mut i: usize = 0;
    while i < n
        invariant
            i <= n,
            n == name@.len(),
            name.is_ascii(),
            forall|j: int| 0 <= j < i ==> name@[j] != ':',
        decreases n - i,
    {
        if name.get_char(i) == ':' {
            let sub = name.substring_ascii(0, i);
            let ev = name.substring_ascii(i + 1, n);
            proof {
                assert(name@[i as int] == ':');
            }
            return Some((sub, ev));
        }
        i = i + 1;
    }
    None
}

/// The tracepoint manager: the roster of static tracepoints with their
/// enabled flags.
pub struct TracepointManager {
    /// One record per tracepoint.
    pub entries: Vec<TracepointInfo>,
    /// Whether `init` ran.
    pub initialized: bool,
}

impl TracepointManager {
    /// Initialise the manager over the compiled-in tracepoint roster,
    /// every tracepoint disabled.
    pub fn init() -> (r: TracepointManager)
        ensures
            r.initialized,
            forall|i: int| 0 <= i < r.entries@.len() ==> !(#[trigger] r.entries@[i]).enabled,
    {
        let registry = TracepointRegistry::init();
        let roster = registry.list_all();
        let mut entries: Vec<TracepointInfo> = Vec::new();
        let mut i: usize = 0;
        while i < roster.len()
            invariant
                i <= roster@.len(),
                forall|k: int| 0 <= k < entries@.len() ==> !(#[trigger] entries@[k]).enabled,
            decreases roster@.len() - i,
        {
            let (id, name) = (roster[i].0, &roster[i].1);
            match parse_tracepoint_name(name.as_str()) {
                Some((sub, ev)) => {
                    entries.push(
                        TracepointInfo {
                            name: name.clone(),
                            subsystem: sub.to_owned(),
                            event: ev.to_owned(),
                            enabled: false,
                            id,
                        },
                    );
                },
                None => {},
            }
            i = i + 1;
        }
        TracepointManager { entries, initialized: true }
    }

    /// Whether the subsystem was initialised.
    pub fn is_initialized(&self) -> (r: bool)
        ensures
            r == self.initialized,
    {
        self.initialized
    }

    /// Every tracepoint's record, in roster order.
    pub fn list_tracepoints(&self) -> (r: Vec<TracepointInfo>)
        ensures
            r@.len() == self.entries@.len(),
            forall|i: int|
                0 <= i < r@.len() ==> (#[trigger] r@[i]).name@ == self.entries@[i].name@
                    && r@[i].enabled == self.entries@[i].enabled && r@[i].id
                    == self.entries@[i].id,
    {
        let mut out: Vec<TracepointInfo> = Vec::new();
        let mut i: usize = 0;
        while i < self.entries.len()
            invariant
                i <= self.entries@.len(),
                out@.len() == i,
                forall|j: int|
                    0 <= j < i ==> (#[trigger] out@[j]).name@ == self.entries@[j].name@
                        && out@[j].enabled == self.entries@[j].enabled && out@[j].id
                        == self.entries@[j].id,
            decreases self.entries@.len() - i,
        {
            let e = &self.entries[i];
            out.push(
                TracepointInfo {
                    name: e.name.clone(),
                    subsystem: e.subsystem.clone(),
                    event: e.event.clone(),
                    enabled: e.enabled,
                    id: e.id,
                },
            );
            i = i + 1;
        }
        out
    }

    /// First index of a full tracepoint name.
    fn find(&self, name: &str) -> (r: Option<usize>)
        ensures
            match r {
                Some(i) => 0 <= i < self.entries@.len() && self.entries@[i as int].name@
                    == name@,
                None => forall|j: int|
                    0 <= j < self.entries@.len() ==> (#[trigger] self.entries@[j]).name@
                        != name@,
            },
    {
        let owned: String = name.to_owned();
        let mut i: usize = 0;
        while i < self.entries.len()
            invariant
                i <= self.entries@.len(),
                owned@ == name@,
                forall|j: int| 0 <= j < i ==> (#[trigger] self.entries@[j]).name@ != name@,
            decreases self.entries@.len() - i,
        {
            if self.entries[i].name == owned {
                return Some(i);
            }
            i = i + 1;
        }
        None
    }

    /// The record of one tracepoint; an unparsable name is rejected with
    /// `InvalidName`, an unknown one with `NotFound`.
    pub fn get(&self, name: &str) -> (r: Result<TracepointInfo, Error>)
        ensures
            r matches Ok(info) ==> exists|i: int|
                0 <= i < self.entries@.len() && (#[trigger] self.entries@[i]).name@ == name@
                    && info.enabled == self.entries@[i].enabled && info.id
                    == self.entries@[i].id,
    {
        if parse_tracepoint_name(name).is_none() {
            return Err(Error::InvalidName(name.to_owned()));
        }
        match self.find(name) {
            Some(i) => {
                let e = &self.entries[i];
                proof {
                    assert(self.entries@[i as int].name@ == name@);
                }
                Ok(
                    TracepointInfo {
                        name: e.name.clone(),
                        subsystem: e.subsystem.clone(),
                        event: e.event.clone(),
                        enabled: e.enabled,
                        id: e.id,
                    },
                )
            },
            None => Err(Error::NotFound(name.to_owned())),
        }
    }

    /// Enable one tracepoint by full name: exactly the first record of
    /// that name flips to enabled. A name without a colon or outside the
    /// roster is rejected.
    pub fn enable(&mut self, name: &str) -> (r: Result<(), Error>)
        ensures
            final(self).entries@.len() == old(self).entries@.len(),
            r is Ok ==> exists|i: int|
                {
                    &&& 0 <= i < old(self).entries@.len()
                    &&& (#[trigger] old(self).entries@[i]).name@ == name@
                    &&& final(self).entries@ == old(self).entries@.update(
                        i,
                        (TracepointInfo { enabled: true, ..old(self).entries@[i] }),
                    )
                },
            r is Err ==> final(self).entries@ == old(self).entries@,
            name.is_ascii() && (exists|k: int| 0 <= k < name@.len() && name@[k] == ':') && (
            exists|j: int|
                0 <= j < old(self).entries@.len() && (#[trigger] old(self).entries@[j]).name@
                    == name@) ==> r is Ok,
    {
        self.set_enabled(name, true)
    }

    /// Disable one tracepoint by full name: exactly the first record of
    /// that name flips to disabled.
    pub fn disable(&mut self, name: &str) -> (r: Result<(), Error>)
        ensures
            final(self).entries@.len() == old(self).entries@.len(),
            r is Ok ==> exists|i: int|
                {
                    &&& 0 <= i < old(self).entries@.len()
                    &&& (#[trigger] old(self).entries@[i]).name@ == name@
                    &&& final(self).entries@ == old(self).entries@.update(
                        i,
                        (TracepointInfo { enabled: false, ..old(self).entries@[i] }),
                    )
                },
            r is Err ==> final(self).entries@ == old(self).entries@,
            name.is_ascii() && (exists|k: int| 0 <= k < name@.len() && name@[k] == ':') && (
            exists|j: int|
                0 <= j < old(self).entries@.len() && (#[trigger] old(self).entries@[j]).name@
                    == name@) ==> r is Ok,
    {
        self.set_enabled(name, false)
    }

    /// Set one tracepoint's enabled flag.
    fn set_enabled(&mut self, name: &str, enabled: bool) -> (r: Result<(), Error>)
        ensures
            final(self).entries@.len() == old(self).entries@.len(),
            r is Ok ==> exists|i: int|
                {
                    &&& 0 <= i < old(self).entries@.len()
                    &&& (#[trigger] old(self).entries@[i]).name@ == name@
                    &&& final(self).entries@ == old(self).entries@.update(
                        i,
                        (TracepointInfo { enabled, ..old(self).entries@[i] }),
                    )
                },
            r is Err ==> final(self).entries@ == old(self).entries@,
            name.is_ascii() && (exists|k: int| 0 <= k < name@.len() && name@[k] == ':') && (
            exists|j: int|
                0 <= j < old(self).entries@.len() && (#[trigger] old(self).entries@[j]).name@
                    == name@) ==> r is Ok,
    {
        if parse_tracepoint_name(name).is_none() {
            return Err(Error::InvalidName(name.to_owned()));
        }
        match self.find(name) {
            Some(i) => {
                let e = &mut self.entries[i];
                e.enabled = enabled;
                proof {
                    assert(final(self).entries@[i as int].name@ == name@);
                    assert(final(self).entries@ =~= old(self).entries@.update(
                        i as int,
                        (TracepointInfo { enabled, ..old(self).entries@[i as int] }),
                    ));
                }
                Ok(())
            },
            None => Err(Error::NotFound(name.to_owned())),
        }
    }

    /// Whether a tracepoint is enabled; unknown names count as disabled.
    pub fn is_enabled(&self, name: &str) -> (r: bool)
    {
        match self.get(name) {
            Ok(info) => info.enabled,
            Err(_) => false,
        }
    }

    /// Number of tracepoints in the roster.
    pub fn count(&self) -> (r: usize)
        ensures
            r == self.entries@.len(),
    {
        self.entries.len()
    }

    /// Enable every tracepoint of a subsystem; reports how many there
    /// were, and `NotFound` when the subsystem has none.
    pub fn enable_subsystem(&mut self, subsystem: &str) -> (r: Result<usize, Error>)
        ensures
            final(self).entries@.len() == old(self).entries@.len(),
    {
        self.set_subsystem(subsystem, true)
    }

    /// Disable every tracepoint of a subsystem.
    pub fn disable_subsystem(&mut self, subsystem: &str) -> (r: Result<usize, Error>)
        ensures
            final(self).entries@.len() == old(self).entries@.len(),
    {
        self.set_subsystem(subsystem, false)
    }

    /// Set the enabled flag of every tracepoint of a subsystem.
    fn set_subsystem(&mut self, subsystem: &str, enabled: bool) -> (r: Result<usize, Error>)
        ensures
            final(self).entries@.len() == old(self).entries@.len(),
    {
        let owned: String = subsystem.to_owned();
        let mut count: usize = 0;
        let mut i: usize = 0;
        while i < self.entries.len()
            invariant
                i <= self.entries@.len(),
                count <= i,
                self.entries@.len() == old(self).entries@.len(),
            decreases self.entries@.len() - i,
        {
            if self.entries[i].subsystem == owned {
                let e = &mut self.entries[i];
                e.enabled = enabled;
                count = count + 1;
            }
            i = i + 1;
        }
        if count == 0 {
            return Err(Error::NotFound(subsystem.to_owned()));
        }
        Ok(count)
    }
}

} // verus!
