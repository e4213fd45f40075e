//! Static tracepoint registry: the id and name table for every trigger
//! site compiled into the hypervisor.

use vstd::prelude::*;

verus! {

/// Id and name table of static tracepoints.
pub struct TracepointRegistry {
    /// One entry per tracepoint; ids are pairwise distinct.
    pub entries: Vec<(u32, String)>,
}

/// Whether a table holds an id.
pub open spec fn id_contains(entries: Seq<(u32, Seq<char>)>, id: u32) -> bool {
    exists|i: int| 0 <= i < entries.len() && entries[i].0 == id
}

/// The index of an id in a table.
pub open spec fn id_index_of(entries: Seq<(u32, Seq<char>)>, id: u32) -> int {
    choose|i: int| 0 <= i < entries.len() && entries[i].0 == id
}

/// The deep view of the table.
pub open spec fn registry_view(entries: Seq<(u32, String)>) -> Seq<(u32, Seq<char>)> {
    entries.map_values(|p: (u32, String)| (p.0, p.1@))
}

impl TracepointRegistry {
    /// Ids are pairwise distinct.
    pub open spec fn wf(&self) -> bool {
        forall|i: int, j: int|
            0 <= i < j < self.entries@.len() ==> self.entries@[i].0 != self.entries@[j].0
    }

    /// The view of the table.
    pub open spec fn view_of(&self) -> Seq<(u32, Seq<char>)> {
        registry_view(self.entries@)
    }

    /// An empty table.
    pub fn new() -> (r: TracepointRegistry)
        ensures
            r.wf(),
            r.entries@.len() == 0,
    {
        TracepointRegistry { entries: Vec::new() }
    }

    /// Register a tracepoint under its id; a repeated id is ignored.
    pub fn register(&mut self, id: u32, name: &str)
        requires
            old(self).wf(),
        ensures
            final(self).wf(),
            id_contains(final(self).view_of(), id),
            !id_contains(old(self).view_of(), id) ==> {
                &&& final(self).entries@.len() == old(self).entries@.len() + 1
                &&& final(self).entries@.last().0 == id
                &&& final(self).entries@.last().1@ == name@
            },
            id_contains(old(self).view_of(), id) ==> final(self).entries@ == old(self).entries@,
    {
        let mut i: usize = 0;
        while i < self.entries.len()
            invariant
                i <= self.entries@.len(),
                forall|j: int| 0 <= j < i ==> self.entries@[j].0 != id,
            decreases self.entries@.len() - i,
        {
            if self.entries[i].0 == id {
                proof {
                    assert(self.view_of()[i as int].0 == id);
                    assert(id_contains(self.view_of(), id));
                }
                return ;
            }
            i = i + 1;
        }
        let ghost v0 = self.view_of();
        self.entries.push((id, name.to_owned()));
        proof {
            let v = self.view_of();
            assert(v.len() == v0.len() + 1);
            assert(forall|j: int| 0 <= j < v0.len() ==> v[j] == v0[j]);
            assert(v[v0.len() as int].0 == id);
        }
    }

    /// The name registered under an id.
    pub fn get_name(&self, id: u32) -> (r: Option<String>)
        requires
            self.wf(),
        ensures
            match r {
                Some(name) => id_contains(self.view_of(), id) && name@ == self.view_of()[
                    id_index_of(self.view_of(), id)
                ].1,
                None => !id_contains(self.view_of(), id),
            },
    {
        let mut i: usize = 0;
        while i < self.entries.len()
            invariant
                i <= self.entries@.len(),
                forall|j: int| 0 <= j < i ==> self.entries@[j].0 != id,
            decreases self.entries@.len() - i,
        {
            if self.entries[i].0 == id {
                proof {
                    let v = self.view_of();
                    assert(v[i as int].0 == id);
                    assert(id_contains(v, id));
                    let k = id_index_of(v, id);
                    assert(0 <= k < v.len() && v[k].0 == id);
                    if k != i as int {
                        assert(false);
                    }
                }
                return Some(self.entries[i].1.clone());
            }
            i = i + 1;
        }
        None
    }

    /// The id registered under a name, if any; the first match wins.
    pub fn get_id(&self, name: &str) -> (r: Option<u32>)
        ensures
            match r {
                Some(id) => exists|i: int|
                    0 <= i < self.view_of().len() && self.view_of()[i] == (id, name@),
                None => forall|i: int|
                    0 <= i < self.view_of().len() ==> (#[trigger] self.view_of()[i]).1 != name@,
            },
    {
        let owned: String = name.to_owned();
        let mut i: usize = 0;
        while i < self.entries.len()
            invariant
                i <= self.entries@.len(),
                owned@ == name@,
                forall|j: int| 0 <= j < i ==> (#[trigger] self.view_of()[j]).1 != name@,
            decreases self.entries@.len() - i,
        {
            if self.entries[i].1 == owned {
                proof {
                    assert(self.view_of()[i as int] == (self.entries@[i as int].0, name@));
                }
                return Some(self.entries[i].0);
            }
            i = i + 1;
        }
        None
    }

    /// Every registered pair, in registration order.
    pub fn list_all(&self) -> (r: Vec<(u32, String)>)
        ensures
            registry_view(r@) == self.view_of(),
    {
        let mut out: Vec<(u32, String)> = Vec::new();
        let mut i: usize = 0;
        while i < self.entries.len()
            invariant
                i <= self.entries@.len(),
                out@.len() == i,
                forall|j: int|
                    0 <= j < i ==> (#[trigger] out@[j]).0 == self.entries@[j].0 && out@[j].1@
                        == self.entries@[j].1@,
            decreases self.entries@.len() - i,
        {
            out.push((self.entries[i].0, self.entries[i].1.clone()));
            i = i + 1;
        }
        proof {
            assert(registry_view(out@) =~~= self.view_of());
        }
        out
    }

    /// The table of every tracepoint compiled into the hypervisor.
    pub fn init() -> (r: TracepointRegistry)
        ensures
            r.wf(),
    {
        let mut t = TracepointRegistry::new();
        t.register(1, "vmm:vm_create");
        t.register(2, "vmm:vm_boot");
        t.register(3, "vmm:vm_shutdown");
        t.register(4, "vmm:vm_destroy");
        t.register(10, "vmm:vcpu_create");
        t.register(11, "vmm:vcpu_destroy");
        t.register(12, "vmm:vcpu_state_change");
        t.register(20, "vmm:vcpu_run_enter");
        t.register(21, "vmm:vcpu_run_exit");
        t.register(22, "vmm:hypercall");
        t.register(23, "vmm:external_interrupt");
        t.register(24, "vmm:vcpu_halt");
        t.register(25, "vmm:cpu_up");
        t.register(26, "vmm:ipi_send");
        t.register(30, "vmm:memory_map");
        t.register(31, "vmm:memory_unmap");
        t.register(32, "vmm:page_fault");
        t.register(40, "vmm:device_access");
        t.register(41, "vmm:irq_inject");
        t.register(42, "vmm:irq_handle");
        t.register(50, "vmm:vmm_init");
        t.register(51, "vmm:vhal_init");
        t.register(52, "vmm:config_load");
        t.register(53, "vmm:image_load");
        t.register(60, "vmm:timer_tick");
        t.register(61, "vmm:timer_event");
        t.register(62, "vmm:task_switch");
        t.register(100, "shell:shell_command");
        t.register(101, "shell:shell_init");
        t
    }
}

} // verus!
