//! Probe framework: host probes on the hypervisor's own text, and guest
//! probes on guest-kernel text observed from the host.

use vstd::prelude::*;

pub mod hprobe;
pub mod kprobe;

verus! {

/// Probe classification by privilege level and direction.
#[derive(Debug, Clone, Copy, PartialEq, Eq, Structural)]
pub enum ProbeType {
    /// Host function entry.
    Hprobe,
    /// Host function return.
    Hretprobe,
    /// Guest kernel function entry.
    Kprobe,
    /// Guest kernel function return.
    Kretprobe,
    /// Static instrumentation point.
    Tracepoint,
}

impl ProbeType {
    /// Whether this probe targets guest code.
    pub fn is_guest_probe(&self) -> (r: bool)
        ensures
            r == (*self is Kprobe || *self is Kretprobe),
    {
        matches!(self, ProbeType::Kprobe | ProbeType::Kretprobe)
    }

    /// Whether this is a return probe.
    pub fn is_return_probe(&self) -> (r: bool)
        ensures
            r == (*self is Hretprobe || *self is Kretprobe),
    {
        matches!(self, ProbeType::Hretprobe | ProbeType::Kretprobe)
    }

    /// Short label for display.
    pub fn label(&self) -> (r: &'static str)
        ensures
            *self is Hprobe ==> r@ == "hprobe"@,
            *self is Hretprobe ==> r@ == "hretprobe"@,
            *self is Kprobe ==> r@ == "kprobe"@,
            *self is Kretprobe ==> r@ == "kretprobe"@,
            *self is Tracepoint ==> r@ == "tracepoint"@,
    {
        match self {
            ProbeType::Hprobe => "hprobe",
            ProbeType::Hretprobe => "hretprobe",
            ProbeType::Kprobe => "kprobe",
            ProbeType::Kretprobe => "kretprobe",
            ProbeType::Tracepoint => "tracepoint",
        }
    }
}

} // verus!
