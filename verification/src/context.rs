//! Trace context passed to programs at static tracepoints, in a fixed
//! 64-byte layout.

use vstd::prelude::*;

use crate::bytes::{le_bytes_of, push_le};
use crate::platform::Platform;

verus! {

/// Tracepoint context handed to a program as its data region.
#[derive(Debug, Clone, Copy, PartialEq)]
pub struct TraceContext {
    /// Tracepoint identifier.
    pub tracepoint_id: u32,
    /// Trigger timestamp in nanoseconds.
    pub timestamp_ns: u64,
    /// VM id; zero when not associated.
    pub vm_id: u32,
    /// vCPU id; zero when not associated.
    pub vcpu_id: u32,
    /// Argument slots.
    pub arg0: u64,
    /// Argument slots.
    pub arg1: u64,
    /// Argument slots.
    pub arg2: u64,
    /// Argument slots.
    pub arg3: u64,
    /// Probe kind tag.
    pub probe_type: u32,
    /// Reserved for alignment.
    pub _reserved: u32,
}

/// The 64-byte wire encoding of a trace context: the id, four alignment
/// padding bytes, the timestamp, VM and vCPU ids, the four arguments, the
/// probe kind and the reserved word.
pub open spec fn context_bytes(c: TraceContext) -> Seq<u8> {
    le_bytes_of(c.tracepoint_id as nat, 4) + le_bytes_of(0, 4) + le_bytes_of(
        c.timestamp_ns as nat,
        8,
    ) + le_bytes_of(c.vm_id as nat, 4) + le_bytes_of(c.vcpu_id as nat, 4) + le_bytes_of(
        c.arg0 as nat,
        8,
    ) + le_bytes_of(c.arg1 as nat, 8) + le_bytes_of(c.arg2 as nat, 8) + le_bytes_of(
        c.arg3 as nat,
        8,
    ) + le_bytes_of(c.probe_type as nat, 4) + le_bytes_of(c._reserved as nat, 4)
}

impl TraceContext {
    /// A fresh context stamped with the current time.
    pub fn new(platform: &Platform, tracepoint_id: u32) -> (r: TraceContext)
        ensures
            r.tracepoint_id == tracepoint_id,
            r.timestamp_ns == platform.mock_time_ns,
            r.vm_id == 0,
            r.vcpu_id == 0,
            r.arg0 == 0 && r.arg1 == 0 && r.arg2 == 0 && r.arg3 == 0,
            r.probe_type == 0,
            r._reserved == 0,
    {
        TraceContext {
            tracepoint_id,
            timestamp_ns: platform.time_ns(),
            vm_id: 0,
            vcpu_id: 0,
            arg0: 0,
            arg1: 0,
            arg2: 0,
            arg3: 0,
            probe_type: 0,
            _reserved: 0,
        }
    }

    /// The context with the VM and vCPU ids set.
    pub fn with_vm(self, vm_id: u32, vcpu_id: u32) -> (r: TraceContext)
        ensures
            r == (TraceContext { vm_id, vcpu_id, ..self }),
    {
        TraceContext { vm_id, vcpu_id, ..self }
    }

    /// The context with the argument slots set.
    pub fn with_args(self, arg0: u64, arg1: u64, arg2: u64, arg3: u64) -> (r: TraceContext)
        ensures
            r == (TraceContext { arg0, arg1, arg2, arg3, ..self }),
    {
        TraceContext { arg0, arg1, arg2, arg3, ..self }
    }

    /// The context with the probe kind set.
    pub fn with_probe_type(self, probe_type: u32) -> (r: TraceContext)
        ensures
            r == (TraceContext { probe_type, ..self }),
    {
        TraceContext { probe_type, ..self }
    }

    /// Serialise the context to its 64-byte wire format.
    pub fn as_bytes(&self) -> (r: Vec<u8>)
        ensures
            r@ == context_bytes(*self),
            r@.len() == 64,
    {
        let mut out: Vec<u8> = Vec::new();
        push_le(&mut out, self.tracepoint_id as u64, 4);
        push_le(&mut out, 0, 4);
        push_le(&mut out, self.timestamp_ns, 8);
        push_le(&mut out, self.vm_id as u64, 4);
        push_le(&mut out, self.vcpu_id as u64, 4);
        push_le(&mut out, self.arg0, 8);
        push_le(&mut out, self.arg1, 8);
        push_le(&mut out, self.arg2, 8);
        push_le(&mut out, self.arg3, 8);
        push_le(&mut out, self.probe_type as u64, 4);
        push_le(&mut out, self._reserved as u64, 4);
        proof {
            assert(out@ =~= context_bytes(*self));
        }
        out
    }
}

} // verus!
