//! Shell tracepoint triggers: route shell command execution and shell
//! initialisation into the built-in statistics.

use vstd::prelude::*;

use crate::platform::Platform;
use crate::tracepoints::stats::StatsManager;

verus! {

/// What one duration record does to a tracepoint's statistics: the hit
/// counter saturates upward, and the extremes absorb the new sample.
pub open spec fn spec_duration_recorded(
    m0: StatsManager,
    m1: StatsManager,
    name: Seq<char>,
    duration_ns: u64,
) -> bool {
    &&& (!m0.knows(name) ==> m1.stats@ == m0.stats@)
    &&& (m0.knows(name) ==> {
        let i = m0.index_of(name);
        &&& m1.stats@.len() == m0.stats@.len()
        &&& m1.stats@[i].1.count == (if m0.stats@[i].1.count < u64::MAX {
            m0.stats@[i].1.count + 1
        } else {
            u64::MAX as int
        })
        &&& m1.stats@[i].1.max_ns == (if duration_ns > m0.stats@[i].1.max_ns {
            duration_ns
        } else {
            m0.stats@[i].1.max_ns
        })
        &&& m1.stats@[i].1.min_ns == (if duration_ns < m0.stats@[i].1.min_ns {
            duration_ns
        } else {
            m0.stats@[i].1.min_ns
        })
        &&& (forall|j: int|
            0 <= j < m1.stats@.len() && j != i ==> m1.stats@[j] == m0.stats@[j])
    })
}

/// Trace one shell command execution: its duration is recorded against
/// the shell-command tracepoint's statistics.
pub fn trace_shell_command(stats: &mut StatsManager, platform: &Platform, _cmd_id: u32,
    duration_ns: u64)
    requires
        old(stats).wf(),
    ensures
        final(stats).wf(),
        spec_duration_recorded(*old(stats), *final(stats), "shell:command"@, duration_ns),
{
    let now = platform.time_ns();
    stats.record_duration("shell:command", now, duration_ns);
}

/// Trace the shell's initialisation: its duration is recorded against
/// the shell-init tracepoint's statistics.
pub fn trace_shell_init(stats: &mut StatsManager, platform: &Platform, duration_ns: u64)
    requires
        old(stats).wf(),
    ensures
        final(stats).wf(),
        spec_duration_recorded(*old(stats), *final(stats), "shell:init"@, duration_ns),
{
    let now = platform.time_ns();
    stats.record_duration("shell:init", now, duration_ns);
}

} // verus!
