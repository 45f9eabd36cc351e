//! Process identifiers and the counter that hands them out.

use vstd::prelude::*;

verus! {

/// The identity of a process. The value 1 names the kernel process.
#[derive(Clone, Copy, Debug, PartialEq, Eq, Structural, PartialOrd, Ord, Hash)]
pub struct ProcessId(pub u16);

/// The counter behind [`ProcessId::new`]: the value that the next call hands out.
#[derive(Clone, Copy, Debug)]
pub struct PidAllocator {
    pub next: u16,
}

/// The number of identifiers that are handed out before the first of them
/// comes again: those from 0 to 65534.
pub const PID_CYCLE: u32 = 0xFFFF;

/// The identifier that an allocator in state `next` hands out: the state
/// itself, but 0 in place of `u16::MAX`, which names no process.
pub open spec fn spec_pid_of(next: u16) -> u16 {
    if next == u16::MAX {
        0
    } else {
        next
    }
}

/// The state of the allocator after it has handed out an identifier in
/// state `next`: the state that hands out the identifier one above, and 0
/// after 65534.
pub open spec fn spec_pid_after(next: u16) -> u16 {
    if next == u16::MAX {
        1
    } else {
        (next + 1) as u16
    }
}

/// The state of the allocator after it has handed out `calls` identifiers
/// from the state `next` on.
pub open spec fn spec_pid_state(next: u16, calls: nat) -> u16
    decreases calls,
{
    if calls == 0 {
        next
    } else {
        spec_pid_after(spec_pid_state(next, (calls - 1) as nat))
    }
}

/// Identifiers rise by one from call to call and start again at 0 after
/// 65534: the identifier that is handed out after `calls` others is that
/// many above the first, counted round the cycle.
pub proof fn lemma_pids_rise(next: u16, calls: nat)
    ensures
        spec_pid_of(spec_pid_state(next, calls)) == (spec_pid_of(next) + calls) % (
        PID_CYCLE as int),
    decreases calls,
{
    if calls > 0 {
        lemma_pids_rise(next, (calls - 1) as nat);
    }
}

/// No identifier is handed out twice within one cycle: from any state, a
/// call and a later one with fewer than [`PID_CYCLE`] calls from the one
/// to the other hand out different identifiers.
pub proof fn lemma_pids_differ(next: u16, first: nat, second: nat)
    requires
        first < second < first + PID_CYCLE,
    ensures
        spec_pid_of(spec_pid_state(next, first)) != spec_pid_of(spec_pid_state(next, second)),
{
    lemma_pids_rise(next, first);
    lemma_pids_rise(next, second);
}

impl PidAllocator {
    /// A fresh counter: its first identifier is 1.
    pub fn new() -> (alloc: PidAllocator)
        ensures
            alloc.next == 1,
    {
        PidAllocator { next: 1 }
    }
}

impl ProcessId {
    /// Hands out the next identifier and advances the counter.
    ///
    /// Identifiers count upwards by one. The value `u16::MAX` is never
    /// handed out: 0 follows 65534, and 1 follows 0. So an identifier
    /// comes again only after all the others, as [`lemma_pids_differ`]
    /// says.
    pub fn new(alloc: &mut PidAllocator) -> (pid: ProcessId)
        ensures
            pid.0 == spec_pid_of(old(alloc).next),
            final(alloc).next == spec_pid_after(old(alloc).next),
            pid.0 != u16::MAX,
    {
        let pid: u16 = alloc.next;
        if pid == u16::MAX {
            alloc.next = 1;
            ProcessId(0)
        } else {
            alloc.next = pid + 1;
            ProcessId(pid)
        }
    }

    /// The identifier as a number.
    pub fn value(&self) -> (v: u16)
        ensures
            v == self.0,
    {
        self.0
    }
}

} // verus!
