//! The process table, the queue of the processes that are ready to run,
//! and the lists of those that wait for another to end.

use vstd::prelude::*;
use std::collections::BTreeMap;
use std::collections::VecDeque;
use super::ProgramStatus;
use super::context::ProcessContext;
use super::pid::{PidAllocator, ProcessId};
use super::process::{Process, ProcessInner};
use super::sync::{SemaphoreSet, SemaphoreView};

pub mod list;
pub mod memory;
pub mod semaphore;
pub mod spawn;
pub mod wait;

pub use list::{ProcessList, ProcessRow, spec_row_shows};
pub use memory::{
    CAUSED_BY_WRITE,
    INSTRUCTION_FETCH,
    MALFORMED_TABLE,
    MapRequest,
    PROTECTION_KEY,
    PROTECTION_VIOLATION,
    RMP,
    SGX,
    SHADOW_STACK,
    USER_MODE,
    fatal_fault,
    has_flag,
    lemma_share_heap_all,
    spec_fatal_fault,
    spec_has_flag,
    spec_share_heap,
    spec_share_heap_all,
};
pub use spawn::{Image, PID_TRIES, lemma_free_pid, lemma_free_pid_by_keys, spec_free_pid};
pub use wait::{
    deque_without,
    lemma_without,
    spec_can_wake,
    spec_wake_all_procs,
    spec_wake_all_ready,
    spec_wake_procs,
    spec_wake_ready,
    spec_without,
    vec_contains,
    vec_without,
};

verus! {

/// What the processes of a fork family have in common: the page table that
/// they all use, named by its address in the table of address spaces.
pub struct AddressSpace {
    /// The living processes that use the page table.
    pub users: Vec<ProcessId>,
    /// The semaphores of the family.
    pub semaphores: SemaphoreSet,
}

/// The process table and the scheduler's queues.
pub struct ProcessManager {
    /// Every process that was made, by its number. A dead process stays,
    /// so that its exit code can be read, and keeps its number.
    pub processes: BTreeMap<u16, Process>,
    /// The processes that are ready to run, the next one first.
    pub ready_queue: VecDeque<ProcessId>,
    /// For a process, the set of those that wait for it to end: each
    /// once, in the order in which they began to wait.
    pub wait_queue: BTreeMap<u16, Vec<ProcessId>>,
    /// The address spaces in use, by the address of their page table.
    pub spaces: BTreeMap<u64, AddressSpace>,
    /// The process that the processor runs.
    pub current: ProcessId,
    /// The counter that names new processes.
    pub pids: PidAllocator,
    /// The names of the programs that can be spawned.
    pub app_list: Option<Vec<String>>,
}

/// The process that the scheduler lets run next: the first of the ready
/// queue, where there is one and it is ready.
pub open spec fn spec_scheduled(procs: Map<u16, Process>, ready: Seq<ProcessId>) -> Option<
    ProcessId,
> {
    if ready.len() > 0 && procs[ready[0].0].inner.status == ProgramStatus::Ready {
        Some(ready[0])
    } else {
        None
    }
}

/// The ready queue `ready` without its first process, where it has one.
pub open spec fn spec_popped(ready: Seq<ProcessId>) -> Seq<ProcessId> {
    if ready.len() > 0 {
        ready.subrange(1, ready.len() as int)
    } else {
        ready
    }
}

/// The processes `procs` with what is kept of `pid` replaced by `inner`.
pub open spec fn spec_put(procs: Map<u16, Process>, pid: ProcessId, inner: ProcessInner) -> Map<
    u16,
    Process,
> {
    procs.insert(pid.0, Process { pid, inner })
}

/// The processes `procs` after the scheduler has chosen among them with
/// the ready queue `ready`: the one it lets run is running.
pub open spec fn spec_switched_procs(procs: Map<u16, Process>, ready: Seq<ProcessId>) -> Map<
    u16,
    Process,
> {
    match spec_scheduled(procs, ready) {
        Some(next) => spec_put(
            procs,
            next,
            procs[next.0].inner.spec_with_status(ProgramStatus::Running),
        ),
        None => procs,
    }
}

/// The counter of identifiers after the scheduler has chosen with the
/// ready queue `ready`: an empty queue costs one identifier.
pub open spec fn spec_switched_pids(pids: PidAllocator, ready: Seq<ProcessId>) -> PidAllocator {
    if ready.len() == 0 {
        PidAllocator { next: super::pid::spec_pid_after(pids.next) }
    } else {
        pids
    }
}

/// The place of the first of `names` that is `name`, or their number where
/// none is.
pub open spec fn spec_name_index(names: Seq<String>, name: Seq<char>) -> int
    decreases names.len(),
{
    if names.len() == 0 {
        0
    } else if names[0]@ == name {
        0
    } else {
        1 + spec_name_index(names.subrange(1, names.len() as int), name)
    }
}

/// Where none of the first `i` names is `name` and the `i`-th is, or `i`
/// is their number, `i` is the place of `name`.
pub proof fn lemma_name_index_is(names: Seq<String>, name: Seq<char>, i: int)
    requires
        0 <= i <= names.len(),
        forall|j: int| 0 <= j < i ==> (#[trigger] names[j])@ != name,
        i < names.len() ==> names[i]@ == name,
    ensures
        spec_name_index(names, name) == i,
    decreases names.len(),
{
    if names.len() > 0 && i > 0 {
        let rest = names.subrange(1, names.len() as int);
        assert(names[0]@ != name);
        assert forall|j: int| 0 <= j < i - 1 implies (#[trigger] rest[j])@ != name by {
            assert(rest[j] == names[j + 1]);
        }
        if i < names.len() {
            assert(rest[i - 1] == names[i]);
        }
        lemma_name_index_is(rest, name, i - 1);
    }
}

impl ProcessManager {
    /// The address of the page table that the process `k` uses.
    pub open spec fn spec_space_of(&self, k: u16) -> u64 {
        self.processes@[k].inner.proc_vm->0.page_table.addr
    }

    /// Whether the table holds a living process under `k`.
    pub open spec fn spec_alive(&self, k: u16) -> bool {
        self.processes@.contains_key(k) && self.processes@[k].inner.alive()
    }

    /// The table is in order:
    /// - each process is well formed and stands under its own number;
    /// - the current process is in the table;
    /// - every process in the ready queue is in the table;
    /// - every process that waits for another is in the table, and waits
    ///   for it once;
    /// - the address space of every living process is in the table of
    ///   address spaces and counts the process among its users.
    pub open spec fn wf(&self) -> bool {
        &&& forall|k: u16| #[trigger]
            self.processes@.contains_key(k) ==> self.processes@[k].pid.0 == k
                && self.processes@[k].wf()
        &&& self.processes@.contains_key(self.current.0)
        &&& forall|i: int|
            0 <= i < self.ready_queue@.len() ==> self.processes@.contains_key(
                (#[trigger] self.ready_queue@[i]).0,
            )
        &&& forall|t: u16, i: int|
            self.wait_queue@.contains_key(t) && 0 <= i < self.wait_queue@[t]@.len()
                ==> self.processes@.contains_key((#[trigger] self.wait_queue@[t]@[i]).0)
        &&& forall|t: u16| #[trigger]
            self.wait_queue@.contains_key(t) ==> self.wait_queue@[t]@.no_duplicates()
        &&& forall|k: u16| #[trigger]
            self.processes@.contains_key(k) && self.processes@[k].inner.alive()
                ==> self.spaces@.contains_key(self.spec_space_of(k))
                && self.spaces@[self.spec_space_of(k)].users@.contains(ProcessId(k))
    }

    /// The exit code of the process `pid`: `None` while it lives and where
    /// there is no such process.
    pub open spec fn spec_exit_code(&self, pid: ProcessId) -> Option<isize> {
        if self.processes@.contains_key(pid.0) {
            self.processes@[pid.0].inner.exit_code
        } else {
            None
        }
    }

    /// A table that holds `init` alone, as the process that runs.
    ///
    /// `pids` is the counter that gave `init` its number.
    pub fn new(init: Process, app_list: Option<Vec<String>>, pids: PidAllocator) -> (manager:
        ProcessManager)
        requires
            init.wf(),
            init.inner.alive(),
        ensures
            manager.wf(),
            manager.processes@ == Map::<u16, Process>::empty().insert(
                init.pid.0,
                Process {
                    pid: init.pid,
                    inner: init.inner.spec_with_status(ProgramStatus::Running),
                },
            ),
            manager.ready_queue@ == Seq::<ProcessId>::empty(),
            manager.wait_queue@ == Map::<u16, Vec<ProcessId>>::empty(),
            manager.spaces@.dom() == Set::<u64>::empty().insert(
                init.inner.proc_vm->0.page_table.addr,
            ),
            manager.spaces@[init.inner.proc_vm->0.page_table.addr].users@ == seq![init.pid],
            manager.spaces@[init.inner.proc_vm->0.page_table.addr].semaphores@ == Map::<
                u32,
                super::sync::SemaphoreView,
            >::empty(),
            manager.current == init.pid,
            manager.pids == pids,
            manager.app_list == app_list,
    {
        let mut init = init;
        init.inner.resume();
        let pid = init.pid;
        let addr: u64 = init.inner.vm().page_table.addr;
        let mut processes: BTreeMap<u16, Process> = BTreeMap::new();
        processes.insert(pid.0, init);
        let mut users: Vec<ProcessId> = Vec::new();
        users.push(pid);
        let mut spaces: BTreeMap<u64, AddressSpace> = BTreeMap::new();
        spaces.insert(addr, AddressSpace { users, semaphores: SemaphoreSet::new() });
        let manager = ProcessManager {
            processes,
            ready_queue: VecDeque::new(),
            wait_queue: BTreeMap::new(),
            spaces,
            current: pid,
            pids,
            app_list,
        };
        assert(manager.spaces@[addr].users@ =~= seq![pid]);
        assert(manager.spaces@[addr].users@[0] == pid);
        assert(manager.spaces@.dom() =~= Set::<u64>::empty().insert(addr));
        manager
    }

    /// Puts `pid` at the end of the ready queue.
    pub fn push_ready(&mut self, pid: ProcessId)
        requires
            old(self).wf(),
            old(self).processes@.contains_key(pid.0),
        ensures
            final(self).wf(),
            final(self).ready_queue@ == old(self).ready_queue@.push(pid),
            final(self).processes@ == old(self).processes@,
            final(self).wait_queue@ == old(self).wait_queue@,
            final(self).spaces@ == old(self).spaces@,
            final(self).current == old(self).current,
            final(self).pids == old(self).pids,
            final(self).app_list == old(self).app_list,
    {
        self.ready_queue.push_back(pid);
        assert forall|i: int| 0 <= i < self.ready_queue@.len() implies self.processes@.contains_key(
            (#[trigger] self.ready_queue@[i]).0,
        ) by {
            if i < old(self).ready_queue@.len() {
                assert(self.ready_queue@[i] == old(self).ready_queue@[i]);
            }
        }
    }

    /// The process `pid`.
    pub fn get_proc(&self, pid: &ProcessId) -> (process: Option<&Process>)
        ensures
            process is Some == self.processes@.contains_key(pid.0),
            process matches Some(p) ==> *p == self.processes@[pid.0],
    {
        self.processes.get(&pid.0)
    }

    /// The process `pid`.
    pub fn get_proc_public(&self, pid: &ProcessId) -> (process: Option<&Process>)
        ensures
            process is Some == self.processes@.contains_key(pid.0),
            process matches Some(p) ==> *p == self.processes@[pid.0],
    {
        self.get_proc(pid)
    }

    /// The process that the processor runs.
    pub fn current(&self) -> (process: &Process)
        requires
            self.wf(),
        ensures
            *process == self.processes@[self.current.0],
            process.pid == self.current,
    {
        self.processes.get(&self.current.0).unwrap()
    }

    /// The exit code of the process `pid`: `None` while it lives and where
    /// there is no such process.
    pub fn get_exit_code(&self, pid: &ProcessId) -> (code: Option<isize>)
        ensures
            code == self.spec_exit_code(*pid),
    {
        match self.get_proc(pid) {
            Some(process) => process.inner.exit_code(),
            None => None,
        }
    }

    /// Whether `after` differs from `before` only in what is kept of the
    /// process `pid`, which is now `inner`.
    pub open spec fn spec_updated(
        before: &ProcessManager,
        after: &ProcessManager,
        pid: ProcessId,
        inner: ProcessInner,
    ) -> bool {
        &&& after.processes@ == before.processes@.insert(pid.0, Process { pid, inner })
        &&& after.ready_queue@ == before.ready_queue@
        &&& after.wait_queue@ == before.wait_queue@
        &&& after.spaces@ == before.spaces@
        &&& after.current == before.current
        &&& after.pids == before.pids
        &&& after.app_list == before.app_list
    }

    /// Whether `after` holds what `before` holds.
    pub open spec fn spec_unchanged(before: &ProcessManager, after: &ProcessManager) -> bool {
        &&& after.processes@ == before.processes@
        &&& after.ready_queue@ == before.ready_queue@
        &&& after.wait_queue@ == before.wait_queue@
        &&& after.spaces@ == before.spaces@
        &&& after.current == before.current
        &&& after.pids == before.pids
        &&& after.app_list == before.app_list
    }

    /// The processes of the queues stay in the table while the table
    /// loses no process and the queues gain none.
    pub proof fn lemma_queues_stay_in_table(before: &ProcessManager, after: &ProcessManager)
        requires
            before.wf(),
            forall|k: u16| #[trigger]
                before.processes@.contains_key(k) ==> after.processes@.contains_key(k),
            after.ready_queue@ == before.ready_queue@,
            forall|t: u16| #[trigger]
                after.wait_queue@.contains_key(t) ==> before.wait_queue@.contains_key(t)
                    && after.wait_queue@[t] == before.wait_queue@[t],
        ensures
            forall|i: int|
                0 <= i < after.ready_queue@.len() ==> after.processes@.contains_key(
                    (#[trigger] after.ready_queue@[i]).0,
                ),
            forall|t: u16, i: int|
                after.wait_queue@.contains_key(t) && 0 <= i < after.wait_queue@[t]@.len()
                    ==> after.processes@.contains_key((#[trigger] after.wait_queue@[t]@[i]).0),
    {
        assert forall|i: int| 0 <= i < after.ready_queue@.len() implies after.processes@.contains_key(
            (#[trigger] after.ready_queue@[i]).0,
        ) by {
            assert(before.processes@.contains_key(before.ready_queue@[i].0));
        }
        assert forall|t: u16, i: int|
            after.wait_queue@.contains_key(t) && 0 <= i < after.wait_queue@[t]@.len()
            implies after.processes@.contains_key((#[trigger] after.wait_queue@[t]@[i]).0) by {
            assert(before.wait_queue@.contains_key(t));
            assert(before.processes@.contains_key(before.wait_queue@[t]@[i].0));
        }
    }

    /// A table stays in order when one of its processes is replaced by a
    /// well-formed one that uses the same page table, or is dead.
    pub proof fn lemma_update_keeps_wf(
        before: &ProcessManager,
        after: &ProcessManager,
        pid: ProcessId,
    )
        requires
            before.wf(),
            before.processes@.contains_key(pid.0),
            after.processes@ == before.processes@.insert(pid.0, after.processes@[pid.0]),
            after.processes@[pid.0].pid == pid,
            after.processes@[pid.0].wf(),
            after.processes@[pid.0].inner.alive() ==> before.processes@[pid.0].inner.alive()
                && after.spec_space_of(pid.0) == before.spec_space_of(pid.0),
            after.ready_queue@ == before.ready_queue@,
            after.wait_queue@ == before.wait_queue@,
            after.spaces@ == before.spaces@,
            after.current == before.current,
        ensures
            after.wf(),
    {
        assert forall|k: u16| #[trigger]
            after.processes@.contains_key(k) implies after.processes@[k].pid.0 == k
            && after.processes@[k].wf() && (after.processes@[k].inner.alive()
            ==> after.spaces@.contains_key(after.spec_space_of(k)) && after.spaces@[after.spec_space_of(
            k,
        )].users@.contains(ProcessId(k))) by {
            assert(before.processes@.contains_key(k));
        }
        assert forall|i: int| 0 <= i < after.ready_queue@.len() implies after.processes@.contains_key(
            (#[trigger] after.ready_queue@[i]).0,
        ) by {
            assert(before.processes@.contains_key(before.ready_queue@[i].0));
        }
        assert forall|t: u16, i: int|
            after.wait_queue@.contains_key(t) && 0 <= i < after.wait_queue@[t]@.len()
            implies after.processes@.contains_key((#[trigger] after.wait_queue@[t]@[i]).0) by {
            assert(before.processes@.contains_key(before.wait_queue@[t]@[i].0));
        }
    }

    /// Counts a tick for the current process and takes the registers of
    /// `context` as its own. The process becomes ready; whether it joins
    /// the ready queue is for the caller to decide.
    pub fn save_current(&mut self, context: &ProcessContext)
        requires
            old(self).wf(),
        ensures
            final(self).wf(),
            Self::spec_updated(
                old(self),
                final(self),
                old(self).current,
                old(self).processes@[old(self).current.0].inner.spec_ticked().spec_saved(*context),
            ),
    {
        let pid = self.current;
        match self.processes.remove(&pid.0) {
            Some(process) => {
                let mut process = process;
                process.inner.tick();
                process.inner.save(context);
                self.processes.insert(pid.0, process);
                proof {
                    assert(self.processes@ =~= old(self).processes@.insert(
                        pid.0,
                        self.processes@[pid.0],
                    ));
                    Self::lemma_update_keeps_wf(old(self), self, pid);
                }
            },
            None => {},
        }
    }

    /// Takes the next process from the ready queue and lets it run.
    ///
    /// - Where the queue is empty, nothing changes but the counter of
    ///   identifiers: the result is a new identifier, which names no
    ///   process that runs, and the caller halts until the next interrupt.
    /// - Where the first process of the queue is not ready, it leaves the
    ///   queue and the result is the current process, which goes on.
    /// - Else the first process leaves the queue, its registers are
    ///   written to `context`, it becomes running and current, and the
    ///   result is its identifier. The caller loads its page table.
    pub fn switch_next(&mut self, context: &mut ProcessContext) -> (next: ProcessId)
        requires
            old(self).wf(),
        ensures
            final(self).wf(),
            final(self).wait_queue@ == old(self).wait_queue@,
            final(self).spaces@ == old(self).spaces@,
            final(self).app_list == old(self).app_list,
            final(self).processes@ == spec_switched_procs(
                old(self).processes@,
                old(self).ready_queue@,
            ),
            final(self).ready_queue@ == spec_popped(old(self).ready_queue@),
            final(self).pids == spec_switched_pids(old(self).pids, old(self).ready_queue@),
            match spec_scheduled(old(self).processes@, old(self).ready_queue@) {
                Some(chosen) => next == chosen && final(self).current == chosen && *final(context)
                    == old(self).processes@[chosen.0].inner.context,
                None => final(self).current == old(self).current && *final(context) == *old(
                    context,
                ) && next == (if old(self).ready_queue@.len() > 0 {
                    old(self).current
                } else {
                    ProcessId(super::pid::spec_pid_of(old(self).pids.next))
                }),
            },
    {
        let next_pid = match self.ready_queue.pop_front() {
            Some(pid) => pid,
            None => {
                return ProcessId::new(&mut self.pids);
            },
        };
        assert(old(self).ready_queue@[0] == next_pid);
        assert(old(self).processes@.contains_key(next_pid.0));
        assert forall|i: int| 0 <= i < self.ready_queue@.len() implies self.processes@.contains_key(
            (#[trigger] self.ready_queue@[i]).0,
        ) by {
            assert(self.ready_queue@[i] == old(self).ready_queue@[i + 1]);
        }
        let ready = match self.processes.get(&next_pid.0) {
            Some(process) => process.inner.is_ready(),
            None => false,
        };
        if !ready {
            return self.current;
        }
        match self.processes.remove(&next_pid.0) {
            Some(process) => {
                let mut process = process;
                process.inner.restore(context);
                self.processes.insert(next_pid.0, process);
            },
            None => {},
        }
        self.current = next_pid;
        proof {
            assert(self.processes@ =~= old(self).processes@.insert(
                next_pid.0,
                self.processes@[next_pid.0],
            ));
        }
        assert forall|k: u16| #[trigger]
            self.processes@.contains_key(k) implies self.processes@[k].pid.0 == k
            && self.processes@[k].wf() && (self.processes@[k].inner.alive()
            ==> self.spaces@.contains_key(self.spec_space_of(k)) && self.spaces@[self.spec_space_of(
            k,
        )].users@.contains(ProcessId(k))) by {
            assert(old(self).processes@.contains_key(k));
        }
        assert forall|t: u16, i: int|
            self.wait_queue@.contains_key(t) && 0 <= i < self.wait_queue@[t]@.len()
            implies self.processes@.contains_key((#[trigger] self.wait_queue@[t]@[i]).0) by {
            assert(old(self).processes@.contains_key(old(self).wait_queue@[t]@[i].0));
        }
        next_pid
    }

    /// Marks the process `pid` as blocked. It joins no queue. Nothing
    /// happens where there is no such process or it is dead.
    pub fn block(&mut self, pid: ProcessId)
        requires
            old(self).wf(),
        ensures
            final(self).wf(),
            !old(self).processes@.contains_key(pid.0) ==> Self::spec_unchanged(
                old(self),
                final(self),
            ),
            old(self).processes@.contains_key(pid.0) ==> Self::spec_updated(
                old(self),
                final(self),
                pid,
                old(self).processes@[pid.0].inner.spec_with_status(ProgramStatus::Blocked),
            ),
    {
        match self.processes.remove(&pid.0) {
            Some(process) => {
                let mut process = process;
                process.inner.block();
                self.processes.insert(pid.0, process);
                proof {
                    assert(self.processes@ =~= old(self).processes@.insert(
                        pid.0,
                        self.processes@[pid.0],
                    ));
                    Self::lemma_update_keeps_wf(old(self), self, pid);
                }
            },
            None => {
                assert(self.processes@ =~= old(self).processes@);
            },
        }
    }

    /// Marks the current process as running, unless it is dead.
    pub fn resume_current(&mut self)
        requires
            old(self).wf(),
        ensures
            final(self).wf(),
            Self::spec_updated(
                old(self),
                final(self),
                old(self).current,
                old(self).processes@[old(self).current.0].inner.spec_with_status(
                    ProgramStatus::Running,
                ),
            ),
    {
        let pid = self.current;
        match self.processes.remove(&pid.0) {
            Some(process) => {
                let mut process = process;
                process.inner.resume();
                self.processes.insert(pid.0, process);
                proof {
                    assert(self.processes@ =~= old(self).processes@.insert(
                        pid.0,
                        self.processes@[pid.0],
                    ));
                    Self::lemma_update_keeps_wf(old(self), self, pid);
                }
            },
            None => {},
        }
    }

    /// The place of the first program named `name` in the list of
    /// programs, or `None` where there is no list or no such program.
    pub open spec fn spec_find_app(&self, name: Seq<char>) -> Option<int> {
        match self.app_list {
            Some(list) => {
                let i = spec_name_index(list@, name);
                if i < list@.len() {
                    Some(i)
                } else {
                    None
                }
            },
            None => None,
        }
    }

    /// The place of the first program named `name` in the list of
    /// programs, or `None` where there is no list or no such program.
    pub fn find_app(&self, name: &String) -> (place: Option<usize>)
        ensures
            place is Some == self.spec_find_app(name@) is Some,
            place matches Some(i) ==> self.spec_find_app(name@) == Some(i as int),
    {
        let list = match &self.app_list {
            Some(list) => list,
            None => {
                return None;
            },
        };
        let mut i: usize = 0;
        while i < list.len()
            invariant
                0 <= i <= list.len(),
                self.app_list == Some(*list),
                forall|j: int| 0 <= j < i ==> (#[trigger] list@[j])@ != name@,
            decreases list.len() - i,
        {
            if list[i] == *name {
                proof {
                    lemma_name_index_is(list@, name@, i as int);
                }
                return Some(i);
            }
            i = i + 1;
        }
        proof {
            lemma_name_index_is(list@, name@, i as int);
        }
        None
    }

    /// The names of the programs that can be spawned.
    pub fn app_list(&self) -> (list: &Option<Vec<String>>)
        ensures
            *list == self.app_list,
    {
        &self.app_list
    }
}

} // verus!
