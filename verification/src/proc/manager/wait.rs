//! Waiting for a process to end, waking, and killing.

use vstd::prelude::*;
use std::collections::VecDeque;
use crate::proc::ProgramStatus;
use crate::proc::pid::ProcessId;
use crate::proc::process::{Process, spec_clean_up_of};
use crate::proc::vm::CleanUp;
use super::{AddressSpace, ProcessManager};

verus! {

/// The processes of `list` but `pid`, in their order.
pub open spec fn spec_without(list: Seq<ProcessId>, pid: ProcessId) -> Seq<ProcessId>
    decreases list.len(),
{
    if list.len() == 0 {
        list
    } else if list.last() == pid {
        spec_without(list.drop_last(), pid)
    } else {
        spec_without(list.drop_last(), pid).push(list.last())
    }
}

/// A list without `pid` holds the other processes of the list and no
/// others.
pub proof fn lemma_without(list: Seq<ProcessId>, pid: ProcessId)
    ensures
        forall|q: ProcessId| #[trigger]
            spec_without(list, pid).contains(q) <==> list.contains(q) && q != pid,
        spec_without(list, pid).len() <= list.len(),
    decreases list.len(),
{
    if list.len() > 0 {
        let front = list.drop_last();
        lemma_without(front, pid);
        let rest = spec_without(front, pid);
        assert forall|q: ProcessId| #[trigger]
            spec_without(list, pid).contains(q) <==> list.contains(q) && q != pid by {
            if spec_without(list, pid).contains(q) {
                if list.last() != pid {
                    let i = choose|i: int|
                        0 <= i < rest.push(list.last()).len() && rest.push(list.last())[i] == q;
                    if i < rest.len() {
                        assert(rest[i] == q);
                        assert(rest.contains(q));
                        let j = choose|j: int| 0 <= j < front.len() && front[j] == q;
                        assert(list[j] == q);
                    } else {
                        assert(list[list.len() - 1] == q);
                    }
                } else {
                    assert(rest.contains(q));
                    let j = choose|j: int| 0 <= j < front.len() && front[j] == q;
                    assert(list[j] == q);
                }
            }
            if list.contains(q) && q != pid {
                let j = choose|j: int| 0 <= j < list.len() && list[j] == q;
                if j < front.len() {
                    assert(front[j] == q);
                    assert(front.contains(q));
                    assert(rest.contains(q));
                    let i = choose|i: int| 0 <= i < rest.len() && rest[i] == q;
                    if list.last() != pid {
                        assert(rest.push(list.last())[i] == q);
                    }
                } else {
                    assert(list.last() == q);
                    assert(rest.push(q)[rest.len() as int] == q);
                }
            }
        }
    }
}

/// Whether the process `pid` of `procs` can be woken: it is blocked.
pub open spec fn spec_can_wake(procs: Map<u16, Process>, pid: ProcessId) -> bool {
    procs.contains_key(pid.0) && procs[pid.0].inner.status == ProgramStatus::Blocked
}

/// The processes `procs` after `pid` was woken with `ret`.
pub open spec fn spec_wake_procs(procs: Map<u16, Process>, pid: ProcessId, ret: Option<isize>)
    -> Map<u16, Process> {
    if spec_can_wake(procs, pid) {
        procs.insert(pid.0, Process { pid, inner: procs[pid.0].inner.spec_woken(ret) })
    } else {
        procs
    }
}

/// The ready queue `ready` after `pid` was woken among `procs`.
pub open spec fn spec_wake_ready(procs: Map<u16, Process>, ready: Seq<ProcessId>, pid: ProcessId)
    -> Seq<ProcessId> {
    if spec_can_wake(procs, pid) {
        ready.push(pid)
    } else {
        ready
    }
}

/// The processes `procs` after those of `waiters` were woken with `ret`,
/// one after the other.
pub open spec fn spec_wake_all_procs(
    procs: Map<u16, Process>,
    waiters: Seq<ProcessId>,
    ret: Option<isize>,
) -> Map<u16, Process>
    decreases waiters.len(),
{
    if waiters.len() == 0 {
        procs
    } else {
        spec_wake_procs(spec_wake_all_procs(procs, waiters.drop_last(), ret), waiters.last(), ret)
    }
}

/// The ready queue `ready` after the processes of `waiters` were woken
/// among `procs`, one after the other.
pub open spec fn spec_wake_all_ready(
    procs: Map<u16, Process>,
    ready: Seq<ProcessId>,
    waiters: Seq<ProcessId>,
    ret: Option<isize>,
) -> Seq<ProcessId>
    decreases waiters.len(),
{
    if waiters.len() == 0 {
        ready
    } else {
        spec_wake_ready(
            spec_wake_all_procs(procs, waiters.drop_last(), ret),
            spec_wake_all_ready(procs, ready, waiters.drop_last(), ret),
            waiters.last(),
        )
    }
}

/// Whether `list` holds `pid`.
pub fn vec_contains(list: &Vec<ProcessId>, pid: ProcessId) -> (found: bool)
    ensures
        found == list@.contains(pid),
{
    let mut i: usize = 0;
    while i < list.len()
        invariant
            0 <= i <= list.len(),
            forall|j: int| 0 <= j < i ==> list@[j] != pid,
        decreases list.len() - i,
    {
        if list[i] == pid {
            return true;
        }
        i = i + 1;
    }
    false
}

/// The processes of `list` but `pid`, in their order.
pub fn vec_without(list: &Vec<ProcessId>, pid: ProcessId) -> (rest: Vec<ProcessId>)
    ensures
        rest@ == spec_without(list@, pid),
{
    let mut rest: Vec<ProcessId> = Vec::new();
    let mut i: usize = 0;
    while i < list.len()
        invariant
            0 <= i <= list.len(),
            rest@ == spec_without(list@.take(i as int), pid),
        decreases list.len() - i,
    {
        assert(list@.take(i + 1).drop_last() =~= list@.take(i as int));
        if list[i] != pid {
            rest.push(list[i]);
        }
        i = i + 1;
    }
    assert(list@.take(i as int) =~= list@);
    rest
}

/// Takes `pid` out of `queue`, wherever it stands there; the others keep
/// their order.
pub fn deque_without(queue: &mut VecDeque<ProcessId>, pid: ProcessId)
    ensures
        final(queue)@ == spec_without(old(queue)@, pid),
{
    let n: usize = queue.len();
    let mut i: usize = 0;
    assert(old(queue)@.subrange(0, n as int) =~= old(queue)@);
    assert(old(queue)@.take(0) =~= Seq::<ProcessId>::empty());
    while i < n
        invariant
            0 <= i <= n,
            n == old(queue)@.len(),
            queue@ == old(queue)@.subrange(i as int, n as int) + spec_without(
                old(queue)@.take(i as int),
                pid,
            ),
        decreases n - i,
    {
        let ghost before = queue@;
        let ghost kept = spec_without(old(queue)@.take(i as int), pid);
        assert(old(queue)@.take(i + 1).drop_last() =~= old(queue)@.take(i as int));
        assert(old(queue)@.take(i + 1).last() == old(queue)@[i as int]);
        assert(before[0] == old(queue)@[i as int]);
        match queue.pop_front() {
            Some(first) => {
                assert(queue@ =~= old(queue)@.subrange(i + 1, n as int) + kept);
                if first != pid {
                    queue.push_back(first);
                    assert(queue@ =~= old(queue)@.subrange(i + 1, n as int) + kept.push(first));
                }
            },
            None => {},
        }
        i = i + 1;
    }
    assert(old(queue)@.take(n as int) =~= old(queue)@);
    assert(queue@ =~= spec_without(old(queue)@, pid));
}

impl ProcessManager {
    /// The processes that wait for `pid` to end, in the order in which
    /// they began to wait.
    pub open spec fn spec_waiters(&self, pid: ProcessId) -> Seq<ProcessId> {
        if self.wait_queue@.contains_key(pid.0) {
            self.wait_queue@[pid.0]@
        } else {
            Seq::empty()
        }
    }

    /// Puts the current process among those that wait for `pid` to end,
    /// behind those that wait already. A process that waits already is
    /// not put there twice. To block it and to let another run is for
    /// the caller.
    pub fn wait_pid(&mut self, pid: ProcessId)
        requires
            old(self).wf(),
        ensures
            final(self).wf(),
            final(self).spec_waiters(pid) == (if old(self).spec_waiters(pid).contains(
                old(self).current,
            ) {
                old(self).spec_waiters(pid)
            } else {
                old(self).spec_waiters(pid).push(old(self).current)
            }),
            final(self).wait_queue@.contains_key(pid.0),
            final(self).wait_queue@.remove(pid.0) == old(self).wait_queue@.remove(pid.0),
            final(self).processes@ == old(self).processes@,
            final(self).ready_queue@ == old(self).ready_queue@,
            final(self).spaces@ == old(self).spaces@,
            final(self).current == old(self).current,
            final(self).pids == old(self).pids,
            final(self).app_list == old(self).app_list,
    {
        let current = self.current;
        let mut list: Vec<ProcessId> = match self.wait_queue.remove(&pid.0) {
            Some(list) => list,
            None => Vec::new(),
        };
        if !vec_contains(&list, current) {
            list.push(current);
        }
        self.wait_queue.insert(pid.0, list);
        assert(self.wait_queue@.remove(pid.0) =~= old(self).wait_queue@.remove(pid.0));
        assert forall|t: u16, i: int|
            self.wait_queue@.contains_key(t) && 0 <= i < self.wait_queue@[t]@.len()
            implies self.processes@.contains_key((#[trigger] self.wait_queue@[t]@[i]).0) by {
            if t == pid.0 {
                if i < old(self).spec_waiters(pid).len() {
                    assert(self.wait_queue@[t]@[i] == old(self).wait_queue@[t]@[i]);
                }
            } else {
                assert(self.wait_queue@[t] == old(self).wait_queue@[t]);
            }
        }
    }

    /// Wakes the process `pid`.
    ///
    /// A blocked process becomes ready and joins the end of the ready
    /// queue; where `ret` holds a value, the process finds it as the
    /// result of the system call in which it was blocked. Nothing happens
    /// where there is no such process or it is not blocked.
    pub fn wake_up(&mut self, pid: ProcessId, ret: Option<isize>)
        requires
            old(self).wf(),
        ensures
            final(self).wf(),
            final(self).processes@ == spec_wake_procs(old(self).processes@, pid, ret),
            final(self).ready_queue@ == spec_wake_ready(
                old(self).processes@,
                old(self).ready_queue@,
                pid,
            ),
            final(self).wait_queue@ == old(self).wait_queue@,
            final(self).spaces@ == old(self).spaces@,
            final(self).current == old(self).current,
            final(self).pids == old(self).pids,
            final(self).app_list == old(self).app_list,
    {
        let blocked = match self.processes.get(&pid.0) {
            Some(process) => process.inner.status() == ProgramStatus::Blocked,
            None => false,
        };
        if !blocked {
            return ;
        }
        match self.processes.remove(&pid.0) {
            Some(process) => {
                let mut process = process;
                match ret {
                    Some(ret) => {
                        process.inner.set_rax(#[verifier::truncate] (ret as usize));
                    },
                    None => {},
                }
                process.inner.pause();
                self.processes.insert(pid.0, process);
                proof {
                    assert(self.processes@ =~= old(self).processes@.insert(
                        pid.0,
                        self.processes@[pid.0],
                    ));
                    Self::lemma_update_keeps_wf(old(self), self, pid);
                }
                self.push_ready(pid);
            },
            None => {},
        }
    }

    /// Ends the process `pid` with the exit code `ret`.
    ///
    /// Nothing happens, and the result is `None`, where there is no such
    /// process or it is dead already: its exit code stays what it was.
    ///
    /// Else the process becomes dead and keeps `ret` as its exit code. It
    /// gives up its data, its page table and its address space; the
    /// result names what the caller has to unmap and free, which depends
    /// on whether other processes still use the page table. The process
    /// leaves the users of its address space, and the address space goes
    /// with its last user. Every process that waits for `pid` is woken
    /// with `ret`, in the order in which they began to wait, and the list
    /// of those that wait for `pid` is taken away. The process stays in
    /// the table and leaves the ready queue, where the others keep their
    /// order.
    pub fn kill(&mut self, pid: ProcessId, ret: isize) -> (freed: Option<CleanUp>)
        requires
            old(self).wf(),
        ensures
            final(self).wf(),
            final(self).current == old(self).current,
            final(self).pids == old(self).pids,
            final(self).app_list == old(self).app_list,
            !old(self).spec_alive(pid.0) ==> freed is None && Self::spec_unchanged(
                old(self),
                final(self),
            ),
            old(self).spec_alive(pid.0) ==> Self::spec_killed(old(self), final(self), pid, ret),
            old(self).spec_alive(pid.0) ==> freed is Some && spec_clean_up_of(
                old(self).processes@[pid.0].inner.proc_vm->0,
                old(self).spaces@[old(self).spec_space_of(pid.0)].users@.len() as usize,
                freed->0,
            ),
    {
        let found: Option<u64> = match self.processes.get(&pid.0) {
            Some(process) => match &process.inner.proc_vm {
                Some(vm) => Some(vm.page_table.addr),
                None => None,
            },
            None => None,
        };
        let addr: u64 = match found {
            Some(addr) => addr,
            None => {
                return None;
            },
        };
        assert(old(self).spec_alive(pid.0));
        assert(old(self).spaces@.contains_key(addr));
        let using_count: usize = match self.spaces.get(&addr) {
            Some(space) => space.users.len(),
            None => 0,
        };
        let freed = match self.processes.remove(&pid.0) {
            Some(process) => {
                let mut process = process;
                let freed = process.kill(ret, using_count);
                self.processes.insert(pid.0, process);
                freed
            },
            None => None,
        };
        let ghost dead = old(self).processes@.insert(
            pid.0,
            Process { pid, inner: old(self).processes@[pid.0].inner.spec_killed(ret) },
        );
        assert(self.processes@ =~= dead);
        deque_without(&mut self.ready_queue, pid);
        let ghost queued = spec_without(old(self).ready_queue@, pid);
        proof {
            lemma_without(old(self).ready_queue@, pid);
            assert forall|i: int| 0 <= i < queued.len() implies self.processes@.contains_key(
                (#[trigger] queued[i]).0,
            ) by {
                assert(queued.contains(queued[i]));
                assert(old(self).ready_queue@.contains(queued[i]));
                let j = choose|j: int|
                    0 <= j < old(self).ready_queue@.len() && old(self).ready_queue@[j]
                        == queued[i];
                assert(old(self).processes@.contains_key(old(self).ready_queue@[j].0));
            }
        }
        match self.spaces.remove(&addr) {
            Some(space) => {
                let users = vec_without(&space.users, pid);
                if users.len() > 0 {
                    self.spaces.insert(addr, AddressSpace { users, semaphores: space.semaphores });
                }
            },
            None => {},
        }
        let ghost users = old(self).spaces@[addr].users@;
        proof {
            lemma_without(users, pid);
            if spec_without(users, pid).len() == 0 {
                assert(self.spaces@ =~= old(self).spaces@.remove(addr));
            } else {
                assert(self.spaces@.remove(addr) =~= old(self).spaces@.remove(addr));
            }
            assert forall|k: u16| #[trigger]
                self.processes@.contains_key(k) implies self.processes@[k].pid.0 == k
                && self.processes@[k].wf() && (self.processes@[k].inner.alive()
                ==> self.spaces@.contains_key(self.spec_space_of(k))
                && self.spaces@[self.spec_space_of(k)].users@.contains(ProcessId(k))) by {
                assert(old(self).processes@.contains_key(k));
                if k != pid.0 && self.processes@[k].inner.alive() {
                    assert(self.processes@[k] == old(self).processes@[k]);
                    if old(self).spec_space_of(k) == addr {
                        assert(users.contains(ProcessId(k)));
                        assert(spec_without(users, pid).contains(ProcessId(k)));
                    }
                }
            }
            assert forall|t: u16, i: int|
                self.wait_queue@.contains_key(t) && 0 <= i < self.wait_queue@[t]@.len()
                implies self.processes@.contains_key((#[trigger] self.wait_queue@[t]@[i]).0) by {
                assert(old(self).processes@.contains_key(old(self).wait_queue@[t]@[i].0));
            }
            assert(self.wf());
        }
        let waiters: Vec<ProcessId> = match self.wait_queue.remove(&pid.0) {
            Some(list) => list,
            None => Vec::new(),
        };
        assert(waiters@ == old(self).spec_waiters(pid));
        proof {
            assert(self.wait_queue@ =~= old(self).wait_queue@.remove(pid.0));
            assert forall|t: u16, i: int|
                self.wait_queue@.contains_key(t) && 0 <= i < self.wait_queue@[t]@.len()
                implies self.processes@.contains_key((#[trigger] self.wait_queue@[t]@[i]).0) by {
                assert(old(self).processes@.contains_key(old(self).wait_queue@[t]@[i].0));
            }
            assert(self.wf());
        }
        let ghost spaces_after = self.spaces@;
        proof {
            let rest = spec_without(users, pid);
            assert(spaces_after.remove(addr) =~= old(self).spaces@.remove(addr));
            assert(spaces_after.contains_key(addr) == (rest.len() > 0));
            if rest.len() > 0 {
                assert(spaces_after[addr].users@ == rest);
                assert(spaces_after[addr].semaphores == old(self).spaces@[addr].semaphores);
            }
        }
        let mut i: usize = 0;
        while i < waiters.len()
            invariant
                0 <= i <= waiters.len(),
                self.wf(),
                self.processes@ == spec_wake_all_procs(dead, waiters@.take(i as int), Some(ret)),
                self.ready_queue@ == spec_wake_all_ready(
                    dead,
                    queued,
                    waiters@.take(i as int),
                    Some(ret),
                ),
                self.wait_queue@ == old(self).wait_queue@.remove(pid.0),
                self.spaces@ == spaces_after,
                self.current == old(self).current,
                self.pids == old(self).pids,
                self.app_list == old(self).app_list,
            decreases waiters.len() - i,
        {
            assert(waiters@.take(i + 1).drop_last() =~= waiters@.take(i as int));
            self.wake_up(waiters[i], Some(ret));
            i = i + 1;
        }
        assert(waiters@.take(i as int) =~= waiters@);
        freed
    }

    /// Whether `after` is `before` with the living process `pid` ended
    /// with the exit code `ret`.
    pub open spec fn spec_killed(
        before: &ProcessManager,
        after: &ProcessManager,
        pid: ProcessId,
        ret: isize,
    ) -> bool {
        let addr = before.spec_space_of(pid.0);
        let users = spec_without(before.spaces@[addr].users@, pid);
        let dead = before.processes@.insert(
            pid.0,
            Process { pid, inner: before.processes@[pid.0].inner.spec_killed(ret) },
        );
        let waiters = before.spec_waiters(pid);
        &&& after.processes@ == spec_wake_all_procs(dead, waiters, Some(ret))
        &&& after.ready_queue@ == spec_wake_all_ready(
            dead,
            spec_without(before.ready_queue@, pid),
            waiters,
            Some(ret),
        )
        &&& after.wait_queue@ == before.wait_queue@.remove(pid.0)
        &&& after.spaces@.remove(addr) == before.spaces@.remove(addr)
        &&& after.spaces@.contains_key(addr) == (users.len() > 0)
        &&& users.len() > 0 ==> after.spaces@[addr].users@ == users && after.spaces@[addr].semaphores
            == before.spaces@[addr].semaphores
    }

    /// Ends the current process with the exit code `ret`, as
    /// [`ProcessManager::kill`] does.
    pub fn kill_current(&mut self, ret: isize) -> (freed: Option<CleanUp>)
        requires
            old(self).wf(),
        ensures
            final(self).wf(),
            final(self).current == old(self).current,
            final(self).pids == old(self).pids,
            final(self).app_list == old(self).app_list,
            !old(self).spec_alive(old(self).current.0) ==> freed is None && Self::spec_unchanged(
                old(self),
                final(self),
            ),
            old(self).spec_alive(old(self).current.0) ==> Self::spec_killed(
                old(self),
                final(self),
                old(self).current,
                ret,
            ),
            old(self).spec_alive(old(self).current.0) ==> freed is Some && spec_clean_up_of(
                old(self).processes@[old(self).current.0].inner.proc_vm->0,
                old(self).spaces@[old(self).spec_space_of(old(self).current.0)].users@.len() as usize,
                freed->0,
            ),
    {
        let pid = self.current;
        self.kill(pid, ret)
    }
}

} // verus!
