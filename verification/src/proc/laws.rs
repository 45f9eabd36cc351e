//! What holds of the process table whatever is done with it.

use vstd::prelude::*;
use super::ProgramStatus;
use super::context::ProcessContext;
use super::manager::{
    spec_can_wake,
    spec_scheduled,
    spec_wake_all_procs,
    spec_wake_all_ready,
    spec_wake_procs,
    spec_wake_ready,
    Image,
    ProcessManager,
};
use super::pid::ProcessId;
use super::process::Process;
use super::manager::{spec_popped, spec_put, spec_switched_procs};
use super::{
    spec_exit,
    spec_fork,
    spec_sem_signal,
    spec_sem_wait,
    spec_spawned_by,
    spec_switch,
    spec_switch_next,
    spec_wait_pid,
};
use super::sync::SemaphoreResult;
use super::vm::CleanUp;

verus! {

/// Whether each process of the ready queue `ready` is in the table
/// `procs` and ready.
pub open spec fn spec_queue_ready(procs: Map<u16, Process>, ready: Seq<ProcessId>) -> bool {
    forall|i: int|
        0 <= i < ready.len() ==> procs.contains_key((#[trigger] ready[i]).0)
            && procs[ready[i].0].inner.status == ProgramStatus::Ready
}

/// Whether the ready queue `ready` is in order among the processes
/// `procs`: no process stands in it twice, and each of its processes is in
/// the table and ready.
pub open spec fn spec_ready_in_order(procs: Map<u16, Process>, ready: Seq<ProcessId>) -> bool {
    &&& ready.no_duplicates()
    &&& spec_queue_ready(procs, ready)
}

/// Whether `after` is what [`ProcessManager::kill`] makes of `before`.
pub open spec fn spec_kill(
    before: &ProcessManager,
    after: &ProcessManager,
    pid: ProcessId,
    ret: isize,
) -> bool {
    &&& after.current == before.current
    &&& after.pids == before.pids
    &&& if before.spec_alive(pid.0) {
        ProcessManager::spec_killed(before, after, pid, ret)
    } else {
        ProcessManager::spec_unchanged(before, after)
    }
}

/// No two processes of a table have the same identifier.
pub proof fn lemma_pids_are_unique(manager: &ProcessManager, j: u16, k: u16)
    requires
        manager.wf(),
        manager.processes@.contains_key(j),
        manager.processes@.contains_key(k),
        manager.processes@[j].pid == manager.processes@[k].pid,
    ensures
        j == k,
{
}

/// Waking some processes changes those of them that are blocked, and no
/// others: a process that is not blocked, or not among them, stays as it
/// is, and a blocked one among them is woken.
pub proof fn lemma_wake_all(
    procs: Map<u16, Process>,
    ready: Seq<ProcessId>,
    waiters: Seq<ProcessId>,
    ret: Option<isize>,
    k: u16,
)
    requires
        forall|j: u16| #[trigger] procs.contains_key(j) ==> procs[j].pid.0 == j,
    ensures
        spec_wake_all_procs(procs, waiters, ret).dom() == procs.dom(),
        forall|j: u16| #[trigger]
            procs.contains_key(j) ==> spec_wake_all_procs(procs, waiters, ret)[j].pid.0 == j,
        procs.contains_key(k) && (procs[k].inner.status != ProgramStatus::Blocked
            || !waiters.contains(ProcessId(k))) ==> spec_wake_all_procs(procs, waiters, ret)[k]
            == procs[k],
        procs.contains_key(k) && procs[k].inner.status == ProgramStatus::Blocked
            && waiters.contains(ProcessId(k)) ==> spec_wake_all_procs(procs, waiters, ret)[k] == (
        Process { pid: ProcessId(k), inner: procs[k].inner.spec_woken(ret) }),
    decreases waiters.len(),
{
    if waiters.len() > 0 {
        let front = waiters.drop_last();
        let last = waiters.last();
        let before = spec_wake_all_procs(procs, front, ret);
        lemma_wake_all(procs, ready, front, ret, k);
        lemma_wake_all(procs, ready, front, ret, last.0);
        assert(spec_wake_all_procs(procs, waiters, ret).dom() =~= procs.dom());
        assert forall|j: u16| #[trigger] procs.contains_key(j) implies spec_wake_all_procs(
            procs,
            waiters,
            ret,
        )[j].pid.0 == j by {
            lemma_wake_all(procs, ready, front, ret, j);
        }
        if procs.contains_key(k) {
            if waiters.contains(ProcessId(k)) {
                if last != ProcessId(k) {
                    let i = choose|i: int| 0 <= i < waiters.len() && waiters[i] == ProcessId(k);
                    assert(front[i] == ProcessId(k));
                } else {
                    assert(procs[k].inner.spec_woken(ret).status != ProgramStatus::Blocked);
                }
            } else {
                if front.contains(ProcessId(k)) {
                    let i = choose|i: int| 0 <= i < front.len() && front[i] == ProcessId(k);
                    assert(waiters[i] == ProcessId(k));
                }
                assert(last == waiters[waiters.len() - 1]);
            }
        }
    }
}

/// Waking blocked processes keeps a ready queue in order: each process
/// that is woken is ready, was not in the queue, and joins it once.
pub proof fn lemma_wake_all_keeps_order(
    procs: Map<u16, Process>,
    ready: Seq<ProcessId>,
    waiters: Seq<ProcessId>,
    ret: Option<isize>,
)
    requires
        forall|j: u16| #[trigger] procs.contains_key(j) ==> procs[j].pid.0 == j,
        spec_ready_in_order(procs, ready),
    ensures
        spec_ready_in_order(
            spec_wake_all_procs(procs, waiters, ret),
            spec_wake_all_ready(procs, ready, waiters, ret),
        ),
        forall|p: ProcessId|
            ready.contains(p) ==> (#[trigger] spec_wake_all_ready(procs, ready, waiters, ret).contains(
                p,
            )),
    decreases waiters.len(),
{
    if waiters.len() > 0 {
        let front = waiters.drop_last();
        let last = waiters.last();
        let procs1 = spec_wake_all_procs(procs, front, ret);
        let ready1 = spec_wake_all_ready(procs, ready, front, ret);
        lemma_wake_all_keeps_order(procs, ready, front, ret);
        lemma_wake_all(procs, ready, front, ret, last.0);
        let procs2 = spec_wake_procs(procs1, last, ret);
        let ready2 = spec_wake_ready(procs1, ready1, last);
        if spec_can_wake(procs1, last) {
            assert(!ready1.contains(last)) by {
                if ready1.contains(last) {
                    let i = choose|i: int| 0 <= i < ready1.len() && ready1[i] == last;
                    assert(procs1[ready1[i].0].inner.status == ProgramStatus::Ready);
                }
            }
            assert(ready2.no_duplicates()) by {
                assert forall|i: int, j: int|
                    0 <= i < ready2.len() && 0 <= j < ready2.len() && i != j implies ready2[i]
                    != ready2[j] by {
                    if i < ready1.len() && j < ready1.len() {
                    } else if i < ready1.len() {
                        assert(ready1.contains(ready1[i]));
                    } else {
                        assert(ready1.contains(ready1[j]));
                    }
                }
            }
            assert forall|i: int| 0 <= i < ready2.len() implies procs2.contains_key(
                (#[trigger] ready2[i]).0,
            ) && procs2[ready2[i].0].inner.status == ProgramStatus::Ready by {
                if i < ready1.len() {
                    assert(ready2[i] == ready1[i]);
                    assert(ready1.contains(ready1[i]));
                }
            }
            assert forall|p: ProcessId| ready.contains(p) implies ready2.contains(p) by {
                assert(ready1.contains(p));
                let i = choose|i: int| 0 <= i < ready1.len() && ready1[i] == p;
                assert(ready2[i] == p);
            }
        }
    }
}

/// Waking processes keeps every process of the ready queue ready: each
/// process that is woken is ready when it joins the queue.
pub proof fn lemma_wake_all_keeps_ready(
    procs: Map<u16, Process>,
    ready: Seq<ProcessId>,
    waiters: Seq<ProcessId>,
    ret: Option<isize>,
)
    requires
        forall|j: u16| #[trigger] procs.contains_key(j) ==> procs[j].pid.0 == j,
        spec_queue_ready(procs, ready),
    ensures
        spec_queue_ready(
            spec_wake_all_procs(procs, waiters, ret),
            spec_wake_all_ready(procs, ready, waiters, ret),
        ),
    decreases waiters.len(),
{
    if waiters.len() > 0 {
        let front = waiters.drop_last();
        let last = waiters.last();
        let procs1 = spec_wake_all_procs(procs, front, ret);
        let ready1 = spec_wake_all_ready(procs, ready, front, ret);
        lemma_wake_all_keeps_ready(procs, ready, front, ret);
        lemma_wake_all(procs, ready, front, ret, last.0);
        let procs2 = spec_wake_procs(procs1, last, ret);
        let ready2 = spec_wake_ready(procs1, ready1, last);
        if spec_can_wake(procs1, last) {
            assert forall|i: int| 0 <= i < ready2.len() implies procs2.contains_key(
                (#[trigger] ready2[i]).0,
            ) && procs2[ready2[i].0].inner.status == ProgramStatus::Ready by {
                if i < ready1.len() {
                    assert(ready2[i] == ready1[i]);
                }
            }
        }
    }
}

/// Waking puts no process into the ready queue that is not blocked.
pub proof fn lemma_unblocked_is_not_queued(
    procs: Map<u16, Process>,
    ready: Seq<ProcessId>,
    waiters: Seq<ProcessId>,
    ret: Option<isize>,
    other: ProcessId,
)
    requires
        forall|j: u16| #[trigger] procs.contains_key(j) ==> procs[j].pid.0 == j,
        !spec_can_wake(procs, other),
    ensures
        spec_wake_all_ready(procs, ready, waiters, ret).contains(other) ==> ready.contains(other),
        spec_count(spec_wake_all_ready(procs, ready, waiters, ret), other) == spec_count(
            ready,
            other,
        ),
    decreases waiters.len(),
{
    if waiters.len() > 0 {
        let front = waiters.drop_last();
        let last = waiters.last();
        let procs1 = spec_wake_all_procs(procs, front, ret);
        let ready1 = spec_wake_all_ready(procs, ready, front, ret);
        let ready2 = spec_wake_ready(procs1, ready1, last);
        lemma_unblocked_is_not_queued(procs, ready, front, ret, other);
        lemma_wake_all(procs, ready, front, ret, other.0);
        assert(procs1.dom() == procs.dom());
        assert(procs.contains_key(other.0) == procs1.contains_key(other.0));
        assert(!spec_can_wake(procs1, other));
        assert(ready1.push(last).drop_last() =~= ready1);
        if ready2.contains(other) {
            let i = choose|i: int| 0 <= i < ready2.len() && ready2[i] == other;
            if i < ready1.len() {
                assert(ready1[i] == other);
                assert(ready1.contains(other));
            }
        }
    }
}

/// A queue without a process holds that process no more, and each other
/// process as often as before.
pub proof fn lemma_without_counts(list: Seq<ProcessId>, pid: ProcessId, other: ProcessId)
    ensures
        spec_count(super::manager::spec_without(list, pid), pid) == 0,
        other != pid ==> spec_count(super::manager::spec_without(list, pid), other) == spec_count(
            list,
            other,
        ),
    decreases list.len(),
{
    if list.len() > 0 {
        let front = list.drop_last();
        lemma_without_counts(front, pid, other);
        let rest = super::manager::spec_without(front, pid);
        assert(rest.push(list.last()).drop_last() =~= rest);
    }
}

/// A queue in which no process stands twice stays so without one of
/// them.
pub proof fn lemma_without_keeps_once(list: Seq<ProcessId>, pid: ProcessId)
    requires
        list.no_duplicates(),
    ensures
        super::manager::spec_without(list, pid).no_duplicates(),
    decreases list.len(),
{
    if list.len() > 0 {
        let front = list.drop_last();
        let rest = super::manager::spec_without(front, pid);
        lemma_without_keeps_once(front, pid);
        super::manager::lemma_without(front, pid);
        if list.last() != pid {
            let longer = rest.push(list.last());
            assert(!rest.contains(list.last())) by {
                if rest.contains(list.last()) {
                    assert(front.contains(list.last()));
                    let j = choose|j: int| 0 <= j < front.len() && front[j] == list.last();
                    assert(list[j] == list[list.len() - 1]);
                }
            }
            assert forall|i: int, j: int|
                0 <= i < longer.len() && 0 <= j < longer.len() && i != j implies longer[i]
                != longer[j] by {
                if i < rest.len() && j < rest.len() {
                } else if i < rest.len() {
                    assert(rest.contains(rest[i]));
                } else {
                    assert(rest.contains(rest[j]));
                }
            }
        }
    }
}

/// Spawning keeps every process of the ready queue ready: the new process
/// is ready when it joins the queue. Its identifier named no process of
/// the table.
pub proof fn lemma_spawn_keeps_ready(
    before: &ProcessManager,
    after: &ProcessManager,
    new: ProcessId,
    image: Image,
    name: Seq<char>,
)
    requires
        before.wf(),
        spec_queue_ready(before.processes@, before.ready_queue@),
        spec_spawned_by(before, after, new, image, name),
    ensures
        spec_queue_ready(after.processes@, after.ready_queue@),
        !before.processes@.contains_key(new.0),
        !before.ready_queue@.contains(new),
{
    let ready = before.ready_queue@;
    assert(!ready.contains(new)) by {
        if ready.contains(new) {
            let i = choose|i: int| 0 <= i < ready.len() && ready[i] == new;
            assert(before.processes@.contains_key(ready[i].0));
        }
    }
    let ready2 = after.ready_queue@;
    assert forall|i: int| 0 <= i < ready2.len() implies after.processes@.contains_key(
        (#[trigger] ready2[i]).0,
    ) && after.processes@[ready2[i].0].inner.status == ProgramStatus::Ready by {
        if i < ready.len() {
            assert(ready2[i] == ready[i]);
            assert(ready.contains(ready[i]));
        }
    }
}

/// Spawning keeps the ready queue in order: the new process is ready and
/// joins the queue, in which it did not stand.
pub proof fn lemma_spawn_keeps_order(
    before: &ProcessManager,
    after: &ProcessManager,
    new: ProcessId,
    image: Image,
    name: Seq<char>,
)
    requires
        before.wf(),
        spec_ready_in_order(before.processes@, before.ready_queue@),
        spec_spawned_by(before, after, new, image, name),
    ensures
        spec_ready_in_order(after.processes@, after.ready_queue@),
        !before.processes@.contains_key(new.0),
{
    lemma_spawn_keeps_ready(before, after, new, image, name);
    let ready = before.ready_queue@;
    let ready2 = after.ready_queue@;
    assert forall|i: int, j: int|
        0 <= i < ready2.len() && 0 <= j < ready2.len() && i != j implies ready2[i] != ready2[j] by {
        if i < ready.len() && j < ready.len() {
        } else if i < ready.len() {
            assert(ready.contains(ready[i]));
        } else {
            assert(ready.contains(ready[j]));
        }
    }
}

/// Forking keeps every process of the ready queue ready: parent and child
/// are ready when they join the queue. The child's identifier named no
/// process of the table.
pub proof fn lemma_fork_keeps_ready(
    before: &ProcessManager,
    after: &ProcessManager,
    child: ProcessId,
    failed: u64,
)
    requires
        before.wf(),
        spec_queue_ready(before.processes@, before.ready_queue@),
        ProcessManager::spec_forked(before, after, child, failed),
    ensures
        spec_queue_ready(after.processes@, after.ready_queue@),
        !before.processes@.contains_key(child.0),
        !before.ready_queue@.contains(child),
        child != before.current,
{
    super::manager::lemma_free_pid(
        before.processes@,
        before.pids.next,
        super::manager::PID_TRIES as nat,
    );
    let parent = before.current;
    let ready = before.ready_queue@;
    assert(!ready.contains(child)) by {
        if ready.contains(child) {
            let i = choose|i: int| 0 <= i < ready.len() && ready[i] == child;
            assert(before.processes@.contains_key(ready[i].0));
        }
    }
    let ready2 = after.ready_queue@;
    assert(ready2.len() == ready.len() + 2);
    assert(ready2[ready.len() as int] == parent);
    assert(ready2[ready.len() as int + 1] == child);
    assert forall|i: int| 0 <= i < ready2.len() implies after.processes@.contains_key(
        (#[trigger] ready2[i]).0,
    ) && after.processes@[ready2[i].0].inner.status == ProgramStatus::Ready by {
        if i < ready.len() {
            assert(ready2[i] == ready[i]);
            assert(ready.contains(ready[i]));
        }
    }
}

/// Forking keeps the ready queue in order, where the process that forks
/// does not stand in it: parent and child are ready and join the queue
/// once.
pub proof fn lemma_fork_keeps_order(
    before: &ProcessManager,
    after: &ProcessManager,
    child: ProcessId,
    failed: u64,
)
    requires
        before.wf(),
        spec_ready_in_order(before.processes@, before.ready_queue@),
        !before.ready_queue@.contains(before.current),
        ProcessManager::spec_forked(before, after, child, failed),
    ensures
        spec_ready_in_order(after.processes@, after.ready_queue@),
        !before.processes@.contains_key(child.0),
{
    lemma_fork_keeps_ready(before, after, child, failed);
    let parent = before.current;
    let ready = before.ready_queue@;
    let ready2 = after.ready_queue@;
    assert(ready2.len() == ready.len() + 2);
    assert(ready2[ready.len() as int] == parent);
    assert(ready2[ready.len() as int + 1] == child);
    assert forall|i: int, j: int|
        0 <= i < ready2.len() && 0 <= j < ready2.len() && i != j implies ready2[i] != ready2[j] by {
        if i < ready.len() {
            assert(ready2[i] == ready[i]);
            assert(ready.contains(ready[i]));
        }
        if j < ready.len() {
            assert(ready2[j] == ready[j]);
            assert(ready.contains(ready[j]));
        }
    }
}

/// The ready queue of a table after a living process was killed, before
/// those that waited for it are woken: each of its processes is ready
/// where each was so before, and none stands there twice where none did
/// so before.
pub proof fn lemma_kill_takes_out(before: &ProcessManager, pid: ProcessId, ret: isize)
    requires
        before.wf(),
        before.spec_alive(pid.0),
    ensures
        spec_queue_ready(before.processes@, before.ready_queue@) ==> spec_queue_ready(
            before.processes@.insert(
                pid.0,
                Process { pid, inner: before.processes@[pid.0].inner.spec_killed(ret) },
            ),
            super::manager::spec_without(before.ready_queue@, pid),
        ),
        before.ready_queue@.no_duplicates() ==> super::manager::spec_without(
            before.ready_queue@,
            pid,
        ).no_duplicates(),
        !super::manager::spec_without(before.ready_queue@, pid).contains(pid),
{
    let ready = before.ready_queue@;
    let queued = super::manager::spec_without(ready, pid);
    let dead = before.processes@.insert(
        pid.0,
        Process { pid, inner: before.processes@[pid.0].inner.spec_killed(ret) },
    );
    super::manager::lemma_without(ready, pid);
    if ready.no_duplicates() {
        lemma_without_keeps_once(ready, pid);
    }
    if spec_queue_ready(before.processes@, ready) {
        assert forall|i: int| 0 <= i < queued.len() implies dead.contains_key(
            (#[trigger] queued[i]).0,
        ) && dead[queued[i].0].inner.status == ProgramStatus::Ready by {
            assert(queued.contains(queued[i]));
            assert(ready.contains(queued[i]));
            let j = choose|j: int| 0 <= j < ready.len() && ready[j] == queued[i];
            assert(before.processes@[ready[j].0].inner.status == ProgramStatus::Ready);
        }
    }
}

/// Killing a process keeps every process of the ready queue ready: the
/// process that is killed leaves the queue, and those that waited for it
/// are ready when they join it.
pub proof fn lemma_kill_keeps_ready(
    before: &ProcessManager,
    after: &ProcessManager,
    pid: ProcessId,
    ret: isize,
)
    requires
        before.wf(),
        spec_queue_ready(before.processes@, before.ready_queue@),
        spec_kill(before, after, pid, ret),
    ensures
        spec_queue_ready(after.processes@, after.ready_queue@),
{
    if before.spec_alive(pid.0) {
        let dead = before.processes@.insert(
            pid.0,
            Process { pid, inner: before.processes@[pid.0].inner.spec_killed(ret) },
        );
        lemma_kill_takes_out(before, pid, ret);
        assert forall|j: u16| #[trigger] dead.contains_key(j) implies dead[j].pid.0 == j by {
            if j != pid.0 {
                assert(before.processes@.contains_key(j));
            }
        }
        lemma_wake_all_keeps_ready(
            dead,
            super::manager::spec_without(before.ready_queue@, pid),
            before.spec_waiters(pid),
            Some(ret),
        );
    }
}

/// Killing a process keeps the ready queue in order: the process that is
/// killed leaves the queue, and those that waited for it are ready and
/// join it once.
pub proof fn lemma_kill_keeps_order(
    before: &ProcessManager,
    after: &ProcessManager,
    pid: ProcessId,
    ret: isize,
)
    requires
        before.wf(),
        spec_ready_in_order(before.processes@, before.ready_queue@),
        spec_kill(before, after, pid, ret),
    ensures
        spec_ready_in_order(after.processes@, after.ready_queue@),
{
    if before.spec_alive(pid.0) {
        let dead = before.processes@.insert(
            pid.0,
            Process { pid, inner: before.processes@[pid.0].inner.spec_killed(ret) },
        );
        lemma_kill_takes_out(before, pid, ret);
        assert forall|j: u16| #[trigger] dead.contains_key(j) implies dead[j].pid.0 == j by {
            if j != pid.0 {
                assert(before.processes@.contains_key(j));
            }
        }
        lemma_wake_all_keeps_order(
            dead,
            super::manager::spec_without(before.ready_queue@, pid),
            before.spec_waiters(pid),
            Some(ret),
        );
    }
}

/// A process that was killed stands in the ready queue no more, and the
/// other processes that stood there stand there as before, in their
/// order, before those that were woken.
pub proof fn lemma_killed_leaves_queue(
    before: &ProcessManager,
    after: &ProcessManager,
    pid: ProcessId,
    ret: isize,
)
    requires
        before.wf(),
        before.spec_alive(pid.0),
        spec_kill(before, after, pid, ret),
    ensures
        !after.ready_queue@.contains(pid),
        after.processes@[pid.0].inner.status == ProgramStatus::Dead,
        after.processes@.dom() == before.processes@.dom(),
        super::manager::spec_without(before.ready_queue@, pid).is_prefix_of(after.ready_queue@),
{
    let dead = before.processes@.insert(
        pid.0,
        Process { pid, inner: before.processes@[pid.0].inner.spec_killed(ret) },
    );
    let queued = super::manager::spec_without(before.ready_queue@, pid);
    let waiters = before.spec_waiters(pid);
    lemma_kill_takes_out(before, pid, ret);
    assert forall|j: u16| #[trigger] dead.contains_key(j) implies dead[j].pid.0 == j by {
        if j != pid.0 {
            assert(before.processes@.contains_key(j));
        }
    }
    lemma_unblocked_is_not_queued(dead, queued, waiters, Some(ret), pid);
    lemma_wake_all(dead, queued, waiters, Some(ret), pid.0);
    assert(dead.dom() =~= before.processes@.dom());
    lemma_wake_all_goes_on(dead, queued, waiters, Some(ret));
}

/// Waking processes leaves the ready queue as it was and puts the woken
/// behind it.
pub proof fn lemma_wake_all_goes_on(
    procs: Map<u16, Process>,
    ready: Seq<ProcessId>,
    waiters: Seq<ProcessId>,
    ret: Option<isize>,
)
    ensures
        ready.is_prefix_of(spec_wake_all_ready(procs, ready, waiters, ret)),
    decreases waiters.len(),
{
    if waiters.len() > 0 {
        lemma_wake_all_goes_on(procs, ready, waiters.drop_last(), ret);
    }
}

/// The scheduler keeps the ready queue in order: the process that it lets
/// run leaves the queue, and no process of the queue is running.
pub proof fn lemma_switch_next_keeps_order(
    before: &ProcessManager,
    after: &ProcessManager,
    context_before: ProcessContext,
    context_after: ProcessContext,
)
    requires
        before.wf(),
        spec_ready_in_order(before.processes@, before.ready_queue@),
        spec_switch_next(before, after, context_before, context_after),
    ensures
        spec_ready_in_order(after.processes@, after.ready_queue@),
        !after.ready_queue@.contains(after.current) || after.current == before.current,
        before.ready_queue@.len() > 0 ==> after.current == before.ready_queue@[0]
            && after.processes@[after.current.0].inner.status == ProgramStatus::Running,
{
    let ready = before.ready_queue@;
    let ready2 = after.ready_queue@;
    if ready.len() > 0 {
        let next = ready[0];
        assert(before.processes@[next.0].inner.status == ProgramStatus::Ready);
        assert forall|i: int| 0 <= i < ready2.len() implies after.processes@.contains_key(
            (#[trigger] ready2[i]).0,
        ) && after.processes@[ready2[i].0].inner.status == ProgramStatus::Ready by {
            assert(ready2[i] == ready[i + 1]);
        }
        assert(!ready2.contains(next)) by {
            if ready2.contains(next) {
                let i = choose|i: int| 0 <= i < ready2.len() && ready2[i] == next;
                assert(ready[i + 1] == next);
            }
        }
    }
}

/// A second kill of a process changes nothing: the process keeps the
/// exit code of the first.
pub proof fn lemma_kill_is_idempotent(
    before: &ProcessManager,
    killed: &ProcessManager,
    again: &ProcessManager,
    pid: ProcessId,
    first: isize,
    second: isize,
)
    requires
        before.wf(),
        spec_kill(before, killed, pid, first),
        spec_kill(killed, again, pid, second),
    ensures
        ProcessManager::spec_unchanged(killed, again),
        again.spec_exit_code(pid) == killed.spec_exit_code(pid),
        before.spec_alive(pid.0) ==> again.spec_exit_code(pid) == Some(first),
        !killed.spec_alive(pid.0),
{
    if before.spec_alive(pid.0) {
        let dead = before.processes@.insert(
            pid.0,
            Process { pid, inner: before.processes@[pid.0].inner.spec_killed(first) },
        );
        assert forall|j: u16| #[trigger] dead.contains_key(j) implies dead[j].pid.0 == j by {
            if j != pid.0 {
                assert(before.processes@.contains_key(j));
            }
        }
        lemma_wake_all(dead, before.ready_queue@, before.spec_waiters(pid), Some(first), pid.0);
    }
}

/// After a fork the child finds 0 as the result of the system call and
/// the parent the child's identifier, each when it is next let run. The
/// child is another process than its parent: it names the parent as its
/// parent, and is the last of the parent's children.
pub proof fn lemma_fork_results(
    before: &ProcessManager,
    forked: &ProcessManager,
    child: ProcessId,
    failed: u64,
    later: &ProcessManager,
    resumed: &ProcessManager,
    context_before: ProcessContext,
    context_after: ProcessContext,
)
    requires
        ProcessManager::spec_forked(before, forked, child, failed),
        later.processes@.contains_key(child.0),
        later.processes@.contains_key(before.current.0),
        later.processes@[child.0].inner.context == forked.processes@[child.0].inner.context,
        later.processes@[before.current.0].inner.context
            == forked.processes@[before.current.0].inner.context,
        spec_switch_next(later, resumed, context_before, context_after),
    ensures
        child != before.current,
        forked.processes@[child.0].pid == child,
        forked.processes@[child.0].inner.parent == Some(before.current),
        forked.processes@[before.current.0].inner.children@
            == before.processes@[before.current.0].inner.children@.push(child),
        forked.processes@[child.0].inner.context.regs.rax == 0,
        forked.processes@[before.current.0].inner.context.regs.rax == child.0,
        spec_scheduled(later.processes@, later.ready_queue@) == Some(child)
            ==> context_after.regs.rax == 0 && resumed.current == child,
        spec_scheduled(later.processes@, later.ready_queue@) == Some(before.current)
            ==> context_after.regs.rax == child.0 && resumed.current == before.current,
{
}

/// A process that waits for another is resumed when that one is killed,
/// with its exit code as the result of the wait, and once: it is ready,
/// stands in the ready queue once more than before, and nobody waits for
/// the dead process any more.
pub proof fn lemma_waiter_resumes_on_kill(
    before: &ProcessManager,
    after: &ProcessManager,
    pid: ProcessId,
    ret: isize,
    waiter: ProcessId,
)
    requires
        before.wf(),
        before.spec_alive(pid.0),
        spec_kill(before, after, pid, ret),
        before.spec_waiters(pid).contains(waiter),
        waiter != pid,
        before.processes@[waiter.0].inner.status == ProgramStatus::Blocked,
    ensures
        after.processes@[waiter.0].inner == before.processes@[waiter.0].inner.spec_woken(Some(ret)),
        after.processes@[waiter.0].inner.status == ProgramStatus::Ready,
        after.processes@[waiter.0].inner.context.regs.rax == ret as usize,
        after.ready_queue@.contains(waiter),
        spec_count(after.ready_queue@, waiter) == spec_count(before.ready_queue@, waiter) + 1,
        after.spec_waiters(pid) == Seq::<ProcessId>::empty(),
        after.spec_exit_code(pid) == Some(ret),
        !after.ready_queue@.contains(pid),
{
    let waiters = before.spec_waiters(pid);
    let dead = before.processes@.insert(
        pid.0,
        Process { pid, inner: before.processes@[pid.0].inner.spec_killed(ret) },
    );
    assert forall|j: u16| #[trigger] dead.contains_key(j) implies dead[j].pid.0 == j by {
        if j != pid.0 {
            assert(before.processes@.contains_key(j));
        }
    }
    let queued = super::manager::spec_without(before.ready_queue@, pid);
    let i = choose|i: int| 0 <= i < waiters.len() && waiters[i] == waiter;
    assert(before.processes@.contains_key(before.wait_queue@[pid.0]@[i].0));
    lemma_wake_all(dead, queued, waiters, Some(ret), waiter.0);
    lemma_wake_all(dead, queued, waiters, Some(ret), pid.0);
    lemma_woken_is_queued(dead, queued, waiters, Some(ret), waiter);
    lemma_woken_once(dead, queued, waiters, Some(ret), waiter);
    lemma_without_counts(before.ready_queue@, pid, waiter);
    lemma_killed_leaves_queue(before, after, pid, ret);
}

/// A blocked process among those that are woken stands in the ready queue
/// afterwards.
pub proof fn lemma_woken_is_queued(
    procs: Map<u16, Process>,
    ready: Seq<ProcessId>,
    waiters: Seq<ProcessId>,
    ret: Option<isize>,
    waiter: ProcessId,
)
    requires
        forall|j: u16| #[trigger] procs.contains_key(j) ==> procs[j].pid.0 == j,
        procs.contains_key(waiter.0),
        procs[waiter.0].inner.status == ProgramStatus::Blocked,
        waiters.contains(waiter),
    ensures
        spec_wake_all_ready(procs, ready, waiters, ret).contains(waiter),
    decreases waiters.len(),
{
    let front = waiters.drop_last();
    let last = waiters.last();
    let procs1 = spec_wake_all_procs(procs, front, ret);
    let ready1 = spec_wake_all_ready(procs, ready, front, ret);
    let ready2 = spec_wake_ready(procs1, ready1, last);
    if front.contains(waiter) {
        lemma_woken_is_queued(procs, ready, front, ret, waiter);
        let i = choose|i: int| 0 <= i < ready1.len() && ready1[i] == waiter;
        assert(ready2[i] == waiter);
    } else {
        let i = choose|i: int| 0 <= i < waiters.len() && waiters[i] == waiter;
        if i < front.len() {
            assert(front[i] == waiter);
        }
        assert(last == waiter);
        lemma_wake_all(procs, ready, front, ret, waiter.0);
        assert(spec_can_wake(procs1, last));
        assert(ready2[ready1.len() as int] == waiter);
    }
}

/// One step that makes or ends a process.
pub enum Step {
    /// A program is spawned from an image under a name; the new process
    /// gets the identifier.
    Spawn(Image, Seq<char>, ProcessId),
    /// The current process is forked after so many tries of the child's
    /// stack gone wrong; the child gets the identifier.
    Fork(u64, ProcessId),
    /// The process is killed with the exit code.
    Kill(ProcessId, isize),
}

/// Whether `after` is what the step `step` makes of `before`.
pub open spec fn spec_step(before: &ProcessManager, after: &ProcessManager, step: Step) -> bool {
    match step {
        Step::Spawn(image, name, new) => spec_spawned_by(before, after, new, image, name),
        Step::Fork(failed, child) => ProcessManager::spec_forked(before, after, child, failed),
        Step::Kill(pid, ret) => spec_kill(before, after, pid, ret),
    }
}

/// Whatever processes are spawned, forked and killed, one after the other:
/// each process of the ready queue is ready, a new process gets an
/// identifier that no process of the table has, and a process that is
/// killed stands in the ready queue no more.
pub proof fn lemma_steps_keep_ready(states: Seq<ProcessManager>, steps: Seq<Step>)
    requires
        states.len() == steps.len() + 1,
        forall|i: int| 0 <= i < states.len() ==> (#[trigger] states[i]).wf(),
        spec_queue_ready(states[0].processes@, states[0].ready_queue@),
        forall|i: int|
            0 <= i < steps.len() ==> spec_step(&states[i], &states[i + 1], #[trigger] steps[i]),
    ensures
        forall|i: int|
            0 <= i < states.len() ==> spec_queue_ready(
                (#[trigger] states[i]).processes@,
                states[i].ready_queue@,
            ),
        forall|i: int|
            0 <= i < steps.len() ==> match #[trigger] steps[i] {
                Step::Spawn(_, _, new) => !states[i].processes@.contains_key(new.0),
                Step::Fork(_, child) => !states[i].processes@.contains_key(child.0),
                Step::Kill(pid, _) => !states[i + 1].ready_queue@.contains(pid),
            },
    decreases steps.len(),
{
    if steps.len() > 0 {
        let n = steps.len() - 1;
        lemma_steps_keep_ready(states.drop_last(), steps.drop_last());
        assert(states.drop_last()[n] == states[n]);
        assert(spec_step(&states[n], &states[n + 1], steps[n]));
        assert(spec_queue_ready(states[n].processes@, states[n].ready_queue@));
        match steps[n] {
            Step::Spawn(image, name, new) => {
                lemma_spawn_keeps_ready(&states[n], &states[n + 1], new, image, name);
            },
            Step::Fork(failed, child) => {
                lemma_fork_keeps_ready(&states[n], &states[n + 1], child, failed);
            },
            Step::Kill(pid, ret) => {
                lemma_kill_keeps_ready(&states[n], &states[n + 1], pid, ret);
                if states[n].spec_alive(pid.0) {
                    lemma_killed_leaves_queue(&states[n], &states[n + 1], pid, ret);
                } else {
                    let ready = states[n].ready_queue@;
                    if ready.contains(pid) {
                        let i = choose|i: int| 0 <= i < ready.len() && ready[i] == pid;
                        assert(states[n].processes@[ready[i].0].inner.status
                            == ProgramStatus::Ready);
                    }
                }
            },
        }
        assert forall|i: int| 0 <= i < states.len() implies spec_queue_ready(
            (#[trigger] states[i]).processes@,
            states[i].ready_queue@,
        ) by {
            if i < states.len() - 1 {
                assert(states.drop_last()[i] == states[i]);
            }
        }
        assert forall|i: int| 0 <= i < steps.len() implies match #[trigger] steps[i] {
            Step::Spawn(_, _, new) => !states[i].processes@.contains_key(new.0),
            Step::Fork(_, child) => !states[i].processes@.contains_key(child.0),
            Step::Kill(pid, _) => !states[i + 1].ready_queue@.contains(pid),
        } by {
            if i < n {
                assert(steps.drop_last()[i] == steps[i]);
                assert(states.drop_last()[i] == states[i]);
                assert(states.drop_last()[i + 1] == states[i + 1]);
            }
        }
    }
}

/// Whatever processes are spawned, forked and killed, one after the
/// other, where no process forks while it stands in the ready queue: each
/// process of the ready queue is ready and stands there once.
pub proof fn lemma_steps_keep_order(states: Seq<ProcessManager>, steps: Seq<Step>)
    requires
        states.len() == steps.len() + 1,
        forall|i: int| 0 <= i < states.len() ==> (#[trigger] states[i]).wf(),
        spec_ready_in_order(states[0].processes@, states[0].ready_queue@),
        forall|i: int|
            0 <= i < steps.len() ==> spec_step(&states[i], &states[i + 1], #[trigger] steps[i]),
        forall|i: int|
            0 <= i < steps.len() && (#[trigger] steps[i]) is Fork ==> !states[i].ready_queue@.contains(
                states[i].current,
            ),
    ensures
        forall|i: int|
            0 <= i < states.len() ==> spec_ready_in_order(
                (#[trigger] states[i]).processes@,
                states[i].ready_queue@,
            ),
    decreases steps.len(),
{
    if steps.len() > 0 {
        let n = steps.len() - 1;
        assert forall|i: int|
            0 <= i < steps.drop_last().len() && (#[trigger] steps.drop_last()[i])
                is Fork implies !states.drop_last()[i].ready_queue@.contains(
            states.drop_last()[i].current,
        ) by {
            assert(steps.drop_last()[i] == steps[i]);
            assert(states.drop_last()[i] == states[i]);
        }
        lemma_steps_keep_order(states.drop_last(), steps.drop_last());
        assert(states.drop_last()[n] == states[n]);
        assert(spec_step(&states[n], &states[n + 1], steps[n]));
        assert(spec_ready_in_order(states[n].processes@, states[n].ready_queue@));
        match steps[n] {
            Step::Spawn(image, name, new) => {
                lemma_spawn_keeps_order(&states[n], &states[n + 1], new, image, name);
            },
            Step::Fork(failed, child) => {
                assert(steps[n] is Fork);
                lemma_fork_keeps_order(&states[n], &states[n + 1], child, failed);
            },
            Step::Kill(pid, ret) => {
                lemma_kill_keeps_order(&states[n], &states[n + 1], pid, ret);
            },
        }
        assert forall|i: int| 0 <= i < states.len() implies spec_ready_in_order(
            (#[trigger] states[i]).processes@,
            states[i].ready_queue@,
        ) by {
            if i < states.len() - 1 {
                assert(states.drop_last()[i] == states[i]);
            }
        }
    }
}

/// The number of times that `pid` stands in `queue`.
pub open spec fn spec_count(queue: Seq<ProcessId>, pid: ProcessId) -> nat
    decreases queue.len(),
{
    if queue.len() == 0 {
        0
    } else if queue.last() == pid {
        spec_count(queue.drop_last(), pid) + 1
    } else {
        spec_count(queue.drop_last(), pid)
    }
}

/// Waking processes puts none into the ready queue that is not among
/// them.
pub proof fn lemma_others_are_not_queued(
    procs: Map<u16, Process>,
    ready: Seq<ProcessId>,
    waiters: Seq<ProcessId>,
    ret: Option<isize>,
    other: ProcessId,
)
    requires
        !waiters.contains(other),
    ensures
        spec_count(spec_wake_all_ready(procs, ready, waiters, ret), other) == spec_count(
            ready,
            other,
        ),
    decreases waiters.len(),
{
    if waiters.len() > 0 {
        let front = waiters.drop_last();
        let last = waiters.last();
        assert(last == waiters[waiters.len() - 1]);
        assert(!front.contains(other)) by {
            if front.contains(other) {
                let i = choose|i: int| 0 <= i < front.len() && front[i] == other;
                assert(waiters[i] == other);
            }
        }
        lemma_others_are_not_queued(procs, ready, front, ret, other);
        let ready1 = spec_wake_all_ready(procs, ready, front, ret);
        assert(ready1.push(last).drop_last() =~= ready1);
    }
}

/// A blocked process among those that are woken joins the ready queue
/// once, however often it stands among them.
pub proof fn lemma_woken_once(
    procs: Map<u16, Process>,
    ready: Seq<ProcessId>,
    waiters: Seq<ProcessId>,
    ret: Option<isize>,
    waiter: ProcessId,
)
    requires
        forall|j: u16| #[trigger] procs.contains_key(j) ==> procs[j].pid.0 == j,
        procs.contains_key(waiter.0),
        procs[waiter.0].inner.status == ProgramStatus::Blocked,
        waiters.contains(waiter),
    ensures
        spec_count(spec_wake_all_ready(procs, ready, waiters, ret), waiter) == spec_count(
            ready,
            waiter,
        ) + 1,
    decreases waiters.len(),
{
    let front = waiters.drop_last();
    let last = waiters.last();
    let procs1 = spec_wake_all_procs(procs, front, ret);
    let ready1 = spec_wake_all_ready(procs, ready, front, ret);
    assert(ready1.push(last).drop_last() =~= ready1);
    lemma_wake_all(procs, ready, front, ret, waiter.0);
    if front.contains(waiter) {
        lemma_woken_once(procs, ready, front, ret, waiter);
        assert(procs[waiter.0].inner.spec_woken(ret).status != ProgramStatus::Blocked);
    } else {
        let i = choose|i: int| 0 <= i < waiters.len() && waiters[i] == waiter;
        if i < front.len() {
            assert(front[i] == waiter);
        }
        assert(last == waiter);
        lemma_others_are_not_queued(procs, ready, front, ret, waiter);
        assert(spec_can_wake(procs1, last));
    }
}

/// A living process that waits for one that has not ended is blocked, and
/// stands among those that wait for it.
pub proof fn lemma_wait_pid_blocks(
    before: &ProcessManager,
    after: &ProcessManager,
    pid: u16,
    context_before: ProcessContext,
    context_after: ProcessContext,
)
    requires
        before.wf(),
        before.spec_alive(before.current.0),
        before.processes@.contains_key(pid),
        before.spec_exit_code(ProcessId(pid)) is None,
        spec_wait_pid(before, after, pid, context_before, context_after),
    ensures
        after.processes@.contains_key(before.current.0),
        after.processes@[before.current.0].inner.status == ProgramStatus::Blocked,
        after.processes@[before.current.0].inner.context == context_before,
        after.spec_waiters(ProcessId(pid)).contains(before.current),
{
    let current = before.current;
    let waiters = before.spec_waiters(ProcessId(pid));
    if waiters.contains(current) {
    } else {
        assert(waiters.push(current)[waiters.len() as int] == current);
    }
}

/// A process that has ended is not waited for: the call returns at once
/// with its exit code, and nothing else changes.
pub proof fn lemma_wait_pid_returns(
    before: &ProcessManager,
    after: &ProcessManager,
    pid: u16,
    ret: isize,
    context_before: ProcessContext,
    context_after: ProcessContext,
)
    requires
        before.spec_exit_code(ProcessId(pid)) == Some(ret),
        spec_wait_pid(before, after, pid, context_before, context_after),
    ensures
        context_after.regs.rax == ret as usize,
        ProcessManager::spec_unchanged(before, after),
{
}

/// Whether no process of `manager` but the current one is running.
pub open spec fn spec_one_running(manager: &ProcessManager) -> bool {
    forall|k: u16| #[trigger]
        manager.processes@.contains_key(k) && manager.processes@[k].inner.status
            == ProgramStatus::Running ==> k == manager.current.0
}

/// Waking processes lets none of them run.
pub proof fn lemma_wake_all_runs_none(
    procs: Map<u16, Process>,
    waiters: Seq<ProcessId>,
    ret: Option<isize>,
    k: u16,
)
    requires
        forall|j: u16| #[trigger] procs.contains_key(j) ==> procs[j].pid.0 == j,
        procs.contains_key(k),
    ensures
        spec_wake_all_procs(procs, waiters, ret).contains_key(k),
        spec_wake_all_procs(procs, waiters, ret)[k].inner.status == ProgramStatus::Running
            ==> procs[k].inner.status == ProgramStatus::Running,
{
    lemma_wake_all(procs, Seq::empty(), waiters, ret, k);
    assert(spec_wake_all_procs(procs, waiters, ret).dom().contains(k));
}

/// The scheduler lets one process run at most: the one that it makes
/// current.
pub proof fn lemma_switch_next_runs_one(
    before: &ProcessManager,
    after: &ProcessManager,
    context_before: ProcessContext,
    context_after: ProcessContext,
)
    requires
        before.wf(),
        forall|k: u16| #[trigger]
            before.processes@.contains_key(k) ==> before.processes@[k].inner.status
                != ProgramStatus::Running,
        spec_switch_next(before, after, context_before, context_after),
    ensures
        spec_one_running(after),
{
    assert forall|k: u16| #[trigger]
        after.processes@.contains_key(k) && after.processes@[k].inner.status
            == ProgramStatus::Running implies k == after.current.0 by {
        match spec_scheduled(before.processes@, before.ready_queue@) {
            Some(next) => {
                if k != next.0 {
                    assert(before.processes@.contains_key(k));
                }
            },
            None => {
                assert(before.processes@.contains_key(k));
            },
        }
    }
}

/// The timer's entry to the scheduler lets one process run at most.
pub proof fn lemma_switch_runs_one(
    before: &ProcessManager,
    after: &ProcessManager,
    context_before: ProcessContext,
    context_after: ProcessContext,
)
    requires
        before.wf(),
        spec_one_running(before),
        spec_switch(before, after, context_before, context_after),
    ensures
        spec_one_running(after),
{
    let current = before.current;
    let caller = before.processes@[current.0].inner;
    let saved = spec_put(
        before.processes@,
        current,
        caller.spec_ticked().spec_saved(context_before),
    );
    assert forall|k: u16| #[trigger]
        after.processes@.contains_key(k) && after.processes@[k].inner.status
            == ProgramStatus::Running implies k == after.current.0 by {
        assert(saved.contains_key(k));
        if k != current.0 {
            assert(before.processes@.contains_key(k));
        }
    }
}

/// Spawning lets no process run.
pub proof fn lemma_spawn_runs_one(
    before: &ProcessManager,
    after: &ProcessManager,
    new: ProcessId,
    image: Image,
    name: Seq<char>,
)
    requires
        before.wf(),
        spec_one_running(before),
        spec_spawned_by(before, after, new, image, name),
    ensures
        spec_one_running(after),
{
    assert forall|k: u16| #[trigger]
        after.processes@.contains_key(k) && after.processes@[k].inner.status
            == ProgramStatus::Running implies k == after.current.0 by {
        if k != new.0 {
            assert(before.processes@.contains_key(k));
        }
    }
}

/// Killing a process lets no process run.
pub proof fn lemma_kill_runs_one(
    before: &ProcessManager,
    after: &ProcessManager,
    pid: ProcessId,
    ret: isize,
)
    requires
        before.wf(),
        spec_one_running(before),
        spec_kill(before, after, pid, ret),
    ensures
        spec_one_running(after),
{
    if before.spec_alive(pid.0) {
        let dead = before.processes@.insert(
            pid.0,
            Process { pid, inner: before.processes@[pid.0].inner.spec_killed(ret) },
        );
        assert forall|j: u16| #[trigger] dead.contains_key(j) implies dead[j].pid.0 == j by {
            if j != pid.0 {
                assert(before.processes@.contains_key(j));
            }
        }
        assert forall|k: u16| #[trigger]
            after.processes@.contains_key(k) && after.processes@[k].inner.status
                == ProgramStatus::Running implies k == after.current.0 by {
            lemma_wake_all(dead, Seq::empty(), before.spec_waiters(pid), Some(ret), k);
            assert(dead.contains_key(k));
            lemma_wake_all_runs_none(dead, before.spec_waiters(pid), Some(ret), k);
            if k != pid.0 {
                assert(before.processes@.contains_key(k));
            }
        }
    }
}

/// The system call `fork` lets one process run at most.
pub proof fn lemma_fork_runs_one(
    before: &ProcessManager,
    after: &ProcessManager,
    context_before: ProcessContext,
    context_after: ProcessContext,
    failed: u64,
    child: Option<ProcessId>,
)
    requires
        before.wf(),
        spec_one_running(before),
        spec_fork(before, after, context_before, context_after, failed, child),
    ensures
        spec_one_running(after),
{
    let current = before.current;
    match child {
        Some(c) => {
            let (saved, forked) = choose|saved: ProcessManager, forked: ProcessManager|
                {
                    &&& saved.wf()
                    &&& ProcessManager::spec_updated(
                        before,
                        &saved,
                        before.current,
                        before.processes@[before.current.0].inner.spec_ticked().spec_saved(
                            context_before,
                        ),
                    )
                    &&& forked.wf()
                    &&& #[trigger] ProcessManager::spec_forked(&saved, &forked, c, failed)
                    &&& spec_switch_next(&forked, after, context_before, context_after)
                };
            assert forall|k: u16| #[trigger]
                forked.processes@.contains_key(k) implies forked.processes@[k].inner.status
                != ProgramStatus::Running by {
                if k != current.0 && k != c.0 {
                    assert(saved.processes@.contains_key(k));
                    assert(before.processes@.contains_key(k));
                }
            }
            lemma_switch_next_runs_one(&forked, after, context_before, context_after);
        },
        None => {
            assert forall|k: u16| #[trigger]
                after.processes@.contains_key(k) && after.processes@[k].inner.status
                    == ProgramStatus::Running implies k == after.current.0 by {
                if k != current.0 {
                    assert(before.processes@.contains_key(k));
                }
            }
        },
    }
}

/// The system call `exit` lets one process run at most.
pub proof fn lemma_exit_runs_one(
    before: &ProcessManager,
    after: &ProcessManager,
    ret: isize,
    context_before: ProcessContext,
    context_after: ProcessContext,
    freed: Option<CleanUp>,
)
    requires
        before.wf(),
        spec_one_running(before),
        spec_exit(before, after, ret, context_before, context_after, freed),
    ensures
        spec_one_running(after),
{
    let current = before.current;
    let killed = choose|killed: ProcessManager|
        {
            &&& killed.wf()
            &&& killed.current == current
            &&& killed.pids == before.pids
            &&& (if before.spec_alive(current.0) {
                ProcessManager::spec_killed(before, &killed, current, ret)
            } else {
                ProcessManager::spec_unchanged(before, &killed)
            })
            &&& #[trigger] spec_switch_next(&killed, after, context_before, context_after)
        };
    if before.spec_alive(current.0) {
        lemma_kill_runs_one(before, &killed, current, ret);
        let dead = before.processes@.insert(
            current.0,
            Process { pid: current, inner: before.processes@[current.0].inner.spec_killed(ret) },
        );
        assert forall|j: u16| #[trigger] dead.contains_key(j) implies dead[j].pid.0 == j by {
            if j != current.0 {
                assert(before.processes@.contains_key(j));
            }
        }
        lemma_wake_all(dead, Seq::empty(), before.spec_waiters(current), Some(ret), current.0);
    }
    assert forall|k: u16| #[trigger]
        killed.processes@.contains_key(k) implies killed.processes@[k].inner.status
        != ProgramStatus::Running by {
        assert(before.processes@.contains_key(k));
    }
    lemma_switch_next_runs_one(&killed, after, context_before, context_after);
}

/// The system call `wait_pid` lets one process run at most.
pub proof fn lemma_wait_pid_runs_one(
    before: &ProcessManager,
    after: &ProcessManager,
    pid: u16,
    context_before: ProcessContext,
    context_after: ProcessContext,
)
    requires
        before.wf(),
        spec_one_running(before),
        spec_wait_pid(before, after, pid, context_before, context_after),
    ensures
        spec_one_running(after),
{
    let current = before.current;
    if before.processes@.contains_key(pid) && before.spec_exit_code(ProcessId(pid)) is None {
        let caller = before.processes@[current.0].inner;
        let blocked = spec_put(
            before.processes@,
            current,
            caller.spec_ticked().spec_saved(context_before).spec_with_status(
                ProgramStatus::Blocked,
            ),
        );
        assert forall|k: u16| #[trigger]
            after.processes@.contains_key(k) && after.processes@[k].inner.status
                == ProgramStatus::Running implies k == after.current.0 by {
            assert(blocked.contains_key(k));
            if k != current.0 {
                assert(before.processes@.contains_key(k));
            }
        }
    }
}

/// Asking a semaphore for a permit lets one process run at most.
pub proof fn lemma_sem_wait_runs_one(
    before: &ProcessManager,
    after: &ProcessManager,
    key: u32,
    context_before: ProcessContext,
    context_after: ProcessContext,
)
    requires
        before.wf(),
        spec_one_running(before),
        spec_sem_wait(before, after, key, context_before, context_after),
    ensures
        spec_one_running(after),
{
    let current = before.current;
    match before.spec_sem_wait_result(key) {
        SemaphoreResult::Block(_) => {
            let caller = before.processes@[current.0].inner;
            let blocked = spec_put(
                before.processes@,
                current,
                caller.spec_ticked().spec_saved(context_before).spec_with_status(
                    ProgramStatus::Blocked,
                ),
            );
            assert forall|k: u16| #[trigger]
                after.processes@.contains_key(k) && after.processes@[k].inner.status
                    == ProgramStatus::Running implies k == after.current.0 by {
                assert(blocked.contains_key(k));
                if k != current.0 {
                    assert(before.processes@.contains_key(k));
                }
            }
        },
        _ => {},
    }
}

/// Giving a permit back to a semaphore lets no process run.
pub proof fn lemma_sem_signal_runs_one(
    before: &ProcessManager,
    after: &ProcessManager,
    key: u32,
    context_before: ProcessContext,
    context_after: ProcessContext,
)
    requires
        before.wf(),
        spec_one_running(before),
        spec_sem_signal(before, after, key, context_before, context_after),
    ensures
        spec_one_running(after),
{
    assert forall|k: u16| #[trigger]
        after.processes@.contains_key(k) && after.processes@[k].inner.status
            == ProgramStatus::Running implies k == after.current.0 by {
        assert(before.processes@.contains_key(k));
    }
}

/// Letting the next process run keeps a ready queue in order: the first
/// process of the queue runs and leaves it, and the others stay as they
/// were.
pub proof fn lemma_schedule_keeps_order(procs: Map<u16, Process>, ready: Seq<ProcessId>)
    requires
        spec_ready_in_order(procs, ready),
    ensures
        spec_ready_in_order(spec_switched_procs(procs, ready), spec_popped(ready)),
        ready.len() > 0 ==> spec_scheduled(procs, ready) == Some(ready[0]) && !spec_popped(
            ready,
        ).contains(ready[0]),
        forall|p: ProcessId| #[trigger] spec_popped(ready).contains(p) ==> ready.contains(p),
{
    let rest = spec_popped(ready);
    let after = spec_switched_procs(procs, ready);
    if ready.len() > 0 {
        let next = ready[0];
        assert(procs[next.0].inner.status == ProgramStatus::Ready);
        assert(!rest.contains(next)) by {
            if rest.contains(next) {
                let i = choose|i: int| 0 <= i < rest.len() && rest[i] == next;
                assert(ready[i + 1] == next);
            }
        }
        assert forall|i: int| 0 <= i < rest.len() implies after.contains_key(
            (#[trigger] rest[i]).0,
        ) && after[rest[i].0].inner.status == ProgramStatus::Ready by {
            assert(rest[i] == ready[i + 1]);
            assert(rest.contains(rest[i]));
        }
        assert forall|i: int, j: int|
            0 <= i < rest.len() && 0 <= j < rest.len() && i != j implies rest[i] != rest[j] by {
            assert(rest[i] == ready[i + 1]);
            assert(rest[j] == ready[j + 1]);
        }
        assert forall|p: ProcessId| #[trigger] rest.contains(p) implies ready.contains(p) by {
            let i = choose|i: int| 0 <= i < rest.len() && rest[i] == p;
            assert(ready[i + 1] == p);
        }
    }
}

/// A process that is not ready does not stand in a ready queue that is in
/// order, and the queue stays in order whatever becomes of that process.
pub proof fn lemma_other_keeps_order(
    procs: Map<u16, Process>,
    ready: Seq<ProcessId>,
    pid: ProcessId,
    inner: super::process::ProcessInner,
)
    requires
        spec_ready_in_order(procs, ready),
        procs.contains_key(pid.0),
        procs[pid.0].inner.status != ProgramStatus::Ready,
    ensures
        !ready.contains(pid),
        spec_ready_in_order(spec_put(procs, pid, inner), ready),
{
    assert(!ready.contains(pid)) by {
        if ready.contains(pid) {
            let i = choose|i: int| 0 <= i < ready.len() && ready[i] == pid;
            assert(procs[ready[i].0].inner.status == ProgramStatus::Ready);
        }
    }
    assert forall|i: int| 0 <= i < ready.len() implies spec_put(procs, pid, inner).contains_key(
        (#[trigger] ready[i]).0,
    ) && spec_put(procs, pid, inner)[ready[i].0].inner.status == ProgramStatus::Ready by {
        assert(ready.contains(ready[i]));
    }
}

/// The timer's entry to the scheduler keeps the ready queue in order: a
/// running process joins the queue as a ready one, and the process that
/// is let run leaves it.
pub proof fn lemma_switch_keeps_order(
    before: &ProcessManager,
    after: &ProcessManager,
    context_before: ProcessContext,
    context_after: ProcessContext,
)
    requires
        before.wf(),
        spec_ready_in_order(before.processes@, before.ready_queue@),
        spec_switch(before, after, context_before, context_after),
    ensures
        spec_ready_in_order(after.processes@, after.ready_queue@),
{
    let current = before.current;
    let caller = before.processes@[current.0].inner;
    let kept = caller.spec_ticked().spec_saved(context_before);
    let saved = spec_put(before.processes@, current, kept);
    let ready = before.ready_queue@;
    if caller.status == ProgramStatus::Running {
        lemma_other_keeps_order(before.processes@, ready, current, kept);
        let longer = ready.push(current);
        assert forall|i: int, j: int|
            0 <= i < longer.len() && 0 <= j < longer.len() && i != j implies longer[i]
            != longer[j] by {
            if i < ready.len() && j < ready.len() {
            } else if i < ready.len() {
                assert(ready.contains(ready[i]));
            } else {
                assert(ready.contains(ready[j]));
            }
        }
        assert forall|i: int| 0 <= i < longer.len() implies saved.contains_key(
            (#[trigger] longer[i]).0,
        ) && saved[longer[i].0].inner.status == ProgramStatus::Ready by {
            if i < ready.len() {
                assert(longer[i] == ready[i]);
            }
        }
        lemma_schedule_keeps_order(saved, longer);
    } else {
        assert forall|i: int| 0 <= i < ready.len() implies saved.contains_key(
            (#[trigger] ready[i]).0,
        ) && saved[ready[i].0].inner.status == ProgramStatus::Ready by {
            assert(before.processes@[ready[i].0].inner.status == ProgramStatus::Ready);
        }
        lemma_schedule_keeps_order(saved, ready);
    }
}

/// The system call `wait_pid` of a running process keeps the ready queue
/// in order, and a caller that has to wait does not stand in it: it is
/// blocked, and the process that is let run leaves the queue.
pub proof fn lemma_wait_pid_keeps_order(
    before: &ProcessManager,
    after: &ProcessManager,
    pid: u16,
    context_before: ProcessContext,
    context_after: ProcessContext,
)
    requires
        before.wf(),
        spec_ready_in_order(before.processes@, before.ready_queue@),
        before.processes@[before.current.0].inner.status == ProgramStatus::Running,
        spec_wait_pid(before, after, pid, context_before, context_after),
    ensures
        spec_ready_in_order(after.processes@, after.ready_queue@),
        !after.ready_queue@.contains(before.current),
{
    let current = before.current;
    let caller = before.processes@[current.0].inner;
    let kept = caller.spec_ticked().spec_saved(context_before).spec_with_status(
        ProgramStatus::Blocked,
    );
    lemma_other_keeps_order(before.processes@, before.ready_queue@, current, kept);
    if before.processes@.contains_key(pid) && before.spec_exit_code(ProcessId(pid)) is None {
        lemma_schedule_keeps_order(
            spec_put(before.processes@, current, kept),
            before.ready_queue@,
        );
    }
}

/// Asking a semaphore for a permit, by a running process, keeps the ready
/// queue in order, and a caller that has to wait does not stand in it.
pub proof fn lemma_sem_wait_keeps_order(
    before: &ProcessManager,
    after: &ProcessManager,
    key: u32,
    context_before: ProcessContext,
    context_after: ProcessContext,
)
    requires
        before.wf(),
        spec_ready_in_order(before.processes@, before.ready_queue@),
        before.processes@[before.current.0].inner.status == ProgramStatus::Running,
        spec_sem_wait(before, after, key, context_before, context_after),
    ensures
        spec_ready_in_order(after.processes@, after.ready_queue@),
        !after.ready_queue@.contains(before.current),
{
    let current = before.current;
    let caller = before.processes@[current.0].inner;
    let kept = caller.spec_ticked().spec_saved(context_before).spec_with_status(
        ProgramStatus::Blocked,
    );
    lemma_other_keeps_order(before.processes@, before.ready_queue@, current, kept);
    match before.spec_sem_wait_result(key) {
        SemaphoreResult::Block(_) => {
            lemma_schedule_keeps_order(
                spec_put(before.processes@, current, kept),
                before.ready_queue@,
            );
        },
        _ => {},
    }
}

/// Giving a permit back to a semaphore keeps the ready queue in order:
/// the process that is woken was blocked, so it did not stand in the
/// queue, and joins it as a ready one.
pub proof fn lemma_sem_signal_keeps_order(
    before: &ProcessManager,
    after: &ProcessManager,
    key: u32,
    context_before: ProcessContext,
    context_after: ProcessContext,
)
    requires
        before.wf(),
        spec_ready_in_order(before.processes@, before.ready_queue@),
        spec_sem_signal(before, after, key, context_before, context_after),
    ensures
        spec_ready_in_order(after.processes@, after.ready_queue@),
{
    if before.spec_can_signal(key) {
        match before.spec_sem_signal_result(key) {
            SemaphoreResult::WakeUp(pid) => {
                let waiters = seq![pid];
                assert(waiters.drop_last() =~= Seq::<ProcessId>::empty());
                assert(waiters.last() == pid);
                lemma_wake_all_keeps_order(
                    before.processes@,
                    before.ready_queue@,
                    waiters,
                    Some(0isize),
                );
                assert(waiters.len() == 1);
                assert(waiters.drop_last().len() == 0);
                assert(spec_wake_all_procs(before.processes@, waiters.drop_last(), Some(0isize))
                    == before.processes@);
                assert(spec_wake_all_ready(
                    before.processes@,
                    before.ready_queue@,
                    waiters.drop_last(),
                    Some(0isize),
                ) == before.ready_queue@);
                assert(spec_wake_all_procs(before.processes@, waiters, Some(0isize))
                    == spec_wake_procs(before.processes@, pid, Some(0isize)));
                assert(spec_wake_all_ready(
                    before.processes@,
                    before.ready_queue@,
                    waiters,
                    Some(0isize),
                ) == spec_wake_ready(before.processes@, before.ready_queue@, pid));
            },
            _ => {},
        }
    }
}

/// The system call `exit` keeps the ready queue in order, and the process
/// that ends does not stand in it.
pub proof fn lemma_exit_keeps_order(
    before: &ProcessManager,
    after: &ProcessManager,
    ret: isize,
    context_before: ProcessContext,
    context_after: ProcessContext,
    freed: Option<CleanUp>,
)
    requires
        before.wf(),
        spec_ready_in_order(before.processes@, before.ready_queue@),
        spec_exit(before, after, ret, context_before, context_after, freed),
    ensures
        spec_ready_in_order(after.processes@, after.ready_queue@),
        before.spec_alive(before.current.0) ==> !after.ready_queue@.contains(before.current),
{
    let current = before.current;
    let killed = choose|killed: ProcessManager|
        {
            &&& killed.wf()
            &&& killed.current == current
            &&& killed.pids == before.pids
            &&& (if before.spec_alive(current.0) {
                ProcessManager::spec_killed(before, &killed, current, ret)
            } else {
                ProcessManager::spec_unchanged(before, &killed)
            })
            &&& #[trigger] spec_switch_next(&killed, after, context_before, context_after)
        };
    lemma_kill_keeps_order(before, &killed, current, ret);
    lemma_schedule_keeps_order(killed.processes@, killed.ready_queue@);
    if before.spec_alive(current.0) {
        lemma_killed_leaves_queue(before, &killed, current, ret);
    }
}

/// The system call `fork` of a running process keeps the ready queue in
/// order: parent and child join it as ready processes, and the process
/// that is let run leaves it.
pub proof fn lemma_fork_call_keeps_order(
    before: &ProcessManager,
    after: &ProcessManager,
    context_before: ProcessContext,
    context_after: ProcessContext,
    failed: u64,
    child: Option<ProcessId>,
)
    requires
        before.wf(),
        spec_ready_in_order(before.processes@, before.ready_queue@),
        before.processes@[before.current.0].inner.status == ProgramStatus::Running,
        spec_fork(before, after, context_before, context_after, failed, child),
    ensures
        spec_ready_in_order(after.processes@, after.ready_queue@),
{
    let current = before.current;
    let caller = before.processes@[current.0].inner.spec_ticked().spec_saved(context_before);
    match child {
        Some(c) => {
            let (saved, forked) = choose|saved: ProcessManager, forked: ProcessManager|
                {
                    &&& saved.wf()
                    &&& ProcessManager::spec_updated(before, &saved, current, caller)
                    &&& forked.wf()
                    &&& #[trigger] ProcessManager::spec_forked(&saved, &forked, c, failed)
                    &&& spec_switch_next(&forked, after, context_before, context_after)
                };
            lemma_other_keeps_order(before.processes@, before.ready_queue@, current, caller);
            lemma_fork_keeps_order(&saved, &forked, c, failed);
            lemma_schedule_keeps_order(forked.processes@, forked.ready_queue@);
        },
        None => {
            lemma_other_keeps_order(
                before.processes@,
                before.ready_queue@,
                current,
                caller.spec_with_status(ProgramStatus::Running),
            );
        },
    }
}

} // verus!
