//! Counting semaphores, and the table that holds them by key.

use vstd::prelude::*;
use std::collections::BTreeMap;
use std::collections::VecDeque;
use super::pid::ProcessId;

verus! {

/// What a semaphore operation asks of the scheduler.
#[derive(Clone, Copy, Debug, PartialEq, Eq, Structural)]
pub enum SemaphoreResult {
    /// The operation is done and the caller goes on.
    Done,
    /// No semaphore has the key.
    NotExist,
    /// The named process has to be blocked.
    Block(ProcessId),
    /// The named process has to be woken.
    WakeUp(ProcessId),
}

/// A semaphore as a value: its count and the processes that wait for it,
/// the one that has waited longest first.
pub struct SemaphoreView {
    pub count: usize,
    pub waiters: Seq<ProcessId>,
}

impl SemaphoreView {
    /// A semaphore with `value` permits and nobody waiting.
    pub open spec fn fresh(value: usize) -> SemaphoreView {
        SemaphoreView { count: value, waiters: Seq::empty() }
    }

    /// The semaphore after `pid` has asked for a permit: one permit less
    /// where there was one, else `pid` at the end of those waiting.
    pub open spec fn wait(self, pid: ProcessId) -> SemaphoreView {
        if self.count == 0 {
            SemaphoreView { count: self.count, waiters: self.waiters.push(pid) }
        } else {
            SemaphoreView { count: (self.count - 1) as usize, waiters: self.waiters }
        }
    }

    /// What the request of `pid` for a permit returns.
    pub open spec fn wait_result(self, pid: ProcessId) -> SemaphoreResult {
        if self.count == 0 {
            SemaphoreResult::Block(pid)
        } else {
            SemaphoreResult::Done
        }
    }

    /// Whether a permit can be given back: somebody waits for it, or the
    /// count can still grow.
    pub open spec fn can_signal(self) -> bool {
        self.waiters.len() > 0 || self.count < usize::MAX
    }

    /// The semaphore after a permit was given back: without its first
    /// waiter where there was one, else with one permit more.
    pub open spec fn signal(self) -> SemaphoreView {
        if self.waiters.len() > 0 {
            SemaphoreView { count: self.count, waiters: self.waiters.subrange(1, self.waiters.len() as int) }
        } else {
            SemaphoreView { count: (self.count + 1) as usize, waiters: self.waiters }
        }
    }

    /// What giving a permit back returns.
    pub open spec fn signal_result(self) -> SemaphoreResult {
        if self.waiters.len() > 0 {
            SemaphoreResult::WakeUp(self.waiters[0])
        } else {
            SemaphoreResult::Done
        }
    }
}

/// A counting semaphore with the queue of the processes that wait for it.
pub struct Semaphore {
    pub count: usize,
    pub wait_queue: VecDeque<ProcessId>,
}

impl View for Semaphore {
    type V = SemaphoreView;

    open spec fn view(&self) -> SemaphoreView {
        SemaphoreView { count: self.count, waiters: self.wait_queue@ }
    }
}

impl Semaphore {
    /// A semaphore with `value` permits and nobody waiting.
    pub fn new(value: usize) -> (sem: Semaphore)
        ensures
            sem@ == SemaphoreView::fresh(value),
    {
        Semaphore { count: value, wait_queue: VecDeque::new() }
    }

    /// Asks for a permit for `pid`.
    ///
    /// Where the count is above zero it is lowered by one and the result is
    /// `Done`. Where it is zero, `pid` joins the end of the queue and the
    /// result is `Block(pid)`.
    pub fn wait(&mut self, pid: ProcessId) -> (res: SemaphoreResult)
        ensures
            final(self)@ == old(self)@.wait(pid),
            res == old(self)@.wait_result(pid),
    {
        if self.count == 0 {
            self.wait_queue.push_back(pid);
            SemaphoreResult::Block(pid)
        } else {
            self.count = self.count - 1;
            SemaphoreResult::Done
        }
    }

    /// Gives a permit back.
    ///
    /// Where processes wait, the one that has waited longest leaves the
    /// queue and the result is `WakeUp` of it; the count stays. Where none
    /// waits, the count is raised by one and the result is `Done`.
    pub fn signal(&mut self) -> (res: SemaphoreResult)
        requires
            old(self)@.can_signal(),
        ensures
            final(self)@ == old(self)@.signal(),
            res == old(self)@.signal_result(),
    {
        match self.wait_queue.pop_front() {
            Some(pid) => SemaphoreResult::WakeUp(pid),
            None => {
                self.count = self.count + 1;
                SemaphoreResult::Done
            },
        }
    }
}

/// The semaphore `sem` after the processes of `pids` have asked for a
/// permit, one after the other.
pub open spec fn spec_wait_all(sem: SemaphoreView, pids: Seq<ProcessId>) -> SemaphoreView
    decreases pids.len(),
{
    if pids.len() == 0 {
        sem
    } else {
        spec_wait_all(sem, pids.drop_last()).wait(pids.last())
    }
}

/// The semaphore `sem` after `n` permits were given back.
pub open spec fn spec_signal_times(sem: SemaphoreView, n: nat) -> SemaphoreView
    decreases n,
{
    if n == 0 {
        sem
    } else {
        spec_signal_times(sem, (n - 1) as nat).signal()
    }
}

/// A new semaphore with `value` permits lets as many callers pass as it
/// has permits: none of them is blocked, none is queued, and each takes one
/// permit.
pub proof fn lemma_fresh_semaphore_passes(value: usize, pids: Seq<ProcessId>)
    requires
        pids.len() <= value,
    ensures
        spec_wait_all(SemaphoreView::fresh(value), pids) == (SemaphoreView {
            count: (value - pids.len()) as usize,
            waiters: Seq::empty(),
        }),
        forall|i: int|
            0 <= i < pids.len() ==> (#[trigger] spec_wait_all(
                SemaphoreView::fresh(value),
                pids.take(i),
            )).wait_result(pids[i]) == SemaphoreResult::Done,
    decreases pids.len(),
{
    let fresh = SemaphoreView::fresh(value);
    if pids.len() > 0 {
        let front = pids.drop_last();
        lemma_fresh_semaphore_passes(value, front);
        assert forall|i: int| 0 <= i < pids.len() implies (#[trigger] spec_wait_all(
            fresh,
            pids.take(i),
        )).wait_result(pids[i]) == SemaphoreResult::Done by {
            if i < front.len() {
                assert(pids.take(i) =~= front.take(i));
                assert(pids[i] == front[i]);
            } else {
                assert(pids.take(i) =~= front);
            }
        }
    }
}

/// When a new semaphore with `value` permits has let `value` callers pass,
/// the next one is blocked and is the only one in the queue.
pub proof fn lemma_fresh_semaphore_blocks(value: usize, pids: Seq<ProcessId>, next: ProcessId)
    requires
        pids.len() == value,
    ensures
        spec_wait_all(SemaphoreView::fresh(value), pids).wait_result(next)
            == SemaphoreResult::Block(next),
        spec_wait_all(SemaphoreView::fresh(value), pids.push(next)) == (SemaphoreView {
            count: 0,
            waiters: seq![next],
        }),
{
    lemma_fresh_semaphore_passes(value, pids);
    assert(pids.push(next).drop_last() =~= pids);
    assert(Seq::<ProcessId>::empty().push(next) =~= seq![next]);
}

/// Callers that find no permit queue up behind those that wait already, in
/// the order in which they came.
pub proof fn lemma_waiters_queue_in_order(sem: SemaphoreView, pids: Seq<ProcessId>)
    requires
        sem.count == 0,
    ensures
        spec_wait_all(sem, pids) == (SemaphoreView {
            count: 0,
            waiters: sem.waiters + pids,
        }),
    decreases pids.len(),
{
    if pids.len() > 0 {
        lemma_waiters_queue_in_order(sem, pids.drop_last());
        assert((sem.waiters + pids.drop_last()).push(pids.last()) =~= sem.waiters + pids);
    } else {
        assert(sem.waiters + pids =~= sem.waiters);
    }
}

/// While processes wait, each permit given back wakes the one that has
/// waited longest and leaves the count as it was: the `n`-th wakes the
/// `n`-th of the queue.
pub proof fn lemma_signal_wakes_in_order(sem: SemaphoreView, n: nat)
    requires
        n < sem.waiters.len(),
    ensures
        spec_signal_times(sem, n) == (SemaphoreView {
            count: sem.count,
            waiters: sem.waiters.subrange(n as int, sem.waiters.len() as int),
        }),
        spec_signal_times(sem, n).signal_result() == SemaphoreResult::WakeUp(sem.waiters[n as int]),
    decreases n,
{
    if n > 0 {
        lemma_signal_wakes_in_order(sem, (n - 1) as nat);
        let before = spec_signal_times(sem, (n - 1) as nat);
        assert(before.waiters.subrange(1, before.waiters.len() as int) =~= sem.waiters.subrange(
            n as int,
            sem.waiters.len() as int,
        ));
    } else {
        assert(sem.waiters.subrange(0, sem.waiters.len() as int) =~= sem.waiters);
    }
}

/// A permit given back while nobody waits raises the count by one and
/// wakes nobody.
pub proof fn lemma_signal_without_waiters(sem: SemaphoreView)
    requires
        sem.waiters.len() == 0,
        sem.count < usize::MAX,
    ensures
        sem.signal() == (SemaphoreView { count: (sem.count + 1) as usize, waiters: sem.waiters }),
        sem.signal_result() == SemaphoreResult::Done,
{
}

/// The semaphores of a group of processes, by key.
pub struct SemaphoreSet {
    pub sems: BTreeMap<u32, Semaphore>,
}

impl View for SemaphoreSet {
    type V = Map<u32, SemaphoreView>;

    open spec fn view(&self) -> Map<u32, SemaphoreView> {
        self.sems@.map_values(|sem: Semaphore| sem@)
    }
}

/// What `wait` on the table `set` returns for `key` and `pid`.
pub open spec fn spec_set_wait_result(
    set: Map<u32, SemaphoreView>,
    key: u32,
    pid: ProcessId,
) -> SemaphoreResult {
    if set.contains_key(key) {
        set[key].wait_result(pid)
    } else {
        SemaphoreResult::NotExist
    }
}

/// The table `set` after `wait` for `key` and `pid`.
pub open spec fn spec_set_wait(set: Map<u32, SemaphoreView>, key: u32, pid: ProcessId) -> Map<
    u32,
    SemaphoreView,
> {
    if set.contains_key(key) {
        set.insert(key, set[key].wait(pid))
    } else {
        set
    }
}

/// What `signal` on the table `set` returns for `key`.
pub open spec fn spec_set_signal_result(set: Map<u32, SemaphoreView>, key: u32) -> SemaphoreResult {
    if set.contains_key(key) {
        set[key].signal_result()
    } else {
        SemaphoreResult::NotExist
    }
}

/// The table `set` after `signal` for `key`.
pub open spec fn spec_set_signal(set: Map<u32, SemaphoreView>, key: u32) -> Map<
    u32,
    SemaphoreView,
> {
    if set.contains_key(key) {
        set.insert(key, set[key].signal())
    } else {
        set
    }
}

impl SemaphoreSet {
    /// A table without semaphores.
    pub fn new() -> (set: SemaphoreSet)
        ensures
            set@ == Map::<u32, SemaphoreView>::empty(),
    {
        let set = SemaphoreSet { sems: BTreeMap::new() };
        assert(set@ =~= Map::<u32, SemaphoreView>::empty());
        set
    }

    /// Makes a semaphore with `value` permits under `key`.
    ///
    /// Returns `false` and changes nothing where the key is taken.
    pub fn insert(&mut self, key: u32, value: usize) -> (made: bool)
        ensures
            made == !old(self)@.contains_key(key),
            made ==> final(self)@ == old(self)@.insert(key, SemaphoreView::fresh(value)),
            !made ==> final(self)@ == old(self)@,
    {
        if self.sems.contains_key(&key) {
            return false;
        }
        let sem = Semaphore::new(value);
        self.sems.insert(key, sem);
        assert(final(self)@ =~= old(self)@.insert(key, SemaphoreView::fresh(value)));
        true
    }

    /// Takes the semaphore under `key` away, with the queue of those that
    /// wait for it.
    ///
    /// Returns `false` and changes nothing where there is none.
    pub fn remove(&mut self, key: u32) -> (removed: bool)
        ensures
            removed == old(self)@.contains_key(key),
            final(self)@ == old(self)@.remove(key),
    {
        let removed = self.sems.remove(&key).is_some();
        assert(final(self)@ =~= old(self)@.remove(key));
        removed
    }

    /// Asks the semaphore under `key` for a permit for `pid`; `NotExist`
    /// where there is none.
    pub fn wait(&mut self, key: u32, pid: ProcessId) -> (res: SemaphoreResult)
        ensures
            res == spec_set_wait_result(old(self)@, key, pid),
            final(self)@ == spec_set_wait(old(self)@, key, pid),
    {
        match self.sems.remove(&key) {
            Some(sem) => {
                let mut sem = sem;
                let res = sem.wait(pid);
                self.sems.insert(key, sem);
                assert(final(self)@ =~= spec_set_wait(old(self)@, key, pid));
                res
            },
            None => {
                assert(final(self)@ =~= old(self)@);
                SemaphoreResult::NotExist
            },
        }
    }

    /// Whether `signal` may be called for `key`: there is no such
    /// semaphore, or a permit can be given back to it.
    pub open spec fn can_signal(&self, key: u32) -> bool {
        self@.contains_key(key) ==> self@[key].can_signal()
    }

    /// Gives a permit back to the semaphore under `key`; `NotExist` where
    /// there is none.
    pub fn signal(&mut self, key: u32) -> (res: SemaphoreResult)
        requires
            old(self).can_signal(key),
        ensures
            res == spec_set_signal_result(old(self)@, key),
            final(self)@ == spec_set_signal(old(self)@, key),
    {
        match self.sems.remove(&key) {
            Some(sem) => {
                let mut sem = sem;
                let res = sem.signal();
                self.sems.insert(key, sem);
                assert(final(self)@ =~= spec_set_signal(old(self)@, key));
                res
            },
            None => {
                assert(final(self)@ =~= old(self)@);
                SemaphoreResult::NotExist
            },
        }
    }
}

} // verus!
