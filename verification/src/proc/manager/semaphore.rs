//! The semaphores of the current process and its family.

use vstd::prelude::*;
use crate::proc::pid::ProcessId;
use crate::proc::sync::{
    SemaphoreResult,
    SemaphoreSet,
    SemaphoreView,
    spec_set_signal,
    spec_set_signal_result,
    spec_set_wait,
    spec_set_wait_result,
};

use super::ProcessManager;

verus! {

impl ProcessManager {
    /// The semaphores that the current process can use: those of its
    /// address space. A dead process has none.
    pub open spec fn spec_semaphores(&self) -> Option<Map<u32, SemaphoreView>> {
        if self.spec_alive(self.current.0) {
            Some(self.spaces@[self.spec_space_of(self.current.0)].semaphores@)
        } else {
            None
        }
    }

    /// Whether `after` differs from `before` only in the semaphores of
    /// the current process, which are now `sems`.
    pub open spec fn spec_sems_updated(
        before: &ProcessManager,
        after: &ProcessManager,
        sems: Map<u32, SemaphoreView>,
    ) -> bool {
        let addr = before.spec_space_of(before.current.0);
        &&& after.processes@ == before.processes@
        &&& after.ready_queue@ == before.ready_queue@
        &&& after.wait_queue@ == before.wait_queue@
        &&& after.spaces@ == before.spaces@.insert(addr, after.spaces@[addr])
        &&& after.spaces@[addr].users == before.spaces@[addr].users
        &&& after.spaces@[addr].semaphores@ == sems
        &&& after.current == before.current
        &&& after.pids == before.pids
        &&& after.app_list == before.app_list
    }

    /// The address of the page table of the current process, where it
    /// lives.
    fn current_space(&self) -> (addr: Option<u64>)
        requires
            self.wf(),
        ensures
            addr is Some == self.spec_alive(self.current.0),
            addr matches Some(a) ==> a == self.spec_space_of(self.current.0)
                && self.spaces@.contains_key(a),
    {
        match &self.current().inner.proc_vm {
            Some(vm) => Some(vm.page_table.addr),
            None => None,
        }
    }

    /// A table stays in order when the semaphores of one of its address
    /// spaces change.
    proof fn lemma_sems_keep_wf(before: &ProcessManager, after: &ProcessManager, addr: u64)
        requires
            before.wf(),
            before.spaces@.contains_key(addr),
            after.processes@ == before.processes@,
            after.ready_queue@ == before.ready_queue@,
            after.wait_queue@ == before.wait_queue@,
            after.spaces@ == before.spaces@.insert(addr, after.spaces@[addr]),
            after.spaces@[addr].users == before.spaces@[addr].users,
            after.current == before.current,
        ensures
            after.wf(),
    {
        assert forall|k: u16| #[trigger]
            after.processes@.contains_key(k) implies after.processes@[k].pid.0 == k
            && after.processes@[k].wf() && (after.processes@[k].inner.alive()
            ==> after.spaces@.contains_key(after.spec_space_of(k)) && after.spaces@[after.spec_space_of(
            k,
        )].users@.contains(ProcessId(k))) by {
            assert(before.processes@.contains_key(k));
        }
    }

    /// Makes a semaphore with `value` permits under `key` for the current
    /// process and its family. The result says whether it was made: not
    /// where the key is taken, nor for a dead process.
    pub fn new_sem(&mut self, key: u32, value: usize) -> (made: bool)
        requires
            old(self).wf(),
        ensures
            final(self).wf(),
            made == (old(self).spec_semaphores() matches Some(sems) && !sems.contains_key(key)),
            !made ==> Self::spec_unchanged(old(self), final(self)),
            made ==> Self::spec_sems_updated(
                old(self),
                final(self),
                old(self).spec_semaphores()->0.insert(key, SemaphoreView::fresh(value)),
            ),
    {
        let addr: u64 = match self.current_space() {
            Some(addr) => addr,
            None => {
                return false;
            },
        };
        let taken = match self.spaces.get(&addr) {
            Some(space) => space.semaphores.sems.contains_key(&key),
            None => true,
        };
        if taken {
            return false;
        }
        match self.spaces.remove(&addr) {
            Some(space) => {
                let mut space = space;
                let made = space.semaphores.insert(key, value);
                self.spaces.insert(addr, space);
                proof {
                    assert(self.spaces@ =~= old(self).spaces@.insert(addr, self.spaces@[addr]));
                    Self::lemma_sems_keep_wf(old(self), self, addr);
                }
                made
            },
            None => false,
        }
    }

    /// Takes away the semaphore under `key` of the current process and
    /// its family. The result says whether there was one.
    pub fn remove_sem(&mut self, key: u32) -> (removed: bool)
        requires
            old(self).wf(),
        ensures
            final(self).wf(),
            removed == (old(self).spec_semaphores() matches Some(sems) && sems.contains_key(key)),
            !removed ==> Self::spec_unchanged(old(self), final(self)),
            removed ==> Self::spec_sems_updated(
                old(self),
                final(self),
                old(self).spec_semaphores()->0.remove(key),
            ),
    {
        let addr: u64 = match self.current_space() {
            Some(addr) => addr,
            None => {
                return false;
            },
        };
        let there = match self.spaces.get(&addr) {
            Some(space) => space.semaphores.sems.contains_key(&key),
            None => false,
        };
        if !there {
            return false;
        }
        match self.spaces.remove(&addr) {
            Some(space) => {
                let mut space = space;
                let removed = space.semaphores.remove(key);
                self.spaces.insert(addr, space);
                proof {
                    assert(self.spaces@ =~= old(self).spaces@.insert(addr, self.spaces@[addr]));
                    Self::lemma_sems_keep_wf(old(self), self, addr);
                }
                removed
            },
            None => false,
        }
    }

    /// What [`ProcessManager::sem_wait`] returns for `key`.
    pub open spec fn spec_sem_wait_result(&self, key: u32) -> SemaphoreResult {
        match self.spec_semaphores() {
            Some(sems) => spec_set_wait_result(sems, key, self.current),
            None => SemaphoreResult::NotExist,
        }
    }

    /// Asks the semaphore under `key` for a permit for the current
    /// process, as [`SemaphoreSet::wait`] does. Where the result is
    /// `Block`, to block the process and to let another run is for the
    /// caller. A dead process finds no semaphore.
    pub fn sem_wait(&mut self, key: u32) -> (res: SemaphoreResult)
        requires
            old(self).wf(),
        ensures
            final(self).wf(),
            res == old(self).spec_sem_wait_result(key),
            res == SemaphoreResult::NotExist ==> Self::spec_unchanged(old(self), final(self)),
            res != SemaphoreResult::NotExist ==> Self::spec_sems_updated(
                old(self),
                final(self),
                spec_set_wait(old(self).spec_semaphores()->0, key, old(self).current),
            ),
    {
        let pid = self.current;
        let addr: u64 = match self.current_space() {
            Some(addr) => addr,
            None => {
                return SemaphoreResult::NotExist;
            },
        };
        let there = match self.spaces.get(&addr) {
            Some(space) => space.semaphores.sems.contains_key(&key),
            None => false,
        };
        if !there {
            return SemaphoreResult::NotExist;
        }
        match self.spaces.remove(&addr) {
            Some(space) => {
                let mut space = space;
                let res = space.semaphores.wait(key, pid);
                self.spaces.insert(addr, space);
                proof {
                    assert(self.spaces@ =~= old(self).spaces@.insert(addr, self.spaces@[addr]));
                    Self::lemma_sems_keep_wf(old(self), self, addr);
                }
                res
            },
            None => SemaphoreResult::NotExist,
        }
    }

    /// What [`ProcessManager::sem_signal`] returns for `key`.
    pub open spec fn spec_sem_signal_result(&self, key: u32) -> SemaphoreResult {
        match self.spec_semaphores() {
            Some(sems) => spec_set_signal_result(sems, key),
            None => SemaphoreResult::NotExist,
        }
    }

    /// Whether a permit can be given back to the semaphore under `key`:
    /// the current process finds no such semaphore, or somebody waits for
    /// it, or its count can still grow.
    pub open spec fn spec_can_signal(&self, key: u32) -> bool {
        self.spec_semaphores() matches Some(sems) ==> (sems.contains_key(key)
            ==> sems[key].can_signal())
    }

    /// Whether a permit can be given back to the semaphore under `key`.
    pub fn can_signal(&self, key: u32) -> (can: bool)
        requires
            self.wf(),
        ensures
            can == self.spec_can_signal(key),
    {
        let addr: u64 = match self.current_space() {
            Some(addr) => addr,
            None => {
                return true;
            },
        };
        match self.spaces.get(&addr) {
            Some(space) => match space.semaphores.sems.get(&key) {
                Some(sem) => sem.wait_queue.len() > 0 || sem.count < usize::MAX,
                None => true,
            },
            None => true,
        }
    }

    /// Gives a permit back to the semaphore under `key` of the current
    /// process, as [`SemaphoreSet::signal`] does. Where the result is
    /// `WakeUp`, to wake the process is for the caller. A dead process
    /// finds no semaphore.
    pub fn sem_signal(&mut self, key: u32) -> (res: SemaphoreResult)
        requires
            old(self).wf(),
            old(self).spec_can_signal(key),
        ensures
            final(self).wf(),
            res == old(self).spec_sem_signal_result(key),
            res == SemaphoreResult::NotExist ==> Self::spec_unchanged(old(self), final(self)),
            res != SemaphoreResult::NotExist ==> Self::spec_sems_updated(
                old(self),
                final(self),
                spec_set_signal(old(self).spec_semaphores()->0, key),
            ),
    {
        let addr: u64 = match self.current_space() {
            Some(addr) => addr,
            None => {
                return SemaphoreResult::NotExist;
            },
        };
        let there = match self.spaces.get(&addr) {
            Some(space) => space.semaphores.sems.contains_key(&key),
            None => false,
        };
        if !there {
            return SemaphoreResult::NotExist;
        }
        match self.spaces.remove(&addr) {
            Some(space) => {
                let mut space = space;
                let res = space.semaphores.signal(key);
                self.spaces.insert(addr, space);
                proof {
                    assert(self.spaces@ =~= old(self).spaces@.insert(addr, self.spaces@[addr]));
                    Self::lemma_sems_keep_wf(old(self), self, addr);
                }
                res
            },
            None => SemaphoreResult::NotExist,
        }
    }
}

} // verus!
