//! The memory of the current process: page faults and the heap.

use vstd::prelude::*;
use crate::proc::pid::ProcessId;
use crate::proc::process::Process;
use crate::proc::vm::{MapError, PageRun};
use crate::proc::vm::heap::{BrkPlan, Heap};

use super::ProcessManager;

verus! {

/// The page fault was caused by a page-protection violation.
pub const PROTECTION_VIOLATION: u64 = 0x1;

/// The access that caused the page fault was a write.
pub const CAUSED_BY_WRITE: u64 = 0x2;

/// The access that caused the page fault came from user mode.
pub const USER_MODE: u64 = 0x4;

/// The page fault came of a reserved bit set in a page-table entry.
pub const MALFORMED_TABLE: u64 = 0x8;

/// The access that caused the page fault was an instruction fetch.
pub const INSTRUCTION_FETCH: u64 = 0x10;

/// The page fault was caused by a protection key.
pub const PROTECTION_KEY: u64 = 0x20;

/// The page fault was caused by a shadow-stack access.
pub const SHADOW_STACK: u64 = 0x40;

/// The page fault was caused by SGX access control.
pub const SGX: u64 = 0x8000;

/// The page fault came of an RMP violation.
pub const RMP: u64 = 0x8000_0000;

/// Whether the error code `code` has every bit of `flag` set.
pub open spec fn spec_has_flag(code: u64, flag: u64) -> bool {
    code & flag == flag
}

/// Whether the error code `code` names a page fault that growing a stack
/// cannot resolve.
pub open spec fn spec_fatal_fault(code: u64) -> bool {
    ||| spec_has_flag(code, PROTECTION_VIOLATION)
    ||| spec_has_flag(code, MALFORMED_TABLE)
    ||| spec_has_flag(code, INSTRUCTION_FETCH)
    ||| spec_has_flag(code, PROTECTION_KEY)
    ||| spec_has_flag(code, SHADOW_STACK)
    ||| spec_has_flag(code, SGX)
    ||| spec_has_flag(code, RMP)
}

/// Whether the error code `code` has every bit of `flag` set.
pub fn has_flag(code: u64, flag: u64) -> (set: bool)
    ensures
        set == spec_has_flag(code, flag),
{
    code & flag == flag
}

/// Whether the error code `code` names a page fault that growing a stack
/// cannot resolve: a protection violation, a malformed table, an
/// instruction fetch, a protection key, a shadow stack, SGX or RMP.
pub fn fatal_fault(code: u64) -> (fatal: bool)
    ensures
        fatal == spec_fatal_fault(code),
{
    has_flag(code, PROTECTION_VIOLATION) || has_flag(code, MALFORMED_TABLE) || has_flag(
        code,
        INSTRUCTION_FETCH,
    ) || has_flag(code, PROTECTION_KEY) || has_flag(code, SHADOW_STACK) || has_flag(code, SGX)
        || has_flag(code, RMP)
}

/// Pages to map, and whether code in user mode may touch them.
#[derive(Clone, Copy, Debug, PartialEq, Eq, Structural)]
pub struct MapRequest {
    pub run: PageRun,
    pub user_access: bool,
}

/// The processes `procs` after `pid`, where it lives, took `heap` as its
/// heap.
pub open spec fn spec_share_heap(procs: Map<u16, Process>, pid: ProcessId, heap: Heap) -> Map<
    u16,
    Process,
> {
    if procs.contains_key(pid.0) {
        procs.insert(pid.0, Process { pid, inner: procs[pid.0].inner.spec_with_heap(heap) })
    } else {
        procs
    }
}

/// The processes `procs` after those of `users` that live took `heap` as
/// their heap.
pub open spec fn spec_share_heap_all(procs: Map<u16, Process>, users: Seq<ProcessId>, heap: Heap)
    -> Map<u16, Process>
    decreases users.len(),
{
    if users.len() == 0 {
        procs
    } else {
        spec_share_heap(spec_share_heap_all(procs, users.drop_last(), heap), users.last(), heap)
    }
}

/// Sharing a heap changes the heap of the users that live and nothing
/// else: every other process stays as it is.
pub proof fn lemma_share_heap_all(
    procs: Map<u16, Process>,
    users: Seq<ProcessId>,
    heap: Heap,
    k: u16,
)
    ensures
        spec_share_heap_all(procs, users, heap).dom() == procs.dom(),
        procs.contains_key(k) && users.contains(ProcessId(k)) ==> spec_share_heap_all(
            procs,
            users,
            heap,
        )[k] == (Process { pid: ProcessId(k), inner: procs[k].inner.spec_with_heap(heap) }),
        procs.contains_key(k) && !users.contains(ProcessId(k)) ==> spec_share_heap_all(
            procs,
            users,
            heap,
        )[k] == procs[k],
    decreases users.len(),
{
    if users.len() > 0 {
        let front = users.drop_last();
        let before = spec_share_heap_all(procs, front, heap);
        lemma_share_heap_all(procs, front, heap, k);
        lemma_share_heap_all(procs, front, heap, users.last().0);
        assert(spec_share_heap_all(procs, users, heap).dom() =~= procs.dom());
        if procs.contains_key(k) {
            if users.last() == ProcessId(k) {
                assert(users[users.len() - 1] == ProcessId(k));
                if front.contains(ProcessId(k)) {
                    let inner = procs[k].inner;
                    assert(inner.spec_with_heap(heap).spec_with_heap(heap) == inner.spec_with_heap(
                        heap,
                    ));
                }
            } else {
                if users.contains(ProcessId(k)) {
                    let j = choose|j: int| 0 <= j < users.len() && users[j] == ProcessId(k);
                    assert(front[j] == ProcessId(k));
                }
                if front.contains(ProcessId(k)) {
                    let j = choose|j: int| 0 <= j < front.len() && front[j] == ProcessId(k);
                    assert(users[j] == ProcessId(k));
                }
            }
        }
    }
}

impl ProcessManager {
    /// The pages that the caller has to map before it reports a fault at
    /// `addr` with the error code `err_code` to
    /// [`ProcessManager::handle_page_fault`], with the access that they
    /// need: pages of the kernel process are not for user mode.
    pub fn page_fault_plan(&self, addr: u64, err_code: u64) -> (plan: Option<MapRequest>)
        requires
            self.wf(),
        ensures
            plan == self.spec_page_fault_plan(addr, err_code),
    {
        if fatal_fault(err_code) {
            return None;
        }
        let user_access: bool = self.current.0 != crate::proc::KERNEL_PID;
        match self.current().inner.page_fault_plan(addr) {
            Some(run) => Some(MapRequest { run, user_access }),
            None => None,
        }
    }

    /// The pages that a fault at `addr` with the error code `err_code`
    /// asks for: none where the fault is fatal or the current process is
    /// dead, else those by which its stack has to grow.
    pub open spec fn spec_page_fault_plan(&self, addr: u64, err_code: u64) -> Option<MapRequest> {
        let current = self.processes@[self.current.0].inner;
        if spec_fatal_fault(err_code) || current.proc_vm is None {
            None
        } else {
            match current.proc_vm->0.stack.spec_grow_plan(addr) {
                Some(run) => Some(
                    MapRequest { run, user_access: self.current.0 != crate::proc::KERNEL_PID },
                ),
                None => None,
            }
        }
    }

    /// Whether a fault at `addr` with the error code `err_code` is
    /// resolved, given what came of mapping the pages of the plan.
    pub open spec fn spec_fault_resolved(
        &self,
        addr: u64,
        err_code: u64,
        mapped: Result<(), MapError>,
    ) -> bool {
        let current = self.processes@[self.current.0].inner;
        !spec_fatal_fault(err_code) && current.proc_vm is Some
            && current.proc_vm->0.stack.spec_resolves(addr, mapped)
    }

    /// Handles a page fault of the current process at `addr`; the result
    /// says whether it is resolved.
    ///
    /// A fault is fatal, and not resolved, where its error code names a
    /// protection violation, a malformed table, an instruction fetch, a
    /// protection key, a shadow stack, SGX or RMP. Any other is resolved
    /// where the stack of the current process resolves it, as
    /// [`crate::proc::vm::stack::Stack::handle_page_fault`] says: by
    /// growing down to the page of `addr`, provided that the caller could
    /// map the pages of [`ProcessManager::page_fault_plan`] (`mapped`).
    /// Nothing but that stack changes.
    pub fn handle_page_fault(&mut self, addr: u64, err_code: u64, mapped: Result<(), MapError>)
        -> (resolved: bool)
        requires
            old(self).wf(),
        ensures
            final(self).wf(),
            resolved == old(self).spec_fault_resolved(addr, err_code, mapped),
            !resolved ==> Self::spec_unchanged(old(self), final(self)),
            resolved ==> {
                let pid = old(self).current;
                let before = old(self).processes@[pid.0].inner;
                let after = final(self).processes@[pid.0].inner;
                &&& Self::spec_updated(old(self), final(self), pid, after)
                &&& crate::proc::process::spec_same_but_stack(before, after)
                &&& after.proc_vm->0.stack == before.proc_vm->0.stack.spec_after_fault(
                    addr,
                    mapped,
                )
            },
    {
        if fatal_fault(err_code) {
            return false;
        }
        let pid = self.current;
        let resolves = match self.processes.get(&pid.0) {
            Some(process) => match &process.inner.proc_vm {
                Some(vm) => vm.stack.is_on_stack(addr) && (addr >= vm.stack.range.start
                    || mapped.is_ok()),
                None => false,
            },
            None => false,
        };
        if !resolves {
            return false;
        }
        match self.processes.remove(&pid.0) {
            Some(process) => {
                let mut process = process;
                let resolved = process.inner.handle_page_fault(addr, mapped);
                self.processes.insert(pid.0, process);
                proof {
                    assert(self.processes@ =~= old(self).processes@.insert(
                        pid.0,
                        self.processes@[pid.0],
                    ));
                    Self::lemma_update_keeps_wf(old(self), self, pid);
                }
                resolved
            },
            None => false,
        }
    }

    /// The pages that the caller has to map or unmap before it makes the
    /// same request of [`ProcessManager::brk`]. A dead process asks for
    /// nothing.
    pub fn brk_plan(&self, addr: Option<u64>) -> (plan: BrkPlan)
        requires
            self.wf(),
        ensures
            plan == (match self.processes@[self.current.0].inner.proc_vm {
                Some(vm) => vm.heap.spec_brk_plan(addr),
                None => BrkPlan::Nothing,
            }),
    {
        match &self.current().inner.proc_vm {
            Some(vm) => vm.brk_plan(addr),
            None => BrkPlan::Nothing,
        }
    }

    /// Reads or moves the end of the heap of the current process, as
    /// [`Heap::brk`] does.
    ///
    /// Where the end moves, it moves for every user of the address space:
    /// they all have the one heap. A dead process has no heap: the result
    /// is `None`.
    pub fn brk(&mut self, addr: Option<u64>, done: bool) -> (res: Option<u64>)
        requires
            old(self).wf(),
        ensures
            final(self).wf(),
            final(self).ready_queue@ == old(self).ready_queue@,
            final(self).wait_queue@ == old(self).wait_queue@,
            final(self).spaces@ == old(self).spaces@,
            final(self).current == old(self).current,
            final(self).pids == old(self).pids,
            final(self).app_list == old(self).app_list,
            !old(self).spec_alive(old(self).current.0) ==> res is None && final(self).processes@
                == old(self).processes@,
            old(self).spec_alive(old(self).current.0) ==> {
                let heap = old(self).processes@[old(self).current.0].inner.proc_vm->0.heap;
                let users = old(self).spaces@[old(self).spec_space_of(old(self).current.0)].users@;
                &&& res == heap.spec_brk_result(addr, done)
                &&& !heap.spec_brk_moves(addr, done) ==> final(self).processes@ == old(self).processes@
                &&& heap.spec_brk_moves(addr, done) ==> final(self).processes@
                    == spec_share_heap_all(
                    old(self).processes@,
                    users,
                    heap.spec_brk_heap(addr, done),
                )
                &&& heap.spec_brk_moves(addr, done) ==> forall|k: u16| #[trigger]
                    old(self).processes@.contains_key(k) ==> final(self).processes@[k] == (
                    if users.contains(ProcessId(k)) {
                        Process {
                            pid: ProcessId(k),
                            inner: old(self).processes@[k].inner.spec_with_heap(
                                heap.spec_brk_heap(addr, done),
                            ),
                        }
                    } else {
                        old(self).processes@[k]
                    })
            },
    {
        let pid = self.current;
        let found: Option<(Heap, u64)> = match self.processes.get(&pid.0) {
            Some(process) => match &process.inner.proc_vm {
                Some(vm) => Some((vm.heap, vm.page_table.addr)),
                None => None,
            },
            None => None,
        };
        let (heap, space): (Heap, u64) = match found {
            Some(found) => found,
            None => {
                return None;
            },
        };
        let mut heap = heap;
        let res = heap.brk(addr, done);
        if addr.is_none() || res.is_none() {
            return res;
        }
        let users: &Vec<ProcessId> = match self.spaces.get(&space) {
            Some(space) => &space.users,
            None => {
                return res;
            },
        };
        let mut i: usize = 0;
        while i < users.len()
            invariant
                0 <= i <= users.len(),
                heap.wf(),
                old(self).wf(),
                users@ == old(self).spaces@[space].users@,
                self.processes@ == spec_share_heap_all(
                    old(self).processes@,
                    users@.take(i as int),
                    heap,
                ),
                self.processes@.dom() == old(self).processes@.dom(),
                forall|k: u16| #[trigger]
                    self.processes@.contains_key(k) ==> self.processes@[k].pid.0 == k
                        && self.processes@[k].wf() && self.processes@[k].inner.alive() == old(self).processes@[k].inner.alive() && (self.processes@[k].inner.alive()
                        ==> self.spec_space_of(k) == old(self).spec_space_of(k)),
                self.ready_queue@ == old(self).ready_queue@,
                self.wait_queue@ == old(self).wait_queue@,
                self.spaces@ == old(self).spaces@,
                self.current == old(self).current,
                self.pids == old(self).pids,
                self.app_list == old(self).app_list,
            decreases users.len() - i,
        {
            let user = users[i];
            assert(users@.take(i + 1).drop_last() =~= users@.take(i as int));
            let ghost before = self.processes@;
            match self.processes.remove(&user.0) {
                Some(process) => {
                    let mut process = process;
                    process.inner.share_heap(heap);
                    self.processes.insert(user.0, process);
                    assert(self.processes@ =~= spec_share_heap(before, user, heap));
                    assert(self.processes@.dom() =~= old(self).processes@.dom());
                },
                None => {
                    assert(self.processes@ =~= before);
                },
            }
            i = i + 1;
        }
        assert(users@.take(i as int) =~= users@);
        proof {
            assert forall|k: u16| #[trigger] old(self).processes@.contains_key(k) implies
                self.processes@[k] == (if users@.contains(ProcessId(k)) {
                Process { pid: ProcessId(k), inner: old(self).processes@[k].inner.spec_with_heap(heap) }
            } else {
                old(self).processes@[k]
            }) by {
                lemma_share_heap_all(old(self).processes@, users@, heap, k);
            }
        }
        proof {
            assert forall|k: u16| #[trigger]
                self.processes@.contains_key(k) implies self.processes@[k].pid.0 == k
                && self.processes@[k].wf() && (self.processes@[k].inner.alive()
                ==> self.spaces@.contains_key(self.spec_space_of(k))
                && self.spaces@[self.spec_space_of(k)].users@.contains(ProcessId(k))) by {
                assert(old(self).processes@.contains_key(k));
            }
            Self::lemma_queues_stay_in_table(old(self), self);
        }
        res
    }
}

} // verus!
