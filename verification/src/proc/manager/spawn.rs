//! Making processes: spawning a program and forking the current process.

use vstd::prelude::*;
use crate::proc::ProgramStatus;
use crate::proc::context::ProcessContext;
use crate::proc::pid::ProcessId;
use crate::proc::data::ProcessData;
use crate::proc::paging::PageTableContext;
use crate::proc::process::{Process, ProcessInner, spec_ascii_lower, spec_child_context};
use crate::proc::vm::{code_bytes, spec_code_fits, spec_total_pages, PageRun, ProcessVm, PAGE_SIZE};
use crate::proc::vm::stack::{STACK_INIT_BOT, STACK_INIT_TOP};
use crate::proc::sync::{SemaphoreSet, SemaphoreView};
use crate::proc::vm::heap::Heap;
use super::{AddressSpace, ProcessManager};

verus! {

/// The number of identifiers that the counter hands out before it repeats
/// itself.
pub const PID_TRIES: u32 = 0x1_0000;

/// A program that the caller has loaded into a page table of its own.
pub struct Image {
    /// The page table, a copy of the kernel's with the program mapped.
    pub page_table: PageTableContext,
    /// The pages of the program.
    pub code: Vec<PageRun>,
    /// The address at which the program starts.
    pub entry: u64,
}

/// The first identifier that names no process of `procs`, living or dead,
/// among the `tries` that a counter in state `next` hands out first, with
/// the state of the counter after it.
pub open spec fn spec_free_pid(procs: Map<u16, Process>, next: u16, tries: nat) -> Option<
    (ProcessId, u16),
>
    decreases tries,
{
    let pid = crate::proc::pid::spec_pid_of(next);
    let after = crate::proc::pid::spec_pid_after(next);
    if tries == 0 {
        None
    } else if procs.contains_key(pid) {
        spec_free_pid(procs, after, (tries - 1) as nat)
    } else {
        Some((ProcessId(pid), after))
    }
}

/// Which identifier is free depends only on which identifiers are in the
/// table.
pub proof fn lemma_free_pid_by_keys(
    procs: Map<u16, Process>,
    others: Map<u16, Process>,
    next: u16,
    tries: nat,
)
    requires
        forall|k: u16| #[trigger] procs.contains_key(k) == others.contains_key(k),
    ensures
        spec_free_pid(procs, next, tries) == spec_free_pid(others, next, tries),
    decreases tries,
{
    if tries > 0 {
        let pid = crate::proc::pid::spec_pid_of(next);
        assert(procs.contains_key(pid) == others.contains_key(pid));
        lemma_free_pid_by_keys(
            procs,
            others,
            crate::proc::pid::spec_pid_after(next),
            (tries - 1) as nat,
        );
    }
}

/// An identifier found free names no process of the table, and is not the
/// one that the counter never hands out.
pub proof fn lemma_free_pid(procs: Map<u16, Process>, next: u16, tries: nat)
    ensures
        spec_free_pid(procs, next, tries) matches Some((pid, _)) ==> pid.0 != u16::MAX
            && !procs.contains_key(pid.0),
    decreases tries,
{
    if tries > 0 {
        lemma_free_pid(procs, crate::proc::pid::spec_pid_after(next), (tries - 1) as nat);
    }
}

impl ProcessManager {
    /// The next identifier that names no process of the table, or `None`
    /// where every identifier names one. The counter moves on only where
    /// one is found.
    fn alloc_pid(&mut self) -> (pid: Option<ProcessId>)
        requires
            old(self).wf(),
        ensures
            final(self).wf(),
            final(self).processes@ == old(self).processes@,
            final(self).ready_queue@ == old(self).ready_queue@,
            final(self).wait_queue@ == old(self).wait_queue@,
            final(self).spaces@ == old(self).spaces@,
            final(self).current == old(self).current,
            final(self).app_list == old(self).app_list,
            match spec_free_pid(old(self).processes@, old(self).pids.next, PID_TRIES as nat) {
                Some((free, after)) => pid == Some(free) && final(self).pids.next == after,
                None => pid is None && final(self).pids == old(self).pids,
            },
    {
        let start = self.pids;
        let mut tries: u32 = 0;
        while tries < PID_TRIES
            invariant
                0 <= tries <= PID_TRIES,
                self.wf(),
                self.processes@ == old(self).processes@,
                self.ready_queue@ == old(self).ready_queue@,
                self.wait_queue@ == old(self).wait_queue@,
                self.spaces@ == old(self).spaces@,
                self.current == old(self).current,
                self.app_list == old(self).app_list,
                start == old(self).pids,
                spec_free_pid(old(self).processes@, old(self).pids.next, PID_TRIES as nat)
                    == spec_free_pid(
                    old(self).processes@,
                    self.pids.next,
                    (PID_TRIES - tries) as nat,
                ),
            decreases PID_TRIES - tries,
        {
            let pid = ProcessId::new(&mut self.pids);
            if !self.processes.contains_key(&pid.0) {
                return Some(pid);
            }
            tries = tries + 1;
        }
        self.pids = start;
        None
    }

    /// Whether a program can be spawned from `image`: it was loaded, its
    /// pages can be counted, its page table is not in use, and an
    /// identifier is free.
    pub open spec fn spec_can_spawn(&self, image: Option<Image>) -> bool {
        &&& image matches Some(img)
        &&& spec_code_fits(img.code@)
        &&& !self.spaces@.contains_key(img.page_table.addr)
        &&& spec_free_pid(self.processes@, self.pids.next, PID_TRIES as nat) is Some
    }

    /// Whether `inner` is what is kept of a process just spawned from
    /// `image` under the name `name`.
    pub open spec fn spec_spawned(
        inner: ProcessInner,
        image: Image,
        name: Seq<char>,
        parent: Option<ProcessId>,
        proc_data: Option<ProcessData>,
    ) -> bool {
        &&& inner.name@ == name.map_values(|c: char| spec_ascii_lower(c))
        &&& inner.parent == parent
        &&& inner.children@ == Seq::<ProcessId>::empty()
        &&& inner.ticks_passed == 0
        &&& inner.status == ProgramStatus::Ready
        &&& inner.context == ProcessContext::spec_default().spec_with_frame(
            image.entry,
            STACK_INIT_TOP,
        )
        &&& inner.exit_code is None
        &&& inner.page_table == Some(image.page_table)
        &&& proc_data is Some ==> inner.proc_data == proc_data
        &&& proc_data is None ==> (inner.proc_data matches Some(data) && data.env@ == Seq::<
            crate::proc::data::EnvVar,
        >::empty())
        &&& inner.proc_vm matches Some(vm)
        &&& vm.page_table == image.page_table
        &&& vm.heap == crate::proc::vm::heap::Heap::spec_empty()
        &&& vm.stack.usage == 1
        &&& vm.stack.range.start == STACK_INIT_BOT
        &&& vm.stack.range.end == STACK_INIT_BOT + PAGE_SIZE
        &&& vm.code@ == image.code@
        &&& vm.code_usage == spec_total_pages(image.code@) * PAGE_SIZE
    }

    /// Makes a process from a program that the caller has loaded.
    ///
    /// `image` is what came of loading: `None` where it failed. The
    /// caller has copied the kernel's page table, loaded the program into
    /// the copy, and mapped the first page of the stack there.
    ///
    /// Where [`ProcessManager::spec_can_spawn`] holds, the new process
    /// gets the first identifier that names no process of the table. It starts
    /// at the entry of the program on a stack of one page, is ready, joins
    /// the table and the end of the ready queue, and is the one user of a
    /// new address space without semaphores. Else the result is `None` and
    /// nothing changes.
    pub fn spawn(
        &mut self,
        image: Option<Image>,
        name: String,
        parent: Option<ProcessId>,
        proc_data: Option<ProcessData>,
    ) -> (pid: Option<ProcessId>)
        requires
            old(self).wf(),
        ensures
            final(self).wf(),
            pid is Some == old(self).spec_can_spawn(image),
            pid is None ==> Self::spec_unchanged(old(self), final(self)),
            pid matches Some(new) ==> {
                &&& Some((new, final(self).pids.next)) == spec_free_pid(
                    old(self).processes@,
                    old(self).pids.next,
                    PID_TRIES as nat,
                )
                &&& !old(self).processes@.contains_key(new.0)
                &&& final(self).processes@ == old(self).processes@.insert(
                    new.0,
                    final(self).processes@[new.0],
                )
                &&& final(self).processes@[new.0].pid == new
                &&& Self::spec_spawned(
                    final(self).processes@[new.0].inner,
                    image->0,
                    name@,
                    parent,
                    proc_data,
                )
                &&& final(self).ready_queue@ == old(self).ready_queue@.push(new)
                &&& final(self).wait_queue@ == old(self).wait_queue@
                &&& final(self).spaces@ == old(self).spaces@.insert(
                    (image->0).page_table.addr,
                    final(self).spaces@[(image->0).page_table.addr],
                )
                &&& final(self).spaces@[(image->0).page_table.addr].users@ == seq![new]
                &&& final(self).spaces@[(image->0).page_table.addr].semaphores@ == Map::<
                    u32,
                    crate::proc::sync::SemaphoreView,
                >::empty()
                &&& final(self).current == old(self).current
                &&& final(self).app_list == old(self).app_list
            },
    {
        let image = match image {
            Some(image) => image,
            None => {
                return None;
            },
        };
        if code_bytes(&image.code).is_none() {
            return None;
        }
        let addr: u64 = image.page_table.addr;
        if self.spaces.contains_key(&addr) {
            return None;
        }
        let pid = match self.alloc_pid() {
            Some(pid) => pid,
            None => {
                return None;
            },
        };
        proof {
            lemma_free_pid(old(self).processes@, old(self).pids.next, PID_TRIES as nat);
        }
        let vm = ProcessVm::new(image.page_table);
        let mut process = Process::new(pid, name, parent, Some(vm), proc_data);
        process.inner.load_elf(&image.code);
        let stack_top: u64 = process.alloc_init_user_stack();
        process.inner.init_user_stack_frame(image.entry, stack_top);
        process.inner.pause();
        self.processes.insert(pid.0, process);
        let mut users: Vec<ProcessId> = Vec::new();
        users.push(pid);
        self.spaces.insert(addr, AddressSpace { users, semaphores: SemaphoreSet::new() });
        proof {
            assert(self.spaces@[addr].users@ =~= seq![pid]);
            assert(self.spaces@[addr].users@[0] == pid);
            assert forall|k: u16| #[trigger]
                self.processes@.contains_key(k) implies self.processes@[k].pid.0 == k
                && self.processes@[k].wf() && (self.processes@[k].inner.alive()
                ==> self.spaces@.contains_key(self.spec_space_of(k))
                && self.spaces@[self.spec_space_of(k)].users@.contains(ProcessId(k))) by {
                if k != pid.0 {
                    assert(old(self).processes@.contains_key(k));
                    assert(self.processes@[k] == old(self).processes@[k]);
                    if self.processes@[k].inner.alive() {
                        assert(old(self).spec_space_of(k) != addr);
                    }
                }
            }
            Self::lemma_queues_stay_in_table(old(self), self);
            assert(self.wf());
        }
        self.push_ready(pid);
        Some(pid)
    }

    /// Whether the current process can be forked with `failed` tries of
    /// its stack gone wrong: it lives, the slot of the next try lies in
    /// the address space, and an identifier is free.
    pub open spec fn spec_can_fork(&self, failed: u64) -> bool {
        let parent = self.processes@[self.current.0].inner;
        &&& parent.alive()
        &&& parent.proc_vm->0.stack.spec_fork_bottom(parent.children@.len() + failed) >= 0
        &&& spec_free_pid(self.processes@, self.pids.next, PID_TRIES as nat) is Some
    }

    /// Whether `after` is what is kept of the process `before` once it has
    /// forked `child`: it is ready, has `child` as its last child, and
    /// finds the child's identifier as the result of its system call.
    pub open spec fn spec_fork_parent(before: ProcessInner, after: ProcessInner, child: ProcessId)
        -> bool {
        &&& after.name == before.name
        &&& after.parent == before.parent
        &&& after.children@ == before.children@.push(child)
        &&& after.ticks_passed == before.ticks_passed
        &&& after.status == ProgramStatus::Ready
        &&& after.context == before.context.spec_with_rax(child.0 as usize)
        &&& after.exit_code == before.exit_code
        &&& after.proc_data == before.proc_data
        &&& after.page_table == before.page_table
        &&& after.proc_vm == before.proc_vm
    }

    /// Whether `child` is what is kept of a child just forked from
    /// `parent`, the process `parent_pid`, after `failed` tries of its
    /// stack gone wrong.
    pub open spec fn spec_fork_child(
        parent: ProcessInner,
        parent_pid: ProcessId,
        child: ProcessInner,
        failed: u64,
    ) -> bool {
        &&& child.name@ == parent.name@
        &&& child.parent == Some(parent_pid)
        &&& child.children@ == Seq::<ProcessId>::empty()
        &&& child.ticks_passed == 0
        &&& child.status == ProgramStatus::Ready
        &&& child.exit_code is None
        &&& child.context.regs.rax == 0
        &&& child.proc_data is Some
        &&& child.proc_data->0@ == parent.proc_data->0@
        &&& child.proc_vm is Some
        &&& child.context == spec_child_context(
            parent.context,
            parent.proc_vm->0.stack.range.start,
            child.proc_vm->0.stack.range.start,
        )
        &&& child.proc_vm->0.page_table == parent.proc_vm->0.page_table
        &&& child.proc_vm->0.heap == parent.proc_vm->0.heap
        &&& child.proc_vm->0.stack.usage == parent.proc_vm->0.stack.usage
        &&& child.proc_vm->0.stack.range.start == parent.proc_vm->0.stack.spec_fork_bottom(
            parent.children@.len() + failed,
        )
        &&& child.proc_vm->0.stack.range.end == child.proc_vm->0.stack.range.start
            + parent.proc_vm->0.stack.usage * PAGE_SIZE
        &&& child.proc_vm->0.code@ == Seq::<PageRun>::empty()
        &&& child.proc_vm->0.code_usage == 0
    }

    /// Whether `after` is `before` with the current process forked into
    /// `child`.
    pub open spec fn spec_forked(
        before: &ProcessManager,
        after: &ProcessManager,
        child: ProcessId,
        failed: u64,
    ) -> bool {
        let parent = before.current;
        let addr = before.spec_space_of(parent.0);
        &&& Some((child, after.pids.next)) == spec_free_pid(
            before.processes@,
            before.pids.next,
            PID_TRIES as nat,
        )
        &&& child != parent
        &&& after.processes@ == before.processes@.insert(
            parent.0,
            after.processes@[parent.0],
        ).insert(child.0, after.processes@[child.0])
        &&& after.processes@[parent.0].pid == parent
        &&& after.processes@[child.0].pid == child
        &&& Self::spec_fork_parent(
            before.processes@[parent.0].inner,
            after.processes@[parent.0].inner,
            child,
        )
        &&& Self::spec_fork_child(
            before.processes@[parent.0].inner,
            parent,
            after.processes@[child.0].inner,
            failed,
        )
        &&& after.ready_queue@ == before.ready_queue@.push(parent).push(child)
        &&& after.wait_queue@ == before.wait_queue@
        &&& after.spaces@ == before.spaces@.insert(addr, after.spaces@[addr])
        &&& after.spaces@[addr].users@ == before.spaces@[addr].users@.push(child)
        &&& after.spaces@[addr].semaphores == before.spaces@[addr].semaphores
        &&& after.current == before.current
        &&& after.app_list == before.app_list
    }

    /// The pages that the caller has to map for the stack of a child of
    /// the current process, in its `attempt`-th try. The caller tries
    /// them in turn, beginning with try 0, copies the parent's stack to the
    /// first that it could map, and hands the number of that try to
    /// [`ProcessManager::fork`].
    pub fn fork_plan(&self, attempt: u64) -> (plan: Option<PageRun>)
        requires
            self.wf(),
        ensures
            !self.spec_alive(self.current.0) ==> plan is None,
            self.spec_alive(self.current.0) ==> plan == crate::proc::process::spec_fork_plan(
                self.processes@[self.current.0].inner.proc_vm->0,
                self.processes@[self.current.0].inner.children@.len(),
                attempt,
            ),
    {
        let parent = self.current();
        if parent.inner.status() == ProgramStatus::Dead {
            return None;
        }
        parent.inner.fork_plan(attempt)
    }

    /// Forks the current process; the result is the child's identifier.
    ///
    /// `failed` counts the tries of [`ProcessManager::fork_plan`] whose
    /// pages could not be mapped before those of try `failed` could.
    ///
    /// Where [`ProcessManager::spec_can_fork`] holds, the child gets the
    /// first identifier that names no process of the table. It is a copy
    /// of its
    /// parent with a stack of its own, uses the parent's page table and
    /// heap, and finds 0 as the result of the system call, where the
    /// parent finds the child's identifier. Both are ready and join the
    /// end of the ready queue, the parent first. Else the result is `None`
    /// and nothing changes.
    pub fn fork(&mut self, failed: u64) -> (child: Option<ProcessId>)
        requires
            old(self).wf(),
        ensures
            final(self).wf(),
            child is Some == old(self).spec_can_fork(failed),
            child is None ==> Self::spec_unchanged(old(self), final(self)),
            child matches Some(c) ==> Self::spec_forked(old(self), final(self), c, failed),
            child matches Some(c) ==> c != old(self).current && !old(self).processes@.contains_key(
                c.0,
            ),
    {
        let parent_pid = self.current;
        let able: Option<u64> = match self.processes.get(&parent_pid.0) {
            Some(process) => match &process.inner.proc_vm {
                Some(vm) => if process.inner.fork_plan(failed).is_some() {
                    Some(vm.page_table.addr)
                } else {
                    None
                },
                None => None,
            },
            None => None,
        };
        let addr: u64 = match able {
            Some(addr) => addr,
            None => {
                return None;
            },
        };
        let child_pid = match self.alloc_pid() {
            Some(pid) => pid,
            None => {
                return None;
            },
        };
        proof {
            lemma_free_pid(old(self).processes@, old(self).pids.next, PID_TRIES as nat);
        }
        let child: Option<Process> = match self.processes.remove(&parent_pid.0) {
            Some(process) => {
                let mut process = process;
                let child = process.fork(child_pid, failed);
                process.inner.pause();
                self.processes.insert(parent_pid.0, process);
                child
            },
            None => None,
        };
        match child {
            Some(child) => {
                let mut child = child;
                child.inner.pause();
                self.processes.insert(child_pid.0, child);
            },
            None => {},
        }
        match self.spaces.remove(&addr) {
            Some(space) => {
                let mut space = space;
                space.users.push(child_pid);
                self.spaces.insert(addr, space);
            },
            None => {},
        }
        proof {
            let users = old(self).spaces@[addr].users@;
            assert(self.spaces@ =~= old(self).spaces@.insert(addr, self.spaces@[addr]));
            assert(self.processes@ =~= old(self).processes@.insert(
                parent_pid.0,
                self.processes@[parent_pid.0],
            ).insert(child_pid.0, self.processes@[child_pid.0]));
            assert forall|k: u16| #[trigger]
                self.processes@.contains_key(k) implies self.processes@[k].pid.0 == k
                && self.processes@[k].wf() && (self.processes@[k].inner.alive()
                ==> self.spaces@.contains_key(self.spec_space_of(k))
                && self.spaces@[self.spec_space_of(k)].users@.contains(ProcessId(k))) by {
                if k == child_pid.0 {
                    assert(self.spaces@[addr].users@[users.len() as int] == child_pid);
                } else {
                    assert(old(self).processes@.contains_key(k));
                    if self.processes@[k].inner.alive() {
                        let a = old(self).spec_space_of(k);
                        assert(self.spec_space_of(k) == a);
                        assert(old(self).spaces@[a].users@.contains(ProcessId(k)));
                        if a == addr {
                            let j = choose|j: int| 0 <= j < users.len() && users[j] == ProcessId(k);
                            assert(self.spaces@[addr].users@[j] == ProcessId(k));
                        }
                    }
                }
            }
            Self::lemma_queues_stay_in_table(old(self), self);
            assert(self.wf());
        }
        self.push_ready(parent_pid);
        self.push_ready(child_pid);
        Some(child_pid)
    }
}

} // verus!
