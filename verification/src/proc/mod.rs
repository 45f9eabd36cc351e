//! Processes: identity, scheduling state, virtual memory and semaphores.

use vstd::prelude::*;
use manager::{
    spec_popped,
    spec_put,
    spec_scheduled,
    spec_switched_pids,
    spec_switched_procs,
    spec_wake_procs,
    spec_wake_ready,
    Image,
    MapRequest,
};
use process::spec_clean_up_of;
use vm::heap::BrkPlan;
use vm::{spec_code_fits, CleanUp, MapError, PageRun, ProcessVm};

pub mod context;
pub mod data;
pub mod laws;
pub mod manager;
pub mod paging;
pub mod pid;
pub mod process;
pub mod sync;
pub mod vm;

pub use context::ProcessContext;
pub use data::ProcessData;
pub use manager::ProcessManager;
pub use paging::PageTableContext;
pub use pid::{PidAllocator, ProcessId};
pub use process::{Process, ProcessInner};
pub use sync::{Semaphore, SemaphoreResult, SemaphoreSet};

verus! {

/// The number of the kernel process.
pub const KERNEL_PID: u16 = 1;

/// What a process is doing.
///
/// A ready process becomes running when it is scheduled, a running one
/// ready when it is taken off the processor. A running or ready process
/// becomes blocked when it waits, a blocked one ready when it is woken. Any
/// process can die, and a dead one stays dead.
#[derive(Debug, Copy, Clone, Eq, PartialEq, Structural)]
pub enum ProgramStatus {
    Running,
    Ready,
    Blocked,
    Dead,
}

/// What a system call returns in place of a result where it fails.
pub const SYSCALL_FAILED: usize = usize::MAX;

/// What a semaphore call returns where no semaphore has the key.
pub const SEM_NOT_EXIST: usize = 1;

/// Makes the process table, with the kernel as its first process.
///
/// The kernel process is named `kernel_proc`, has the identifier 1, runs,
/// and is current. Its address space uses `page_table`, holds
/// `kernel_pages` as its code, and has the stack that the kernel was
/// started on. `app_list` names the programs that can be spawned.
pub fn init(
    page_table: PageTableContext,
    kernel_pages: &Vec<PageRun>,
    app_list: Option<Vec<String>>,
) -> (manager: ProcessManager)
    requires
        spec_code_fits(kernel_pages@),
    ensures
        manager.wf(),
        manager.current == ProcessId(KERNEL_PID),
        manager.processes@.dom() == Set::<u16>::empty().insert(KERNEL_PID),
        manager.processes@[KERNEL_PID].pid == ProcessId(KERNEL_PID),
        manager.processes@[KERNEL_PID].inner.status == ProgramStatus::Running,
        manager.processes@[KERNEL_PID].inner.parent is None,
        manager.processes@[KERNEL_PID].inner.exit_code is None,
        manager.processes@[KERNEL_PID].inner.ticks_passed == 0,
        manager.processes@[KERNEL_PID].inner.children@ == Seq::<ProcessId>::empty(),
        manager.processes@[KERNEL_PID].inner.proc_vm matches Some(vm) && vm.page_table
            == page_table && vm.code@ == kernel_pages@ && vm.stack
            == vm::stack::Stack::spec_kstack() && vm.heap == vm::heap::Heap::spec_empty(),
        manager.ready_queue@ == Seq::<ProcessId>::empty(),
        manager.wait_queue@ == Map::<u16, Vec<ProcessId>>::empty(),
        manager.spaces@.dom() == Set::<u64>::empty().insert(page_table.addr),
        manager.spaces@[page_table.addr].users@ == seq![ProcessId(KERNEL_PID)],
        manager.spaces@[page_table.addr].semaphores@ == Map::<u32, sync::SemaphoreView>::empty(),
        manager.pids.next == 2,
        manager.app_list == app_list,
{
    let proc_vm = ProcessVm::new(page_table).init_kernel_vm(kernel_pages);
    let mut pids = PidAllocator::new();
    let pid = ProcessId::new(&mut pids);
    let kproc = Process::new(pid, kernel_name(), None, Some(proc_vm), None);
    let manager = ProcessManager::new(kproc, app_list, pids);
    assert(manager.processes@.dom() =~= Set::<u16>::empty().insert(KERNEL_PID));
    manager
}

/// The name of the kernel process.
fn kernel_name() -> (name: String)
    ensures
        name@ == "kernel_proc"@,
{
    "kernel_proc".to_owned()
}

/// Whether `after` and `context_after` are what the timer's entry to
/// the scheduler makes of `before` and `context_before`.
pub open spec fn spec_switch(
    before: &ProcessManager,
    after: &ProcessManager,
    context_before: ProcessContext,
    context_after: ProcessContext,
) -> bool {
    let current = before.current;
    let caller = before.processes@[current.0].inner;
    let saved = spec_put(
        before.processes@,
        current,
        caller.spec_ticked().spec_saved(context_before),
    );
    let ready = if caller.status == ProgramStatus::Running {
        before.ready_queue@.push(current)
    } else {
        before.ready_queue@
    };
    &&& after.processes@ =~= spec_switched_procs(saved, ready)
    &&& after.ready_queue@ =~= spec_popped(ready)
    &&& after.pids == spec_switched_pids(before.pids, ready)
    &&& match spec_scheduled(saved, ready) {
        Some(next) => after.current == next && context_after == saved[next.0].inner.context,
        None => after.current == current && context_after == context_before,
    }
    &&& after.wait_queue@ =~= before.wait_queue@
    &&& after.spaces@ =~= before.spaces@
    &&& after.app_list == before.app_list
}

/// The timer's entry to the scheduler: takes the current process off the
/// processor and lets the next one run.
///
/// Where the current process is running it joins the end of the ready
/// queue. In any case it counts a tick, its registers become those of
/// `context`, and it becomes ready. Then the scheduler chooses as
/// [`ProcessManager::switch_next`] says: where the first process of the
/// ready queue is ready, it becomes running and current and `context`
/// holds its registers; else the current process goes on.
pub fn switch(manager: &mut ProcessManager, context: &mut ProcessContext)
    requires
        old(manager).wf(),
    ensures
        final(manager).wf(),
        spec_switch(old(manager), final(manager), *old(context), *final(context)),
{
    let pid = manager.current;
    if manager.current().inner.status() == ProgramStatus::Running {
        manager.push_ready(pid);
    }
    manager.save_current(context);
    manager.switch_next(context);
}

/// The list of the processes, for the caller to print, as
/// [`ProcessManager::print_process_list`] makes it.
pub fn print_process_list(manager: &ProcessManager) -> (list: manager::ProcessList)
    requires
        manager.wf(),
    ensures
        forall|i: int|
            0 <= i < list.rows@.len() ==> manager.spec_alive((#[trigger] list.rows@[i]).pid.0)
                && manager::spec_row_shows(list.rows@[i], manager.processes@[list.rows@[i].pid.0]),
        forall|k: u16| #[trigger]
            manager.spec_alive(k) ==> exists|i: int|
                0 <= i < list.rows@.len() && (#[trigger] list.rows@[i]).pid.0 == k,
        forall|i: int, j: int|
            0 <= i < j < list.rows@.len() ==> (#[trigger] list.rows@[i]).pid.0 < (
            #[trigger] list.rows@[j]).pid.0,
        list.ready_queue@ == manager.ready_queue@,
{
    manager.print_process_list()
}

/// The value of the variable `key` in the environment of the current
/// process.
pub fn env(manager: &ProcessManager, key: &String) -> (value: Option<String>)
    requires
        manager.wf(),
    ensures
        ({
            let found = match manager.processes@[manager.current.0].inner.proc_data {
                Some(data) => data::spec_env_lookup(data.env@, key@),
                None => None,
            };
            &&& value is Some == found is Some
            &&& value matches Some(v) ==> Some(v@) == found
        }),
{
    match &manager.current().inner.proc_data {
        Some(data) => data.env(key),
        None => None,
    }
}

/// Ends the current process with the exit code `ret`, as
/// [`ProcessManager::kill`] does. The caller halts the processor until
/// the next interrupt, which lets another process run.
pub fn process_exit(manager: &mut ProcessManager, ret: isize) -> (freed: Option<CleanUp>)
    requires
        old(manager).wf(),
    ensures
        final(manager).wf(),
        final(manager).current == old(manager).current,
        final(manager).pids == old(manager).pids,
        final(manager).app_list == old(manager).app_list,
        !old(manager).spec_alive(old(manager).current.0) ==> freed is None
            && ProcessManager::spec_unchanged(old(manager), final(manager)),
        old(manager).spec_alive(old(manager).current.0) ==> ProcessManager::spec_killed(
            old(manager),
            final(manager),
            old(manager).current,
            ret,
        ),
        old(manager).spec_alive(old(manager).current.0) ==> freed is Some && spec_clean_up_of(
            old(manager).processes@[old(manager).current.0].inner.proc_vm->0,
            old(manager).spaces@[old(manager).spec_space_of(
                old(manager).current.0,
            )].users@.len() as usize,
            freed->0,
        ),
{
    manager.kill_current(ret)
}

/// The pages that the caller has to map before it reports a page fault
/// to [`handle_page_fault`].
pub fn page_fault_plan(manager: &ProcessManager, addr: u64, err_code: u64) -> (plan: Option<
    MapRequest,
>)
    requires
        manager.wf(),
    ensures
        plan == manager.spec_page_fault_plan(addr, err_code),
{
    manager.page_fault_plan(addr, err_code)
}

/// Handles a page fault of the current process, as
/// [`ProcessManager::handle_page_fault`] does; the result says whether it
/// is resolved. An unresolved fault is fatal.
pub fn handle_page_fault(
    manager: &mut ProcessManager,
    addr: u64,
    err_code: u64,
    mapped: Result<(), MapError>,
) -> (resolved: bool)
    requires
        old(manager).wf(),
    ensures
        final(manager).wf(),
        resolved == old(manager).spec_fault_resolved(addr, err_code, mapped),
        !resolved ==> ProcessManager::spec_unchanged(old(manager), final(manager)),
        resolved ==> {
            let pid = old(manager).current;
            let before = old(manager).processes@[pid.0].inner;
            let after = final(manager).processes@[pid.0].inner;
            &&& ProcessManager::spec_updated(old(manager), final(manager), pid, after)
            &&& process::spec_same_but_stack(before, after)
            &&& after.proc_vm->0.stack == before.proc_vm->0.stack.spec_after_fault(addr, mapped)
        },
{
    manager.handle_page_fault(addr, err_code, mapped)
}

/// The names of the programs that can be spawned.
pub fn list_app(manager: &ProcessManager) -> (list: &Option<Vec<String>>)
    ensures
        *list == manager.app_list,
{
    manager.app_list()
}

/// Spawns the program named `name` of the list of programs, which the
/// caller has loaded as `image`, as a child of the current process.
///
/// The result is `None`, and nothing changes, where the list has no such
/// program or [`ProcessManager::spawn`] makes none.
pub fn spawn(manager: &mut ProcessManager, name: &String, image: Option<Image>) -> (pid: Option<
    ProcessId,
>)
    requires
        old(manager).wf(),
    ensures
        final(manager).wf(),
        pid is Some == (old(manager).spec_find_app(name@) is Some && old(manager).spec_can_spawn(
            image,
        )),
        pid is None ==> ProcessManager::spec_unchanged(old(manager), final(manager)),
        pid matches Some(new) ==> spec_spawned_by(old(manager), final(manager), new, image->0, name@),
{
    if manager.find_app(name).is_none() {
        return None;
    }
    elf_spawn(manager, name.clone(), image)
}

/// Whether `after` is `before` with the process `new` just spawned from
/// `image` under the name `name`, as a child of the current process.
pub open spec fn spec_spawned_by(
    before: &ProcessManager,
    after: &ProcessManager,
    new: ProcessId,
    image: Image,
    name: Seq<char>,
) -> bool {
    &&& Some((new, after.pids.next)) == manager::spec_free_pid(
        before.processes@,
        before.pids.next,
        manager::PID_TRIES as nat,
    )
    &&& !before.processes@.contains_key(new.0)
    &&& after.processes@ == before.processes@.insert(new.0, after.processes@[new.0])
    &&& after.processes@[new.0].pid == new
    &&& ProcessManager::spec_spawned(
        after.processes@[new.0].inner,
        image,
        name,
        Some(before.current),
        None,
    )
    &&& after.ready_queue@ == before.ready_queue@.push(new)
    &&& after.wait_queue@ == before.wait_queue@
    &&& after.spaces@ == before.spaces@.insert(
        image.page_table.addr,
        after.spaces@[image.page_table.addr],
    )
    &&& after.spaces@[image.page_table.addr].users@ == seq![new]
    &&& after.spaces@[image.page_table.addr].semaphores@ == Map::<
        u32,
        sync::SemaphoreView,
    >::empty()
    &&& after.current == before.current
    &&& after.app_list == before.app_list
}

/// Spawns a program that the caller has loaded as `image`, under the
/// name `name` and as a child of the current process, as
/// [`ProcessManager::spawn`] does.
pub fn elf_spawn(manager: &mut ProcessManager, name: String, image: Option<Image>) -> (pid: Option<
    ProcessId,
>)
    requires
        old(manager).wf(),
    ensures
        final(manager).wf(),
        pid is Some == old(manager).spec_can_spawn(image),
        pid is None ==> ProcessManager::spec_unchanged(old(manager), final(manager)),
        pid matches Some(new) ==> spec_spawned_by(old(manager), final(manager), new, image->0, name@),
{
    let parent = manager.current;
    manager.spawn(image, name, Some(parent), None)
}

/// Whether `after`, `context_after` and `freed` are what the system call
/// `exit` with the exit code `ret` makes of `before` and `context_before`.
pub open spec fn spec_exit(
    before: &ProcessManager,
    after: &ProcessManager,
    ret: isize,
    context_before: ProcessContext,
    context_after: ProcessContext,
    freed: Option<CleanUp>,
) -> bool {
    let current = before.current;
    &&& after.app_list == before.app_list
    &&& after.spec_exit_code(current) == (if before.spec_alive(current.0) {
        Some(ret)
    } else {
        before.spec_exit_code(current)
    })
    &&& freed is Some == before.spec_alive(current.0)
    &&& before.spec_alive(current.0) ==> spec_clean_up_of(
        before.processes@[current.0].inner.proc_vm->0,
        before.spaces@[before.spec_space_of(current.0)].users@.len() as usize,
        freed->0,
    )
    &&& exists|killed: ProcessManager|
        {
            &&& killed.wf()
            &&& killed.current == current
            &&& killed.pids == before.pids
            &&& (if before.spec_alive(current.0) {
                ProcessManager::spec_killed(before, &killed, current, ret)
            } else {
                ProcessManager::spec_unchanged(before, &killed)
            })
            &&& #[trigger] spec_switch_next(&killed, after, context_before, context_after)
        }
}

/// The system call `exit`: ends the current process with the exit code
/// `ret`, as [`ProcessManager::kill`] does, and lets the next process
/// run, as [`ProcessManager::switch_next`] does.
pub fn exit(manager: &mut ProcessManager, ret: isize, context: &mut ProcessContext) -> (freed:
    Option<CleanUp>)
    requires
        old(manager).wf(),
    ensures
        final(manager).wf(),
        spec_exit(old(manager), final(manager), ret, *old(context), *final(context), freed),
{
    let freed = manager.kill_current(ret);
    let ghost killed = *manager;
    proof {
        if old(manager).spec_alive(old(manager).current.0) {
            lemma_wakes_keep_exit_code(
                old(manager).processes@.insert(
                    old(manager).current.0,
                    Process {
                        pid: old(manager).current,
                        inner: old(manager).processes@[old(manager).current.0].inner.spec_killed(ret),
                    },
                ),
                old(manager).spec_waiters(old(manager).current),
                Some(ret),
                old(manager).current,
            );
        }
    }
    manager.switch_next(context);
    assert(spec_switch_next(&killed, manager, *old(context), *context));
    freed
}

/// Whether `after` and `context_after` are what
/// [`ProcessManager::switch_next`] makes of `before` and `context_before`.
pub open spec fn spec_switch_next(
    before: &ProcessManager,
    after: &ProcessManager,
    context_before: ProcessContext,
    context_after: ProcessContext,
) -> bool {
    &&& after.processes@ == spec_switched_procs(before.processes@, before.ready_queue@)
    &&& after.ready_queue@ == spec_popped(before.ready_queue@)
    &&& after.pids == spec_switched_pids(before.pids, before.ready_queue@)
    &&& after.wait_queue@ == before.wait_queue@
    &&& after.spaces@ == before.spaces@
    &&& after.app_list == before.app_list
    &&& match spec_scheduled(before.processes@, before.ready_queue@) {
        Some(next) => after.current == next && context_after
            == before.processes@[next.0].inner.context,
        None => after.current == before.current && context_after == context_before,
    }
}

/// Waking processes gives none of them an exit code and takes none away.
pub proof fn lemma_wakes_keep_exit_code(
    procs: Map<u16, Process>,
    waiters: Seq<ProcessId>,
    ret: Option<isize>,
    pid: ProcessId,
)
    ensures
        manager::spec_wake_all_procs(procs, waiters, ret).dom() == procs.dom(),
        procs.contains_key(pid.0) ==> manager::spec_wake_all_procs(
            procs,
            waiters,
            ret,
        )[pid.0].inner.exit_code == procs[pid.0].inner.exit_code,
    decreases waiters.len(),
{
    if waiters.len() > 0 {
        lemma_wakes_keep_exit_code(procs, waiters.drop_last(), ret, pid);
        lemma_wakes_keep_exit_code(procs, waiters.drop_last(), ret, waiters.last());
        assert(manager::spec_wake_all_procs(procs, waiters, ret).dom() =~= procs.dom());
    }
}

/// Whether `after` and `context_after` are what the system call
/// `wait_pid` for `pid` makes of `before` and `context_before`.
pub open spec fn spec_wait_pid(
    before: &ProcessManager,
    after: &ProcessManager,
    pid: u16,
    context_before: ProcessContext,
    context_after: ProcessContext,
) -> bool {
    let current = before.current;
    let caller = before.processes@[current.0].inner;
    let blocked = spec_put(
        before.processes@,
        current,
        caller.spec_ticked().spec_saved(context_before).spec_with_status(ProgramStatus::Blocked),
    );
    let ready = before.ready_queue@;
    &&& after.spaces@ =~= before.spaces@
    &&& after.app_list == before.app_list
    &&& !before.processes@.contains_key(pid) ==> ProcessManager::spec_unchanged(before, after)
        && context_after == context_before.spec_with_rax(SYSCALL_FAILED)
    &&& before.spec_exit_code(ProcessId(pid)) matches Some(ret) ==> ProcessManager::spec_unchanged(
        before,
        after,
    ) && context_after == context_before.spec_with_rax(ret as usize)
    &&& before.processes@.contains_key(pid) && before.spec_exit_code(ProcessId(pid)) is None ==> {
        &&& after.spec_waiters(ProcessId(pid)) =~= (if before.spec_waiters(ProcessId(pid)).contains(
            current,
        ) {
            before.spec_waiters(ProcessId(pid))
        } else {
            before.spec_waiters(ProcessId(pid)).push(current)
        })
        &&& after.wait_queue@.contains_key(pid)
        &&& after.wait_queue@.remove(pid) =~= before.wait_queue@.remove(pid)
        &&& after.processes@ =~= spec_switched_procs(blocked, ready)
        &&& after.ready_queue@ =~= spec_popped(ready)
        &&& after.pids == spec_switched_pids(before.pids, ready)
        &&& match spec_scheduled(blocked, ready) {
            Some(next) => after.current == next && context_after == blocked[next.0].inner.context,
            None => after.current == current && context_after == context_before,
        }
    }
}

/// The system call `wait_pid` of the current process for the process
/// numbered `pid`.
///
/// - Where there is no such process, the call fails at once: `context`
///   gets [`SYSCALL_FAILED`] as the result, and nothing else changes.
/// - Where the process has ended, the call returns at once: `context`
///   gets its exit code as the result, and nothing else changes.
/// - Else the current process joins those that wait for `pid`, counts a
///   tick, keeps the registers of `context`, and is blocked. Then the
///   scheduler chooses as [`ProcessManager::switch_next`] says. The current
///   process goes on when `pid` is killed, with the exit code as the
///   result of this call.
pub fn wait_pid(manager: &mut ProcessManager, pid: u16, context: &mut ProcessContext)
    requires
        old(manager).wf(),
    ensures
        final(manager).wf(),
        spec_wait_pid(old(manager), final(manager), pid, *old(context), *final(context)),
{
    let target = ProcessId(pid);
    if manager.get_proc(&target).is_none() {
        context.set_rax(SYSCALL_FAILED);
        return ;
    }
    match manager.get_exit_code(&target) {
        Some(ret) => {
            context.set_rax(#[verifier::truncate] (ret as usize));
        },
        None => {
            let current = manager.current;
            manager.wait_pid(target);
            manager.save_current(context);
            manager.block(current);
            manager.switch_next(context);
        },
    }
}

/// Whether `after`, `context_after` and `child` are what the system
/// call `fork` makes of `before` and `context_before`, after `failed` tries
/// of the child's stack gone wrong.
pub open spec fn spec_fork(
    before: &ProcessManager,
    after: &ProcessManager,
    context_before: ProcessContext,
    context_after: ProcessContext,
    failed: u64,
    child: Option<ProcessId>,
) -> bool {
    let caller = before.processes@[before.current.0].inner.spec_ticked().spec_saved(
        context_before,
    );
    &&& after.app_list == before.app_list
    &&& child is Some == before.spec_can_fork(failed)
    &&& child is None ==> ProcessManager::spec_updated(
        before,
        after,
        before.current,
        caller.spec_with_status(ProgramStatus::Running),
    ) && context_after == context_before.spec_with_rax(SYSCALL_FAILED)
    &&& child matches Some(c) ==> exists|saved: ProcessManager, forked: ProcessManager|
        {
            &&& saved.wf()
            &&& ProcessManager::spec_updated(before, &saved, before.current, caller)
            &&& forked.wf()
            &&& #[trigger] ProcessManager::spec_forked(&saved, &forked, c, failed)
            &&& spec_switch_next(&forked, after, context_before, context_after)
        }
}

/// The system call `fork` of the current process; the result is the
/// child's identifier.
///
/// The current process counts a tick and keeps the registers of
/// `context`. `failed` counts the tries of [`ProcessManager::fork_plan`]
/// that went wrong.
///
/// - Where [`ProcessManager::fork`] makes a child, parent and child are
///   ready and at the end of the ready queue, the parent finds the
///   child's identifier as the result of the call and the child finds 0,
///   and the scheduler chooses as [`ProcessManager::switch_next`] says.
/// - Else the call fails: the current process runs on, and `context` gets
///   [`SYSCALL_FAILED`] as the result.
pub fn fork(manager: &mut ProcessManager, context: &mut ProcessContext, failed: u64) -> (child:
    Option<ProcessId>)
    requires
        old(manager).wf(),
    ensures
        final(manager).wf(),
        spec_fork(old(manager), final(manager), *old(context), *final(context), failed, child),
{
    manager.save_current(context);
    let ghost saved = *manager;
    proof {
        manager::lemma_free_pid_by_keys(
            old(manager).processes@,
            saved.processes@,
            saved.pids.next,
            manager::PID_TRIES as nat,
        );
    }
    match manager.fork(failed) {
        Some(child) => {
            let ghost forked = *manager;
            manager.switch_next(context);
            assert(ProcessManager::spec_forked(&saved, &forked, child, failed));
            Some(child)
        },
        None => {
            manager.resume_current();
            context.set_rax(SYSCALL_FAILED);
            assert(final(manager).processes@ =~= old(manager).processes@.insert(
                old(manager).current.0,
                Process {
                    pid: old(manager).current,
                    inner: old(manager).processes@[old(manager).current.0].inner.spec_ticked().spec_saved(*old(context)).spec_with_status(
                        ProgramStatus::Running,
                    ),
                },
            ));
            None
        },
    }
}

/// Whether `after` and `ret` are what making a semaphore with `val`
/// permits under `key` makes of `before`: 1 and the new semaphore where the
/// current process lives and the key was free, else 0 and no change.
pub open spec fn spec_new_sem(
    before: &ProcessManager,
    after: &ProcessManager,
    key: u32,
    val: usize,
    ret: usize,
) -> bool {
    if before.spec_semaphores() matches Some(sems) && !sems.contains_key(key) {
        ret == 1 && ProcessManager::spec_sems_updated(
            before,
            after,
            before.spec_semaphores()->0.insert(key, sync::SemaphoreView::fresh(val)),
        )
    } else {
        ret == 0 && ProcessManager::spec_unchanged(before, after)
    }
}

/// Whether `after` and `ret` are what taking the semaphore under `key`
/// away makes of `before`: 1 and no such semaphore where the current
/// process had one, else 0 and no change.
pub open spec fn spec_remove_sem(
    before: &ProcessManager,
    after: &ProcessManager,
    key: u32,
    ret: usize,
) -> bool {
    if before.spec_semaphores() matches Some(sems) && sems.contains_key(key) {
        ret == 1 && ProcessManager::spec_sems_updated(
            before,
            after,
            before.spec_semaphores()->0.remove(key),
        )
    } else {
        ret == 0 && ProcessManager::spec_unchanged(before, after)
    }
}

/// The system call that makes a semaphore with `val` permits under `key`,
/// as [`ProcessManager::new_sem`] does: 1 where it was made, else 0.
pub fn new_sem(manager: &mut ProcessManager, key: u32, val: usize) -> (ret: usize)
    requires
        old(manager).wf(),
    ensures
        final(manager).wf(),
        spec_new_sem(old(manager), final(manager), key, val, ret),
{
    if manager.new_sem(key, val) {
        1
    } else {
        0
    }
}

/// The system call that takes the semaphore under `key` away, as
/// [`ProcessManager::remove_sem`] does: 1 where there was one, else 0.
pub fn remove_sem(manager: &mut ProcessManager, key: u32) -> (ret: usize)
    requires
        old(manager).wf(),
    ensures
        final(manager).wf(),
        spec_remove_sem(old(manager), final(manager), key, ret),
{
    if manager.remove_sem(key) {
        1
    } else {
        0
    }
}

/// Whether `after` and `context_after` are what giving a permit back to
/// the semaphore under `key` makes of `before` and `context_before`.
pub open spec fn spec_sem_signal(
    before: &ProcessManager,
    after: &ProcessManager,
    key: u32,
    context_before: ProcessContext,
    context_after: ProcessContext,
) -> bool {
    &&& after.wait_queue@ =~= before.wait_queue@
    &&& after.current == before.current
    &&& after.pids == before.pids
    &&& after.app_list == before.app_list
    &&& !before.spec_can_signal(key) ==> ProcessManager::spec_unchanged(before, after)
        && context_after == context_before.spec_with_rax(SYSCALL_FAILED)
    &&& before.spec_can_signal(key) ==> match before.spec_sem_signal_result(key) {
        SemaphoreResult::NotExist => ProcessManager::spec_unchanged(before, after)
            && context_after == context_before.spec_with_rax(SEM_NOT_EXIST),
        SemaphoreResult::Done => ProcessManager::spec_sems_updated(
            before,
            after,
            sync::spec_set_signal(before.spec_semaphores()->0, key),
        ) && context_after == context_before.spec_with_rax(0),
        SemaphoreResult::WakeUp(pid) => {
            let addr = before.spec_space_of(before.current.0);
            &&& context_after == context_before
            &&& after.processes@ =~= spec_wake_procs(before.processes@, pid, Some(0isize))
            &&& after.ready_queue@ =~= spec_wake_ready(before.processes@, before.ready_queue@, pid)
            &&& after.spaces@ =~= before.spaces@.insert(addr, after.spaces@[addr])
            &&& after.spaces@[addr].users == before.spaces@[addr].users
            &&& after.spaces@[addr].semaphores@ =~= sync::spec_set_signal(
                before.spec_semaphores()->0,
                key,
            )
        },
        SemaphoreResult::Block(_) => false,
    }
}

/// The system call that gives a permit back to the semaphore under
/// `key`.
///
/// - Where the count of the semaphore cannot grow any more, the call
///   fails: `context` gets [`SYSCALL_FAILED`] as the result and nothing
///   else changes.
/// - Where there is no such semaphore, `context` gets [`SEM_NOT_EXIST`].
/// - Where nobody waits, the count grows by one and `context` gets 0.
/// - Else the process that has waited longest leaves the queue of the
///   semaphore and is woken with 0 as the result of its wait, as
///   [`ProcessManager::wake_up`] does; the count and `context` stay.
pub fn sem_signal(manager: &mut ProcessManager, key: u32, context: &mut ProcessContext)
    requires
        old(manager).wf(),
    ensures
        final(manager).wf(),
        spec_sem_signal(old(manager), final(manager), key, *old(context), *final(context)),
{
    if !manager.can_signal(key) {
        context.set_rax(SYSCALL_FAILED);
        return ;
    }
    let ret = manager.sem_signal(key);
    match ret {
        SemaphoreResult::Done => context.set_rax(0),
        SemaphoreResult::NotExist => context.set_rax(SEM_NOT_EXIST),
        SemaphoreResult::WakeUp(pid) => manager.wake_up(pid, Some(0)),
        SemaphoreResult::Block(_) => {},
    }
}

/// Whether `after` and `context_after` are what asking the semaphore
/// under `key` for a permit makes of `before` and `context_before`.
pub open spec fn spec_sem_wait(
    before: &ProcessManager,
    after: &ProcessManager,
    key: u32,
    context_before: ProcessContext,
    context_after: ProcessContext,
) -> bool {
    &&& after.wait_queue@ =~= before.wait_queue@
    &&& after.app_list == before.app_list
    &&& match before.spec_sem_wait_result(key) {
        SemaphoreResult::NotExist => ProcessManager::spec_unchanged(before, after)
            && context_after == context_before.spec_with_rax(SEM_NOT_EXIST),
        SemaphoreResult::Done => ProcessManager::spec_sems_updated(
            before,
            after,
            sync::spec_set_wait(before.spec_semaphores()->0, key, before.current),
        ) && context_after == context_before.spec_with_rax(0),
        SemaphoreResult::Block(_) => {
            let current = before.current;
            let addr = before.spec_space_of(current.0);
            let caller = before.processes@[current.0].inner;
            let blocked = spec_put(
                before.processes@,
                current,
                caller.spec_ticked().spec_saved(context_before).spec_with_status(
                    ProgramStatus::Blocked,
                ),
            );
            let ready = before.ready_queue@;
            &&& after.spaces@ =~= before.spaces@.insert(addr, after.spaces@[addr])
            &&& after.spaces@[addr].users == before.spaces@[addr].users
            &&& after.spaces@[addr].semaphores@ =~= sync::spec_set_wait(
                before.spec_semaphores()->0,
                key,
                current,
            )
            &&& after.processes@ =~= spec_switched_procs(blocked, ready)
            &&& after.ready_queue@ =~= spec_popped(ready)
            &&& after.pids == spec_switched_pids(before.pids, ready)
            &&& match spec_scheduled(blocked, ready) {
                Some(next) => after.current == next && context_after
                    == blocked[next.0].inner.context,
                None => after.current == current && context_after == context_before,
            }
        },
        SemaphoreResult::WakeUp(_) => false,
    }
}

/// The system call that asks the semaphore under `key` for a permit.
///
/// - Where there is no such semaphore, `context` gets [`SEM_NOT_EXIST`].
/// - Where the count is above zero it is lowered by one, and `context`
///   gets 0: the current process goes on.
/// - Else the current process joins the queue of the semaphore, counts a
///   tick, keeps the registers of `context`, and is blocked. Then the
///   scheduler chooses as [`ProcessManager::switch_next`] says.
pub fn sem_wait(manager: &mut ProcessManager, key: u32, context: &mut ProcessContext)
    requires
        old(manager).wf(),
    ensures
        final(manager).wf(),
        spec_sem_wait(old(manager), final(manager), key, *old(context), *final(context)),
{
    let ret = manager.sem_wait(key);
    match ret {
        SemaphoreResult::Done => context.set_rax(0),
        SemaphoreResult::NotExist => context.set_rax(SEM_NOT_EXIST),
        SemaphoreResult::Block(_) => {
            let current = manager.current;
            manager.save_current(context);
            manager.block(current);
            manager.switch_next(context);
        },
        SemaphoreResult::WakeUp(_) => {},
    }
}

/// The pages that the caller has to map or unmap before it makes the
/// same request of [`brk`].
pub fn brk_plan(manager: &ProcessManager, addr: Option<u64>) -> (plan: BrkPlan)
    requires
        manager.wf(),
    ensures
        plan == (match manager.processes@[manager.current.0].inner.proc_vm {
            Some(vm) => vm.heap.spec_brk_plan(addr),
            None => BrkPlan::Nothing,
        }),
{
    manager.brk_plan(addr)
}

/// The system call `brk`: reads or moves the end of the heap of the
/// current process, as [`ProcessManager::brk`] does. `None` says that the
/// request is refused.
pub fn brk(manager: &mut ProcessManager, addr: Option<u64>, done: bool) -> (res: Option<u64>)
    requires
        old(manager).wf(),
    ensures
        final(manager).wf(),
        final(manager).ready_queue@ == old(manager).ready_queue@,
        final(manager).wait_queue@ == old(manager).wait_queue@,
        final(manager).spaces@ == old(manager).spaces@,
        final(manager).current == old(manager).current,
        final(manager).pids == old(manager).pids,
        final(manager).app_list == old(manager).app_list,
        !old(manager).spec_alive(old(manager).current.0) ==> res is None && final(manager).processes@ == old(manager).processes@,
        old(manager).spec_alive(old(manager).current.0) ==> {
            let heap = old(manager).processes@[old(manager).current.0].inner.proc_vm->0.heap;
            let users = old(manager).spaces@[old(manager).spec_space_of(
                old(manager).current.0,
            )].users@;
            &&& res == heap.spec_brk_result(addr, done)
            &&& !heap.spec_brk_moves(addr, done) ==> final(manager).processes@ == old(manager).processes@
            &&& heap.spec_brk_moves(addr, done) ==> final(manager).processes@
                == manager::spec_share_heap_all(
                old(manager).processes@,
                users,
                heap.spec_brk_heap(addr, done),
            )
        },
{
    manager.brk(addr, done)
}

/// Whether the process `pid` has not ended: it lives, or there is no
/// such process.
pub fn still_alive(manager: &ProcessManager, pid: ProcessId) -> (alive: bool)
    ensures
        alive == manager.spec_exit_code(pid) is None,
{
    manager.get_exit_code(&pid).is_none()
}

} // verus!
