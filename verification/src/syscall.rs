//! The system calls: their numbers, and the services that need nothing
//! but the process table.

use vstd::prelude::*;
use vstd::std_specs::convert::FromSpecImpl;
use crate::proc::manager::ProcessList;
use crate::proc::{ProcessContext, ProcessId, ProcessManager, SYSCALL_FAILED};

verus! {

/// A system call.
#[derive(Clone, Copy, Debug, PartialEq, Eq, Structural)]
pub enum Syscall {
    Read,
    Write,
    Time,
    Brk,
    GetPid,
    Fork,
    Spawn,
    Exit,
    WaitPid,
    Sem,
    ListDir,
    Exists,
    Cat,
    ListApp,
    Stat,
    Allocate,
    Deallocate,
    Unknown,
}

/// The system call with the number `n`; `Unknown` for a number that
/// names none.
pub open spec fn spec_syscall(n: usize) -> Syscall {
    if n == 0 {
        Syscall::Read
    } else if n == 1 {
        Syscall::Write
    } else if n == 2 {
        Syscall::Time
    } else if n == 12 {
        Syscall::Brk
    } else if n == 39 {
        Syscall::GetPid
    } else if n == 58 {
        Syscall::Fork
    } else if n == 59 {
        Syscall::Spawn
    } else if n == 60 {
        Syscall::Exit
    } else if n == 61 {
        Syscall::WaitPid
    } else if n == 62 {
        Syscall::Sem
    } else if n == 217 {
        Syscall::ListDir
    } else if n == 218 {
        Syscall::Exists
    } else if n == 219 {
        Syscall::Cat
    } else if n == 65531 {
        Syscall::ListApp
    } else if n == 65532 {
        Syscall::Stat
    } else if n == 65533 {
        Syscall::Allocate
    } else if n == 65534 {
        Syscall::Deallocate
    } else {
        Syscall::Unknown
    }
}

impl Syscall {
    /// The number of the system call.
    pub open spec fn spec_number(self) -> usize {
        match self {
            Syscall::Read => 0,
            Syscall::Write => 1,
            Syscall::Time => 2,
            Syscall::Brk => 12,
            Syscall::GetPid => 39,
            Syscall::Fork => 58,
            Syscall::Spawn => 59,
            Syscall::Exit => 60,
            Syscall::WaitPid => 61,
            Syscall::Sem => 62,
            Syscall::ListDir => 217,
            Syscall::Exists => 218,
            Syscall::Cat => 219,
            Syscall::ListApp => 65531,
            Syscall::Stat => 65532,
            Syscall::Allocate => 65533,
            Syscall::Deallocate => 65534,
            Syscall::Unknown => 65535,
        }
    }

    /// The number of the system call.
    pub fn number(self) -> (n: usize)
        ensures
            n == self.spec_number(),
            spec_syscall(n) == self,
    {
        match self {
            Syscall::Read => 0,
            Syscall::Write => 1,
            Syscall::Time => 2,
            Syscall::Brk => 12,
            Syscall::GetPid => 39,
            Syscall::Fork => 58,
            Syscall::Spawn => 59,
            Syscall::Exit => 60,
            Syscall::WaitPid => 61,
            Syscall::Sem => 62,
            Syscall::ListDir => 217,
            Syscall::Exists => 218,
            Syscall::Cat => 219,
            Syscall::ListApp => 65531,
            Syscall::Stat => 65532,
            Syscall::Allocate => 65533,
            Syscall::Deallocate => 65534,
            Syscall::Unknown => 65535,
        }
    }
}

impl core::convert::From<usize> for Syscall {
    /// The system call with the number `n`; `Unknown` for a number that
    /// names none.
    fn from(n: usize) -> (call: Syscall) {
        if n == 0 {
            Syscall::Read
        } else if n == 1 {
            Syscall::Write
        } else if n == 2 {
            Syscall::Time
        } else if n == 12 {
            Syscall::Brk
        } else if n == 39 {
            Syscall::GetPid
        } else if n == 58 {
            Syscall::Fork
        } else if n == 59 {
            Syscall::Spawn
        } else if n == 60 {
            Syscall::Exit
        } else if n == 61 {
            Syscall::WaitPid
        } else if n == 62 {
            Syscall::Sem
        } else if n == 217 {
            Syscall::ListDir
        } else if n == 218 {
            Syscall::Exists
        } else if n == 219 {
            Syscall::Cat
        } else if n == 65531 {
            Syscall::ListApp
        } else if n == 65532 {
            Syscall::Stat
        } else if n == 65533 {
            Syscall::Allocate
        } else if n == 65534 {
            Syscall::Deallocate
        } else {
            Syscall::Unknown
        }
    }
}

impl FromSpecImpl<usize> for Syscall {
    open spec fn obeys_from_spec() -> bool {
        true
    }

    open spec fn from_spec(n: usize) -> Syscall {
        spec_syscall(n)
    }
}

/// A system call with its arguments, as the registers hold them.
#[derive(Clone, Copy, Debug, PartialEq, Eq, Structural)]
pub struct SyscallArgs {
    pub syscall: Syscall,
    pub arg0: usize,
    pub arg1: usize,
    pub arg2: usize,
}

impl SyscallArgs {
    pub fn new(syscall: Syscall, arg0: usize, arg1: usize, arg2: usize) -> (args: SyscallArgs)
        ensures
            args == (SyscallArgs { syscall, arg0, arg1, arg2 }),
    {
        SyscallArgs { syscall, arg0, arg1, arg2 }
    }

    /// The call and the arguments that the registers of `context` hold:
    /// the number of the call in `rax`, the arguments in `rdi`, `rsi` and
    /// `rdx`.
    pub fn of_context(context: &ProcessContext) -> (args: SyscallArgs)
        ensures
            args == (SyscallArgs {
                syscall: spec_syscall(context.regs.rax),
                arg0: context.regs.rdi,
                arg1: context.regs.rsi,
                arg2: context.regs.rdx,
            }),
    {
        SyscallArgs::new(
            Syscall::from(context.regs.rax),
            context.regs.rdi,
            context.regs.rsi,
            context.regs.rdx,
        )
    }
}

/// The milliseconds from the start of 1970 to a moment of which `secs`
/// whole seconds and `nanos` nanoseconds have passed, cut to the size of a
/// register.
pub open spec fn spec_millis(secs: i64, nanos: u32) -> usize {
    (secs * 1000 + nanos / 1_000_000) as usize
}

/// The system call `time`: the present moment in milliseconds since the
/// start of 1970, cut to the size of a register, or 0 where the clock
/// gave none.
///
/// `now` is what the clock gave: whole seconds since the start of 1970,
/// and the nanoseconds within the second.
pub fn sys_time(now: Option<(i64, u32)>) -> (millis: usize)
    requires
        now matches Some(moment) ==> moment.0 >= 0,
    ensures
        millis == (match now {
            Some(moment) => spec_millis(moment.0, moment.1),
            None => 0,
        }),
{
    match now {
        Some((secs, nanos)) => {
            let wide: u128 = secs as u128;
            let millis: u128 = wide * 1000 + (nanos / 1_000_000) as u128;
            #[verifier::truncate]
            (millis as usize)
        },
        None => 0,
    }
}

/// The system call `stat`: the list of the processes, for the caller to
/// print.
pub fn list_process(manager: &ProcessManager) -> (list: ProcessList)
    requires
        manager.wf(),
    ensures
        list.ready_queue@ == manager.ready_queue@,
        forall|i: int|
            0 <= i < list.rows@.len() ==> manager.spec_alive((#[trigger] list.rows@[i]).pid.0)
                && crate::proc::manager::spec_row_shows(
                list.rows@[i],
                manager.processes@[list.rows@[i].pid.0],
            ),
        forall|k: u16| #[trigger]
            manager.spec_alive(k) ==> exists|i: int|
                0 <= i < list.rows@.len() && (#[trigger] list.rows@[i]).pid.0 == k,
        forall|i: int, j: int|
            0 <= i < j < list.rows@.len() ==> (#[trigger] list.rows@[i]).pid.0 < (
            #[trigger] list.rows@[j]).pid.0,
{
    crate::proc::print_process_list(manager)
}

/// The system call `getpid`: the number of the current process.
pub fn sys_get_pid(manager: &ProcessManager) -> (pid: usize)
    requires
        manager.wf(),
    ensures
        pid == manager.current.0,
{
    manager.current().pid().0 as usize
}

/// The system call `fork`, as [`crate::proc::fork`] does it.
pub fn sys_fork(manager: &mut ProcessManager, context: &mut ProcessContext, failed: u64) -> (child:
    Option<ProcessId>)
    requires
        old(manager).wf(),
    ensures
        final(manager).wf(),
        crate::proc::spec_fork(
            old(manager),
            final(manager),
            *old(context),
            *final(context),
            failed,
            child,
        ),
{
    crate::proc::fork(manager, context, failed)
}

/// The system call `brk`: an argument of 0 asks for the end of the heap,
/// any other names the new end. The result is the end of the heap, or
/// [`SYSCALL_FAILED`] where the request is refused.
pub fn sys_brk(manager: &mut ProcessManager, args: &SyscallArgs, done: bool) -> (ret: usize)
    requires
        old(manager).wf(),
    ensures
        final(manager).wf(),
        ({
            let request = if args.arg0 == 0 {
                None
            } else {
                Some(args.arg0 as u64)
            };
            old(manager).spec_alive(old(manager).current.0) ==> ret == (match old(
                manager,
            ).processes@[old(manager).current.0].inner.proc_vm->0.heap.spec_brk_result(
                request,
                done,
            ) {
                Some(end) => end as usize,
                None => SYSCALL_FAILED,
            })
        }),
        !old(manager).spec_alive(old(manager).current.0) ==> ret == SYSCALL_FAILED,
{
    let new_heap_end: Option<u64> = if args.arg0 == 0 {
        None
    } else {
        Some(args.arg0 as u64)
    };
    match crate::proc::brk(manager, new_heap_end, done) {
        Some(end) => #[verifier::truncate]
        (end as usize),
        None => SYSCALL_FAILED,
    }
}

/// Whether `after` and `context_after` are what the system call on
/// semaphores with the arguments `args` makes of `before` and
/// `context_before`.
pub open spec fn spec_sys_sem(
    before: &ProcessManager,
    after: &ProcessManager,
    args: SyscallArgs,
    context_before: ProcessContext,
    context_after: ProcessContext,
) -> bool {
    let key = args.arg1 as u32;
    if args.arg0 == 0 {
        crate::proc::spec_new_sem(before, after, key, args.arg2, context_after.regs.rax)
            && context_after == context_before.spec_with_rax(context_after.regs.rax)
    } else if args.arg0 == 1 {
        crate::proc::spec_remove_sem(before, after, key, context_after.regs.rax) && context_after
            == context_before.spec_with_rax(context_after.regs.rax)
    } else if args.arg0 == 2 {
        crate::proc::spec_sem_signal(before, after, key, context_before, context_after)
    } else if args.arg0 == 3 {
        crate::proc::spec_sem_wait(before, after, key, context_before, context_after)
    } else {
        ProcessManager::spec_unchanged(before, after) && context_after
            == context_before.spec_with_rax(SYSCALL_FAILED)
    }
}

/// The system calls on semaphores: the first argument is the operation,
/// 0 to make one, 1 to take one away, 2 to give a permit back and 3 to
/// ask for one; the second is the key, cut to 32 bits, the third the
/// number of permits. The first two leave 1 or 0 as their result, as
/// [`crate::proc::new_sem`] and [`crate::proc::remove_sem`] say; the others
/// do what [`crate::proc::sem_signal`] and [`crate::proc::sem_wait`] do.
/// Any other operation fails with [`SYSCALL_FAILED`].
pub fn sys_sem(manager: &mut ProcessManager, args: &SyscallArgs, context: &mut ProcessContext)
    requires
        old(manager).wf(),
    ensures
        final(manager).wf(),
        spec_sys_sem(old(manager), final(manager), *args, *old(context), *final(context)),
{
    let key: u32 = #[verifier::truncate]
    (args.arg1 as u32);
    if args.arg0 == 0 {
        let ret = crate::proc::new_sem(manager, key, args.arg2);
        context.set_rax(ret);
    } else if args.arg0 == 1 {
        let ret = crate::proc::remove_sem(manager, key);
        context.set_rax(ret);
    } else if args.arg0 == 2 {
        crate::proc::sem_signal(manager, key, context);
    } else if args.arg0 == 3 {
        crate::proc::sem_wait(manager, key, context);
    } else {
        context.set_rax(SYSCALL_FAILED);
    }
}

/// The system call `wait_pid` for the process named by the first
/// argument, cut to 16 bits, as [`crate::proc::wait_pid`] does it.
pub fn sys_wait_pid(manager: &mut ProcessManager, args: &SyscallArgs, context: &mut ProcessContext)
    requires
        old(manager).wf(),
    ensures
        final(manager).wf(),
        crate::proc::spec_wait_pid(
            old(manager),
            final(manager),
            args.arg0 as u16,
            *old(context),
            *final(context),
        ),
{
    let pid: u16 = #[verifier::truncate]
    (args.arg0 as u16);
    crate::proc::wait_pid(manager, pid, context);
}

/// The system call `exit` with the first argument as the exit code, as
/// [`crate::proc::exit`] does it.
pub fn exit_process(manager: &mut ProcessManager, args: &SyscallArgs, context: &mut ProcessContext)
    -> (freed: Option<crate::proc::vm::CleanUp>)
    requires
        old(manager).wf(),
    ensures
        final(manager).wf(),
        crate::proc::spec_exit(
            old(manager),
            final(manager),
            args.arg0 as isize,
            *old(context),
            *final(context),
            freed,
        ),
{
    let ret: isize = #[verifier::truncate]
    (args.arg0 as isize);
    crate::proc::exit(manager, ret, context)
}

} // verus!
