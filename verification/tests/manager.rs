use yatsenos::proc::manager::{
    fatal_fault, Image, MapRequest, CAUSED_BY_WRITE, INSTRUCTION_FETCH, MALFORMED_TABLE,
    PROTECTION_KEY, PROTECTION_VIOLATION, RMP, SGX, SHADOW_STACK, USER_MODE,
};
use yatsenos::proc::vm::heap::{BrkPlan, HEAP_SIZE, HEAP_START};
use yatsenos::proc::vm::stack::{STACK_INIT_BOT, STACK_INIT_TOP, STACK_MAX_SIZE};
use yatsenos::proc::vm::{MapError, PageRun};
use yatsenos::proc::{
    brk, brk_plan, elf_spawn, exit, fork, handle_page_fault, init, list_app, new_sem,
    page_fault_plan, process_exit, remove_sem, sem_signal, sem_wait, spawn, still_alive, switch,
    wait_pid, PageTableContext, ProcessContext, ProcessId, ProcessManager, ProgramStatus,
    SemaphoreResult, KERNEL_PID, SEM_NOT_EXIST, SYSCALL_FAILED,
};

fn kernel() -> ProcessManager {
    init(
        PageTableContext::new(0x1000),
        &vec![PageRun { start: 0xffff_ff00_0000_0000, count: 8 }],
        Some(vec![String::from("hello"), String::from("fwsh")]),
    )
}

fn image(table: u64) -> Option<Image> {
    Some(Image {
        page_table: PageTableContext::new(table),
        code: vec![PageRun { start: 0x40_0000, count: 2 }],
        entry: 0x40_1000,
    })
}

fn status(manager: &ProcessManager, pid: u16) -> ProgramStatus {
    manager.get_proc(&ProcessId(pid)).unwrap().read().status()
}

fn ready(manager: &ProcessManager) -> Vec<u16> {
    manager.ready_queue.iter().map(|pid| pid.0).collect()
}

#[test]
fn init_makes_the_kernel_process() {
    let manager = kernel();
    assert_eq!(manager.current, ProcessId(KERNEL_PID));
    assert_eq!(manager.processes.len(), 1);
    let kproc = manager.current();
    assert_eq!(kproc.pid(), ProcessId(1));
    assert_eq!(kproc.read().name(), "kernel_proc");
    assert_eq!(kproc.read().status(), ProgramStatus::Running);
    assert_eq!(kproc.read().vm().code_usage, 8 * 0x1000);
    assert_eq!(kproc.read().vm().stack.usage, 3);
    assert!(manager.ready_queue.is_empty());
    assert_eq!(manager.spaces.get(&0x1000).unwrap().users, vec![ProcessId(1)]);
    assert_eq!(list_app(&manager).as_ref().unwrap().len(), 2);
    assert_eq!(manager.find_app(&String::from("fwsh")), Some(1));
    assert_eq!(manager.find_app(&String::from("nope")), None);
}

#[test]
fn spawn_makes_a_ready_process_and_queues_it() {
    let mut manager = kernel();
    let pid = spawn(&mut manager, &String::from("hello"), image(0x2000)).unwrap();
    assert_eq!(pid, ProcessId(2));
    assert_eq!(status(&manager, 2), ProgramStatus::Ready);
    assert_eq!(ready(&manager), vec![2]);
    let process = manager.get_proc_public(&pid).unwrap();
    assert_eq!(process.read().name(), "hello");
    assert_eq!(process.read().parent(), Some(ProcessId(1)));
    assert_eq!(process.inner.context.stack_frame.instruction_pointer, 0x40_1000);
    assert_eq!(process.inner.context.stack_frame.stack_pointer, STACK_INIT_TOP);
    assert_eq!(process.read().vm().stack.range.start, STACK_INIT_BOT);
    assert_eq!(process.read().vm().code_usage, 2 * 0x1000);
    assert_eq!(manager.spaces.get(&0x2000).unwrap().users, vec![pid]);
}

#[test]
fn spawn_fails_without_image_or_unknown_name_or_used_table() {
    let mut manager = kernel();
    assert_eq!(spawn(&mut manager, &String::from("hello"), None), None);
    assert_eq!(spawn(&mut manager, &String::from("nope"), image(0x2000)), None);
    assert_eq!(spawn(&mut manager, &String::from("hello"), image(0x1000)), None);
    let huge = Some(Image {
        page_table: PageTableContext::new(0x2000),
        code: vec![PageRun { start: 0, count: u64::MAX }],
        entry: 0,
    });
    assert_eq!(elf_spawn(&mut manager, String::from("x"), huge), None);
    assert_eq!(manager.processes.len(), 1);
    assert!(manager.ready_queue.is_empty());
    assert_eq!(manager.pids.next, 2);
    assert_eq!(elf_spawn(&mut manager, String::from("Any"), image(0x2000)), Some(ProcessId(2)));
}

#[test]
fn spawn_skips_the_identifiers_in_the_table() {
    let mut manager = kernel();
    manager.pids.next = u16::MAX;
    // 0 is free, then 1 is the kernel and is skipped
    assert_eq!(elf_spawn(&mut manager, String::from("a"), image(0x2000)), Some(ProcessId(0)));
    assert_eq!(elf_spawn(&mut manager, String::from("b"), image(0x3000)), Some(ProcessId(2)));
    manager.pids.next = 0;
    assert_eq!(elf_spawn(&mut manager, String::from("c"), image(0x4000)), Some(ProcessId(3)));
    // a dead process keeps its identifier and its exit code
    manager.kill(ProcessId(2), 7);
    manager.pids.next = 2;
    assert_eq!(elf_spawn(&mut manager, String::from("d"), image(0x5000)), Some(ProcessId(4)));
    assert_eq!(status(&manager, 2), ProgramStatus::Dead);
    assert_eq!(manager.get_exit_code(&ProcessId(2)), Some(7));
    assert_eq!(status(&manager, 4), ProgramStatus::Ready);
    assert_eq!(manager.pids.next, 5);
}

#[test]
fn switch_is_round_robin() {
    let mut manager = kernel();
    elf_spawn(&mut manager, String::from("a"), image(0x2000));
    elf_spawn(&mut manager, String::from("b"), image(0x3000));
    let mut context = ProcessContext::new();
    context.set_rax(111);
    switch(&mut manager, &mut context);
    assert_eq!(manager.current, ProcessId(2));
    assert_eq!(status(&manager, 1), ProgramStatus::Ready);
    assert_eq!(status(&manager, 2), ProgramStatus::Running);
    assert_eq!(ready(&manager), vec![3, 1]);
    assert_eq!(context.stack_frame.instruction_pointer, 0x40_1000);
    assert_eq!(context.regs.rax, 0);
    assert_eq!(manager.get_proc(&ProcessId(1)).unwrap().inner.context.regs.rax, 111);
    assert_eq!(manager.get_proc(&ProcessId(1)).unwrap().inner.ticks_passed, 1);
    context.set_rax(222);
    switch(&mut manager, &mut context);
    assert_eq!(manager.current, ProcessId(3));
    assert_eq!(ready(&manager), vec![1, 2]);
    switch(&mut manager, &mut context);
    assert_eq!(manager.current, ProcessId(1));
    assert_eq!(context.regs.rax, 111);
    assert_eq!(ready(&manager), vec![2, 3]);
    switch(&mut manager, &mut context);
    assert_eq!(manager.current, ProcessId(2));
    assert_eq!(context.regs.rax, 222);
}

#[test]
fn switch_alone_keeps_running() {
    let mut manager = kernel();
    let mut context = ProcessContext::new();
    context.set_rax(5);
    switch(&mut manager, &mut context);
    assert_eq!(manager.current, ProcessId(1));
    assert_eq!(status(&manager, 1), ProgramStatus::Running);
    assert!(manager.ready_queue.is_empty());
    assert_eq!(context.regs.rax, 5);
}

#[test]
fn switch_next_with_empty_queue_hands_out_a_new_identifier() {
    let mut manager = kernel();
    let mut context = ProcessContext::new();
    let next = manager.switch_next(&mut context);
    assert_eq!(next, ProcessId(2));
    assert_eq!(manager.current, ProcessId(1));
    assert_eq!(manager.pids.next, 3);
}

#[test]
fn stale_entry_is_dropped_and_current_goes_on() {
    let mut manager = kernel();
    elf_spawn(&mut manager, String::from("a"), image(0x2000));
    elf_spawn(&mut manager, String::from("b"), image(0x3000));
    manager.block(ProcessId(2));
    let mut context = ProcessContext::new();
    let next = manager.switch_next(&mut context);
    assert_eq!(next, ProcessId(1));
    assert_eq!(manager.current, ProcessId(1));
    assert_eq!(ready(&manager), vec![3]);
    assert_eq!(status(&manager, 2), ProgramStatus::Blocked);
    manager.block(ProcessId(77));
}

#[test]
fn two_children_one_killed() {
    let mut manager = kernel();
    let a = elf_spawn(&mut manager, String::from("a"), image(0x2000)).unwrap();
    let b = elf_spawn(&mut manager, String::from("b"), image(0x3000)).unwrap();
    let freed = manager.kill(a, 42).unwrap();
    assert_eq!(freed.page_table, Some(PageTableContext::new(0x2000)));
    assert_eq!(freed.stack, Some(PageRun { start: STACK_INIT_BOT, count: 1 }));
    assert_eq!(manager.get_exit_code(&a), Some(42));
    assert!(!still_alive(&manager, a));
    assert!(still_alive(&manager, b));
    assert_eq!(manager.get_exit_code(&b), None);
    assert_eq!(status(&manager, b.0), ProgramStatus::Ready);
    assert!(manager.spaces.get(&0x2000).is_none());
    // the dead process has left the ready queue, and never stands there
    // or runs again
    assert_eq!(ready(&manager), vec![b.0]);
    let mut context = ProcessContext::new();
    for _ in 0..8 {
        switch(&mut manager, &mut context);
        assert!(manager.current != a);
        assert!(!ready(&manager).contains(&a.0));
        assert_eq!(status(&manager, a.0), ProgramStatus::Dead);
    }
    manager.push_ready(b);
    assert!(!ready(&manager).contains(&a.0));
    assert_eq!(manager.get_exit_code(&a), Some(42));
}

#[test]
fn kill_twice_keeps_the_first_exit_code() {
    let mut manager = kernel();
    let a = elf_spawn(&mut manager, String::from("a"), image(0x2000)).unwrap();
    assert!(manager.kill(a, 42).is_some());
    let queue = ready(&manager);
    assert!(manager.kill(a, 7).is_none());
    assert_eq!(manager.get_exit_code(&a), Some(42));
    assert_eq!(ready(&manager), queue);
    assert!(manager.kill(ProcessId(99), 1).is_none());
    assert_eq!(manager.get_exit_code(&ProcessId(99)), None);
    assert!(still_alive(&manager, ProcessId(99)));
}

#[test]
fn wait_pid_for_a_dead_process_returns_at_once() {
    let mut manager = kernel();
    let a = elf_spawn(&mut manager, String::from("a"), image(0x2000)).unwrap();
    manager.kill(a, -3);
    let mut context = ProcessContext::new();
    wait_pid(&mut manager, a.0, &mut context);
    assert_eq!(context.regs.rax, (-3isize) as usize);
    assert_eq!(manager.current, ProcessId(1));
    assert_eq!(status(&manager, 1), ProgramStatus::Running);
    assert!(manager.wait_queue.is_empty());
}

#[test]
fn wait_pid_for_an_unknown_process_fails() {
    let mut manager = kernel();
    let mut context = ProcessContext::new();
    wait_pid(&mut manager, 99, &mut context);
    assert_eq!(context.regs.rax, SYSCALL_FAILED);
    assert_eq!(status(&manager, 1), ProgramStatus::Running);
    assert!(manager.wait_queue.is_empty());
}

#[test]
fn wait_pid_blocks_until_the_kill() {
    let mut manager = kernel();
    let a = elf_spawn(&mut manager, String::from("a"), image(0x2000)).unwrap();
    let mut context = ProcessContext::new();
    context.set_rax(61);
    wait_pid(&mut manager, a.0, &mut context);
    assert_eq!(status(&manager, 1), ProgramStatus::Blocked);
    assert_eq!(manager.current, a);
    assert_eq!(status(&manager, a.0), ProgramStatus::Running);
    assert!(manager.ready_queue.is_empty());
    assert_eq!(manager.wait_queue.get(&a.0).unwrap(), &vec![ProcessId(1)]);
    // the child exits
    let freed = exit(&mut manager, 20, &mut context);
    assert!(freed.is_some());
    assert_eq!(manager.get_exit_code(&a), Some(20));
    assert_eq!(manager.current, ProcessId(1));
    assert_eq!(status(&manager, 1), ProgramStatus::Running);
    assert_eq!(context.regs.rax, 20);
    assert!(manager.wait_queue.get(&a.0).is_none());
    assert!(manager.ready_queue.is_empty());
    // nothing resumes it a second time
    assert!(manager.kill(a, 21).is_none());
    assert!(manager.ready_queue.is_empty());
}

#[test]
fn waiters_are_woken_in_the_order_in_which_they_came() {
    let mut manager = kernel();
    let a = elf_spawn(&mut manager, String::from("a"), image(0x2000)).unwrap();
    let b = elf_spawn(&mut manager, String::from("b"), image(0x3000)).unwrap();
    let c = elf_spawn(&mut manager, String::from("c"), image(0x4000)).unwrap();
    let mut context = ProcessContext::new();
    wait_pid(&mut manager, c.0, &mut context); // kernel waits, a runs
    assert_eq!(manager.current, a);
    wait_pid(&mut manager, c.0, &mut context); // a waits, b runs
    assert_eq!(manager.current, b);
    assert_eq!(manager.wait_queue.get(&c.0).unwrap(), &vec![ProcessId(1), a]);
    assert_eq!(ready(&manager), vec![c.0]);
    manager.kill(c, 9);
    assert_eq!(ready(&manager), vec![1, a.0]);
    assert_eq!(status(&manager, 1), ProgramStatus::Ready);
    assert_eq!(manager.get_proc(&a).unwrap().inner.context.regs.rax, 9);
    assert_eq!(process_exit(&mut manager, 0).is_some(), true);
}

#[test]
fn wake_up_only_wakes_the_blocked() {
    let mut manager = kernel();
    let a = elf_spawn(&mut manager, String::from("a"), image(0x2000)).unwrap();
    manager.wake_up(a, Some(5));
    assert_eq!(ready(&manager), vec![a.0]);
    assert_eq!(manager.get_proc(&a).unwrap().inner.context.regs.rax, 0);
    manager.wake_up(ProcessId(50), Some(5));
    manager.block(a);
    manager.wake_up(a, None);
    assert_eq!(status(&manager, a.0), ProgramStatus::Ready);
    assert_eq!(ready(&manager), vec![a.0, a.0]);
    assert_eq!(manager.get_proc(&a).unwrap().inner.context.regs.rax, 0);
    manager.block(a);
    manager.wake_up(a, Some(-1));
    assert_eq!(manager.get_proc(&a).unwrap().inner.context.regs.rax, usize::MAX);
}

#[test]
fn fork_queues_parent_then_child() {
    let mut manager = kernel();
    let a = elf_spawn(&mut manager, String::from("a"), image(0x2000)).unwrap();
    let mut context = ProcessContext::new();
    switch(&mut manager, &mut context);
    assert_eq!(manager.current, a);
    assert_eq!(manager.fork_plan(0), Some(PageRun { start: STACK_INIT_BOT, count: 1 }));
    assert_eq!(
        manager.fork_plan(1),
        Some(PageRun { start: STACK_INIT_BOT - STACK_MAX_SIZE, count: 1 })
    );
    context.set_rax(58);
    context.stack_frame.stack_pointer = STACK_INIT_TOP - 0x40;
    let child = fork(&mut manager, &mut context, 1).unwrap();
    assert_eq!(child, ProcessId(3));
    // the kernel was first in the queue and runs now
    assert_eq!(manager.current, ProcessId(1));
    assert_eq!(ready(&manager), vec![a.0, child.0]);
    assert_eq!(status(&manager, a.0), ProgramStatus::Ready);
    assert_eq!(status(&manager, child.0), ProgramStatus::Ready);
    assert_eq!(manager.get_proc(&a).unwrap().inner.children, vec![child]);
    assert_eq!(manager.spaces.get(&0x2000).unwrap().users, vec![a, child]);
    // the parent reads the child's identifier when it runs again
    switch(&mut manager, &mut context);
    assert_eq!(manager.current, a);
    assert_eq!(context.regs.rax, 3);
    assert_eq!(context.stack_frame.stack_pointer, STACK_INIT_TOP - 0x40);
    // the child reads 0, on a stack of its own
    switch(&mut manager, &mut context);
    assert_eq!(manager.current, child);
    assert_eq!(context.regs.rax, 0);
    assert_eq!(context.stack_frame.stack_pointer, STACK_INIT_TOP - 0x40 - STACK_MAX_SIZE);
    assert_eq!(manager.current().read().parent(), Some(a));
}

#[test]
fn fork_fails_without_a_stack_slot() {
    let mut manager = kernel();
    let a = elf_spawn(&mut manager, String::from("a"), image(0x2000)).unwrap();
    let mut context = ProcessContext::new();
    switch(&mut manager, &mut context);
    context.set_rax(58);
    assert_eq!(manager.fork_plan(0x4000), None);
    assert_eq!(fork(&mut manager, &mut context, 0x4000), None);
    assert_eq!(context.regs.rax, SYSCALL_FAILED);
    assert_eq!(manager.current, a);
    assert_eq!(status(&manager, a.0), ProgramStatus::Running);
    assert_eq!(ready(&manager), vec![1]);
    assert_eq!(manager.processes.len(), 2);
}

#[test]
fn forked_family_has_one_heap() {
    let mut manager = kernel();
    let a = elf_spawn(&mut manager, String::from("a"), image(0x2000)).unwrap();
    let mut context = ProcessContext::new();
    switch(&mut manager, &mut context);
    let child = manager.fork(1).unwrap();
    assert_eq!(brk(&mut manager, None, false), Some(HEAP_START));
    assert_eq!(
        brk_plan(&manager, Some(HEAP_START + 0x2000)),
        BrkPlan::Grow(PageRun { start: HEAP_START, count: 3 })
    );
    assert_eq!(brk(&mut manager, Some(HEAP_START + 0x2000), true), Some(HEAP_START + 0x2000));
    let heap_of = |m: &ProcessManager, pid: ProcessId| m.get_proc(&pid).unwrap().read().vm().heap;
    assert_eq!(heap_of(&manager, a).end, HEAP_START + 0x2000);
    assert_eq!(heap_of(&manager, child).end, HEAP_START + 0x2000);
    assert_eq!(heap_of(&manager, ProcessId(1)).end, HEAP_START);
    assert_eq!(brk(&mut manager, Some(HEAP_START + HEAP_SIZE), true), None);
    assert_eq!(brk(&mut manager, Some(HEAP_START + 0x3000), false), None);
    assert_eq!(heap_of(&manager, child).end, HEAP_START + 0x2000);
    // the first to die leaves the heap and the table to the other
    let freed = manager.kill(a, 0).unwrap();
    assert_eq!(freed.heap, None);
    assert_eq!(freed.page_table, None);
    assert!(freed.code.is_empty());
    assert_eq!(manager.spaces.get(&0x2000).unwrap().users, vec![child]);
    let freed = manager.kill(child, 0).unwrap();
    assert_eq!(freed.heap, Some(PageRun { start: HEAP_START, count: 3 }));
    assert_eq!(freed.page_table, Some(PageTableContext::new(0x2000)));
    assert!(manager.spaces.get(&0x2000).is_none());
    assert_eq!(brk(&mut manager, None, true), None);
}

#[test]
fn page_fault_grows_the_stack_of_the_current_process() {
    let mut manager = kernel();
    let a = elf_spawn(&mut manager, String::from("a"), image(0x2000)).unwrap();
    let mut context = ProcessContext::new();
    switch(&mut manager, &mut context);
    let addr = STACK_INIT_BOT - 0x1001;
    let code = CAUSED_BY_WRITE | USER_MODE;
    assert_eq!(
        page_fault_plan(&manager, addr, code),
        Some(MapRequest {
            run: PageRun { start: STACK_INIT_BOT - 0x2000, count: 2 },
            user_access: true
        })
    );
    assert!(handle_page_fault(&mut manager, addr, code, Ok(())));
    assert_eq!(manager.get_proc(&a).unwrap().read().vm().stack.usage, 3);
    assert!(!handle_page_fault(&mut manager, 0x1000, code, Ok(())));
    assert!(!handle_page_fault(
        &mut manager,
        STACK_INIT_BOT - 0x5000,
        code,
        Err(MapError::FrameAllocationFailed)
    ));
    assert_eq!(manager.get_proc(&a).unwrap().read().vm().stack.usage, 3);
}

#[test]
fn page_fault_with_fatal_code_is_not_resolved() {
    let mut manager = kernel();
    elf_spawn(&mut manager, String::from("a"), image(0x2000));
    let mut context = ProcessContext::new();
    switch(&mut manager, &mut context);
    let addr = STACK_INIT_BOT - 8;
    for flag in [
        PROTECTION_VIOLATION,
        MALFORMED_TABLE,
        INSTRUCTION_FETCH,
        PROTECTION_KEY,
        SHADOW_STACK,
        SGX,
        RMP,
    ] {
        assert!(fatal_fault(flag | USER_MODE));
        assert_eq!(page_fault_plan(&manager, addr, flag | USER_MODE), None);
        assert!(!handle_page_fault(&mut manager, addr, flag | USER_MODE, Ok(())));
    }
    assert!(!fatal_fault(0));
    assert!(!fatal_fault(CAUSED_BY_WRITE | USER_MODE | 0x80));
    assert!(handle_page_fault(&mut manager, addr, 0, Ok(())));
}

#[test]
fn kernel_page_fault_asks_for_kernel_pages() {
    let manager = kernel();
    let bottom = manager.current().read().vm().stack.range.start;
    assert_eq!(
        page_fault_plan(&manager, bottom - 1, CAUSED_BY_WRITE),
        Some(MapRequest { run: PageRun { start: bottom - 0x1000, count: 1 }, user_access: false })
    );
}

#[test]
fn semaphore_scenario_wait_blocks_and_signal_wakes() {
    let mut manager = kernel();
    let a = elf_spawn(&mut manager, String::from("a"), image(0x2000)).unwrap();
    let mut context = ProcessContext::new();
    switch(&mut manager, &mut context); // a runs
    let b = fork(&mut manager, &mut context, 1).unwrap(); // kernel runs
    switch(&mut manager, &mut context); // a runs
    assert_eq!(manager.current, a);
    assert_eq!(new_sem(&mut manager, 1, 0), 1);
    assert_eq!(new_sem(&mut manager, 1, 5), 0);
    context.set_rax(62);
    sem_wait(&mut manager, 1, &mut context);
    assert_eq!(status(&manager, a.0), ProgramStatus::Blocked);
    assert_eq!(manager.current, b);
    assert_eq!(context.regs.rax, 0);
    assert!(!ready(&manager).contains(&a.0));
    // b signals: a is woken with 0, the count stays 0
    context.set_rax(62);
    sem_signal(&mut manager, 1, &mut context);
    assert_eq!(status(&manager, a.0), ProgramStatus::Ready);
    assert_eq!(manager.get_proc(&a).unwrap().inner.context.regs.rax, 0);
    assert_eq!(*ready(&manager).last().unwrap(), a.0);
    let space = manager.spaces.get(&0x2000).unwrap();
    assert_eq!(space.semaphores.sems.get(&1).unwrap().count, 0);
    assert!(space.semaphores.sems.get(&1).unwrap().wait_queue.is_empty());
    assert_eq!(context.regs.rax, 62);
    // with nobody waiting the count grows
    sem_signal(&mut manager, 1, &mut context);
    assert_eq!(context.regs.rax, 0);
    assert_eq!(manager.spaces.get(&0x2000).unwrap().semaphores.sems.get(&1).unwrap().count, 1);
    sem_wait(&mut manager, 1, &mut context);
    assert_eq!(context.regs.rax, 0);
    assert_eq!(manager.current, b);
    assert_eq!(remove_sem(&mut manager, 1), 1);
    assert_eq!(remove_sem(&mut manager, 1), 0);
}

#[test]
fn semaphores_of_another_family_are_not_seen() {
    let mut manager = kernel();
    elf_spawn(&mut manager, String::from("a"), image(0x2000));
    assert_eq!(new_sem(&mut manager, 1, 1), 1);
    let mut context = ProcessContext::new();
    switch(&mut manager, &mut context);
    context.set_rax(9);
    sem_wait(&mut manager, 1, &mut context);
    assert_eq!(context.regs.rax, SEM_NOT_EXIST);
    sem_signal(&mut manager, 1, &mut context);
    assert_eq!(context.regs.rax, SEM_NOT_EXIST);
    assert_eq!(manager.sem_wait(2), SemaphoreResult::NotExist);
    assert_eq!(manager.current, ProcessId(2));
}

#[test]
fn signal_fails_when_the_count_is_full() {
    let mut manager = kernel();
    assert_eq!(new_sem(&mut manager, 3, usize::MAX), 1);
    assert!(!manager.can_signal(3));
    assert!(manager.can_signal(4));
    let mut context = ProcessContext::new();
    sem_signal(&mut manager, 3, &mut context);
    assert_eq!(context.regs.rax, SYSCALL_FAILED);
    assert_eq!(
        manager.spaces.get(&0x1000).unwrap().semaphores.sems.get(&3).unwrap().count,
        usize::MAX
    );
}

#[test]
fn environment_of_the_current_process() {
    let manager = kernel();
    assert_eq!(yatsenos::proc::env(&manager, &String::from("PATH")), None);
}

#[test]
fn exit_of_the_last_runnable_process_leaves_it_current() {
    let mut manager = kernel();
    let mut context = ProcessContext::new();
    let freed = exit(&mut manager, 3, &mut context).unwrap();
    assert_eq!(freed.page_table, Some(PageTableContext::new(0x1000)));
    assert_eq!(freed.code, vec![PageRun { start: 0xffff_ff00_0000_0000, count: 8 }]);
    assert_eq!(manager.current, ProcessId(1));
    assert_eq!(manager.get_exit_code(&ProcessId(1)), Some(3));
    assert!(exit(&mut manager, 4, &mut context).is_none());
    assert_eq!(manager.get_exit_code(&ProcessId(1)), Some(3));
    assert_eq!(manager.fork(0), None);
    assert_eq!(manager.new_sem(1, 1), false);
}
