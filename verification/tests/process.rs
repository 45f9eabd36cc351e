use yatsenos::proc::context::INITIAL_FLAGS;
use yatsenos::proc::data::ProcessData;
use yatsenos::proc::vm::heap::HEAP_START;
use yatsenos::proc::vm::stack::{STACK_INIT_BOT, STACK_INIT_TOP, STACK_MAX_SIZE};
use yatsenos::proc::vm::{PageRun, ProcessVm};
use yatsenos::proc::{
    PageTableContext, PidAllocator, Process, ProcessContext, ProcessId, ProgramStatus,
};

fn user_process(pid: u16) -> Process {
    let vm = ProcessVm::new(PageTableContext::new(0x9000));
    let mut process =
        Process::new(ProcessId(pid), String::from("Shell"), Some(ProcessId(1)), Some(vm), None);
    process.inner.load_elf(&vec![PageRun { start: 0x40_0000, count: 4 }]);
    process
}

#[test]
fn pids_count_up_from_one() {
    let mut pids = PidAllocator::new();
    assert_eq!(ProcessId::new(&mut pids), ProcessId(1));
    assert_eq!(ProcessId::new(&mut pids), ProcessId(2));
    assert_eq!(ProcessId::new(&mut pids), ProcessId(3));
    assert_eq!(pids.next, 4);
    assert_eq!(ProcessId(7).value(), 7);
}

#[test]
fn pids_wrap_around_to_zero() {
    let mut pids = PidAllocator { next: u16::MAX - 1 };
    assert_eq!(ProcessId::new(&mut pids), ProcessId(u16::MAX - 1));
    assert_eq!(ProcessId::new(&mut pids), ProcessId(0));
    assert_eq!(ProcessId::new(&mut pids), ProcessId(1));
    assert_eq!(ProcessId::new(&mut pids), ProcessId(2));
}

#[test]
fn pids_come_again_only_after_all_the_others() {
    let mut pids = PidAllocator::new();
    let mut seen = vec![false; 65536];
    for call in 0..65535u32 {
        let pid = ProcessId::new(&mut pids);
        assert!(!seen[pid.0 as usize], "call {} repeats {}", call, pid.0);
        seen[pid.0 as usize] = true;
        assert_eq!(pid.0 as u32, (call + 1) % 65535);
    }
    assert!(!seen[65535]);
    assert_eq!(ProcessId::new(&mut pids), ProcessId(1));
}

#[test]
fn context_save_restore_and_frames() {
    let mut saved = ProcessContext::new();
    let mut cpu = ProcessContext::new();
    cpu.set_rax(42);
    cpu.regs.rdi = 7;
    cpu.init_user_stack_frame(0x40_1000, STACK_INIT_TOP);
    assert_eq!(cpu.stack_frame.instruction_pointer, 0x40_1000);
    assert_eq!(cpu.stack_frame.stack_pointer, STACK_INIT_TOP);
    assert_eq!(cpu.stack_frame.cpu_flags, INITIAL_FLAGS);
    saved.save(&cpu);
    assert_eq!(saved, cpu);
    let mut other = ProcessContext::new();
    saved.restore(&mut other);
    assert_eq!(other.regs.rax, 42);
    assert_eq!(other.regs.rdi, 7);
    other.set_rsp_offset(0u64.wrapping_sub(STACK_MAX_SIZE));
    assert_eq!(other.stack_frame.stack_pointer, STACK_INIT_TOP - STACK_MAX_SIZE);
    other.init_stack_frame(0x1234, 0x5678);
    assert_eq!(other.stack_frame.instruction_pointer, 0x1234);
    assert_eq!(other.stack_frame.stack_pointer, 0x5678);
}

#[test]
fn new_process_is_ready_and_lower_case() {
    let process = user_process(5);
    assert_eq!(process.pid(), ProcessId(5));
    assert_eq!(process.read().name(), "shell");
    assert_eq!(process.read().status(), ProgramStatus::Ready);
    assert!(process.read().is_ready());
    assert_eq!(process.read().parent(), Some(ProcessId(1)));
    assert_eq!(process.read().exit_code(), None);
    assert_eq!(process.inner.ticks_passed, 0);
    assert!(process.inner.children.is_empty());
    assert!(process.inner.proc_data.is_some());
    assert_eq!(process.read().clone_page_table(), PageTableContext::new(0x9000));
    assert_eq!(process.read().vm().code_usage, 4 * 0x1000);
    assert_eq!(process.inner.context, ProcessContext::new());
}

#[test]
fn process_name_keeps_other_characters() {
    let vm = ProcessVm::new(PageTableContext::new(0x9000));
    let process = Process::new(ProcessId(2), String::from("A-Z_09 É"), None, Some(vm), None);
    assert_eq!(process.read().name(), "a-z_09 É");
}

#[test]
fn process_status_changes() {
    let mut process = user_process(5);
    process.write().resume();
    assert_eq!(process.read().status(), ProgramStatus::Running);
    process.write().block();
    assert_eq!(process.read().status(), ProgramStatus::Blocked);
    process.write().pause();
    assert_eq!(process.read().status(), ProgramStatus::Ready);
    process.write().tick();
    process.write().tick();
    assert_eq!(process.inner.ticks_passed, 2);
    process.inner.ticks_passed = usize::MAX;
    process.write().tick();
    assert_eq!(process.inner.ticks_passed, 0);
}

#[test]
fn killed_process_gives_up_everything_and_stays_dead() {
    let mut process = user_process(5);
    process.inner.brk(Some(HEAP_START + 0x10), true);
    let freed = process.kill(42, 1).unwrap();
    assert_eq!(freed.stack, Some(PageRun { start: STACK_INIT_BOT, count: 1 }));
    assert_eq!(freed.heap, Some(PageRun { start: HEAP_START, count: 1 }));
    assert_eq!(freed.code, vec![PageRun { start: 0x40_0000, count: 4 }]);
    assert_eq!(freed.page_table, Some(PageTableContext::new(0x9000)));
    assert_eq!(process.read().status(), ProgramStatus::Dead);
    assert_eq!(process.read().exit_code(), Some(42));
    assert!(process.inner.proc_vm.is_none());
    assert!(process.inner.page_table.is_none());
    assert!(process.inner.proc_data.is_none());
    assert!(process.kill(7, 1).is_none());
    assert_eq!(process.read().exit_code(), Some(42));
    process.write().resume();
    process.write().pause();
    process.write().block();
    assert_eq!(process.read().status(), ProgramStatus::Dead);
    assert!(!process.write().handle_page_fault(STACK_INIT_BOT - 8, Ok(())));
}

#[test]
fn fork_gives_the_child_zero_and_the_parent_the_pid() {
    let mut parent = user_process(5);
    parent.inner.context.set_rax(58);
    parent.inner.context.stack_frame.stack_pointer = STACK_INIT_TOP - 0x100;
    parent.inner.ticks_passed = 9;
    assert_eq!(
        parent.read().fork_plan(1),
        Some(PageRun { start: STACK_INIT_BOT - STACK_MAX_SIZE, count: 1 })
    );
    let child = parent.fork(ProcessId(6), 1).unwrap();
    assert_eq!(child.pid(), ProcessId(6));
    assert_eq!(child.inner.context.regs.rax, 0);
    assert_eq!(parent.inner.context.regs.rax, 6);
    assert_eq!(
        child.inner.context.stack_frame.stack_pointer,
        STACK_INIT_TOP - 0x100 - STACK_MAX_SIZE
    );
    assert_eq!(child.read().parent(), Some(ProcessId(5)));
    assert_eq!(child.read().name(), "shell");
    assert_eq!(child.read().status(), ProgramStatus::Ready);
    assert_eq!(child.inner.ticks_passed, 0);
    assert_eq!(parent.inner.children, vec![ProcessId(6)]);
    let vm = child.read().vm();
    assert_eq!(vm.page_table, PageTableContext::new(0x9000));
    assert_eq!(vm.stack.range.start, STACK_INIT_BOT - STACK_MAX_SIZE);
    assert!(vm.code.is_empty());
    let second = parent.fork(ProcessId(7), 0).unwrap();
    assert_eq!(second.read().vm().stack.range.start, STACK_INIT_BOT - STACK_MAX_SIZE);
    assert_eq!(parent.inner.children, vec![ProcessId(6), ProcessId(7)]);
}

#[test]
fn fork_without_a_slot_changes_nothing() {
    let mut parent = user_process(5);
    assert!(parent.fork(ProcessId(6), 0x4000).is_none());
    assert!(parent.inner.children.is_empty());
    assert_eq!(parent.inner.context.regs.rax, 0);
}

#[test]
fn process_stacks_by_pid() {
    let mut process = user_process(3);
    assert_eq!(process.alloc_init_stack(), STACK_INIT_TOP - 2 * STACK_MAX_SIZE);
    assert_eq!(process.alloc_init_user_stack(), STACK_INIT_TOP);
    process.write().init_stack_frame(0x40_0000, STACK_INIT_TOP);
    assert_eq!(process.inner.context.stack_frame.instruction_pointer, 0x40_0000);
    process.write().set_rax(5);
    assert_eq!(process.inner.context.regs.rax, 5);
}

#[test]
fn environment_lookup() {
    let data = ProcessData::new()
        .set_env(String::from("PATH"), String::from("/bin"))
        .set_env(String::from("HOME"), String::from("/root"))
        .set_env(String::from("PATH"), String::from("/usr/bin"));
    assert_eq!(data.env(&String::from("PATH")), Some(String::from("/bin")));
    assert_eq!(data.env(&String::from("HOME")), Some(String::from("/root")));
    assert_eq!(data.env(&String::from("SHELL")), None);
    let copy = data.duplicate();
    assert_eq!(copy.env(&String::from("HOME")), Some(String::from("/root")));
    assert_eq!(copy.env.len(), 3);
}

#[test]
fn fork_copies_the_environment() {
    let data = ProcessData::new()
        .set_env(String::from("PATH"), String::from("/bin"))
        .set_env(String::from("HOME"), String::from("/root"));
    let vm = ProcessVm::new(PageTableContext::new(0x9000));
    let mut parent =
        Process::new(ProcessId(5), String::from("sh"), Some(ProcessId(1)), Some(vm), Some(data));
    parent.inner.load_elf(&vec![PageRun { start: 0x40_0000, count: 4 }]);
    let child = parent.fork(ProcessId(6), 0).unwrap();
    let copied = child.inner.proc_data.as_ref().unwrap();
    let pairs: Vec<(&str, &str)> =
        copied.env.iter().map(|v| (v.key.as_str(), v.value.as_str())).collect();
    assert_eq!(pairs, vec![("PATH", "/bin"), ("HOME", "/root")]);
    let kept = parent.inner.proc_data.as_ref().unwrap();
    assert_eq!(kept.env.len(), 2);
    assert_eq!(kept.env(&String::from("HOME")), Some(String::from("/root")));
}
