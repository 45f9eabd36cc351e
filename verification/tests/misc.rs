use yatsenos::apps::{factorial, MOD};
use yatsenos::drivers::input::{get_line, new_input_buffer, push_key, try_pop_key};
use yatsenos::proc::manager::Image;
use yatsenos::proc::vm::heap::HEAP_START;
use yatsenos::proc::vm::PageRun;
use yatsenos::proc::{
    init, PageTableContext, ProcessContext, ProcessId, ProcessManager, ProgramStatus,
    SYSCALL_FAILED,
};
use yatsenos::syscall::{
    exit_process, list_process, sys_brk, sys_fork, sys_get_pid, sys_sem, sys_time, sys_wait_pid,
    Syscall, SyscallArgs,
};
use yatsenos::user::io::char_display_width;
use yatsenos::user::rand::{new_rng, range, range_of};
use yatsenos::utils::logger::{parse_log_level, same_bytes, LevelFilter};

fn kernel_with_child() -> ProcessManager {
    let mut manager = init(PageTableContext::new(0x1000), &Vec::new(), None);
    let image = Image {
        page_table: PageTableContext::new(0x2000),
        code: vec![PageRun { start: 0x40_0000, count: 3 }],
        entry: 0x40_0000,
    };
    yatsenos::proc::elf_spawn(&mut manager, String::from("Shell"), Some(image)).unwrap();
    manager
}

#[test]
fn syscall_numbers() {
    let all = [
        (0, Syscall::Read),
        (1, Syscall::Write),
        (2, Syscall::Time),
        (12, Syscall::Brk),
        (39, Syscall::GetPid),
        (58, Syscall::Fork),
        (59, Syscall::Spawn),
        (60, Syscall::Exit),
        (61, Syscall::WaitPid),
        (62, Syscall::Sem),
        (217, Syscall::ListDir),
        (218, Syscall::Exists),
        (219, Syscall::Cat),
        (65531, Syscall::ListApp),
        (65532, Syscall::Stat),
        (65533, Syscall::Allocate),
        (65534, Syscall::Deallocate),
        (65535, Syscall::Unknown),
    ];
    for (n, call) in all {
        assert_eq!(Syscall::from(n), call);
        assert_eq!(call.number(), n);
    }
    assert_eq!(Syscall::from(3), Syscall::Unknown);
    assert_eq!(Syscall::from(usize::MAX), Syscall::Unknown);
    assert_eq!(Syscall::from(65530), Syscall::Unknown);
}

#[test]
fn syscall_args_from_registers() {
    let mut context = ProcessContext::new();
    context.regs.rax = 62;
    context.regs.rdi = 3;
    context.regs.rsi = 7;
    context.regs.rdx = 9;
    assert_eq!(SyscallArgs::of_context(&context), SyscallArgs::new(Syscall::Sem, 3, 7, 9));
}

#[test]
fn sys_time_is_in_milliseconds() {
    assert_eq!(sys_time(None), 0);
    assert_eq!(sys_time(Some((0, 0))), 0);
    assert_eq!(sys_time(Some((1, 999_999))), 1000);
    assert_eq!(sys_time(Some((1_592_351_310, 123_456_789))), 1_592_351_310_123);
}

#[test]
fn process_services() {
    let mut manager = kernel_with_child();
    assert_eq!(sys_get_pid(&manager), 1);
    let list = list_process(&manager);
    assert_eq!(list.rows.len(), 2);
    assert_eq!(list.rows[0].pid, ProcessId(1));
    assert_eq!(list.rows[0].ppid, 0);
    assert_eq!(list.rows[0].name, "kernel_proc");
    assert_eq!(list.rows[0].status, ProgramStatus::Running);
    assert_eq!(list.rows[0].memory, 3 * 0x1000);
    assert_eq!(list.rows[1].pid, ProcessId(2));
    assert_eq!(list.rows[1].ppid, 1);
    assert_eq!(list.rows[1].name, "shell");
    assert_eq!(list.rows[1].ticks, 0);
    assert_eq!(list.rows[1].memory, 4 * 0x1000);
    assert_eq!(list.rows[1].status, ProgramStatus::Ready);
    assert_eq!(list.ready_queue, vec![ProcessId(2)]);
    manager.kill(ProcessId(2), 0);
    let list = yatsenos::proc::print_process_list(&manager);
    assert_eq!(list.rows.len(), 1);
    assert_eq!(list.ready_queue, Vec::<ProcessId>::new());
}

#[test]
fn sys_brk_zero_asks_for_the_end() {
    let mut manager = kernel_with_child();
    let args = |arg0: u64| SyscallArgs::new(Syscall::Brk, arg0 as usize, 0, 0);
    assert_eq!(sys_brk(&mut manager, &args(0), false), HEAP_START as usize);
    assert_eq!(
        sys_brk(&mut manager, &args(HEAP_START + 0x1000), true),
        (HEAP_START + 0x1000) as usize
    );
    assert_eq!(sys_brk(&mut manager, &args(0), false), (HEAP_START + 0x1000) as usize);
    assert_eq!(sys_brk(&mut manager, &args(0x1000), true), SYSCALL_FAILED);
    assert_eq!(sys_brk(&mut manager, &args(HEAP_START + 0x9000), false), SYSCALL_FAILED);
}

#[test]
fn sys_sem_operations() {
    let mut manager = kernel_with_child();
    let mut context = ProcessContext::new();
    let args = |op: usize, key: usize, val: usize| SyscallArgs::new(Syscall::Sem, op, key, val);
    sys_sem(&mut manager, &args(0, 5, 1), &mut context);
    assert_eq!(context.regs.rax, 1);
    sys_sem(&mut manager, &args(0, 5, 1), &mut context);
    assert_eq!(context.regs.rax, 0);
    sys_sem(&mut manager, &args(3, 5, 0), &mut context);
    assert_eq!(context.regs.rax, 0);
    sys_sem(&mut manager, &args(2, 5, 0), &mut context);
    assert_eq!(context.regs.rax, 0);
    sys_sem(&mut manager, &args(2, 6, 0), &mut context);
    assert_eq!(context.regs.rax, 1);
    sys_sem(&mut manager, &args(1, 5, 0), &mut context);
    assert_eq!(context.regs.rax, 1);
    sys_sem(&mut manager, &args(4, 5, 0), &mut context);
    assert_eq!(context.regs.rax, SYSCALL_FAILED);
}

#[test]
fn sys_wait_fork_and_exit() {
    let mut manager = kernel_with_child();
    let mut context = ProcessContext::new();
    yatsenos::proc::switch(&mut manager, &mut context);
    assert_eq!(sys_get_pid(&manager), 2);
    let child = sys_fork(&mut manager, &mut context, 1).unwrap();
    assert_eq!(child, ProcessId(3));
    assert_eq!(manager.current, ProcessId(1));
    sys_wait_pid(&mut manager, &SyscallArgs::new(Syscall::WaitPid, 3, 0, 0), &mut context);
    assert_eq!(manager.current, ProcessId(2));
    yatsenos::proc::switch(&mut manager, &mut context);
    assert_eq!(manager.current, ProcessId(3));
    let freed = exit_process(
        &mut manager,
        &SyscallArgs::new(Syscall::Exit, (-7isize) as usize, 0, 0),
        &mut context,
    );
    assert!(freed.is_some());
    assert_eq!(manager.get_exit_code(&ProcessId(3)), Some(-7));
    // the queue held 2 and then the kernel, which the exit woke
    assert_eq!(manager.current, ProcessId(2));
    yatsenos::proc::switch(&mut manager, &mut context);
    assert_eq!(manager.current, ProcessId(1));
    assert_eq!(context.regs.rax, (-7isize) as usize);
}

#[test]
fn log_levels() {
    assert_eq!(parse_log_level("error"), LevelFilter::Error);
    assert_eq!(parse_log_level("warn"), LevelFilter::Warn);
    assert_eq!(parse_log_level("info"), LevelFilter::Info);
    assert_eq!(parse_log_level("debug"), LevelFilter::Debug);
    assert_eq!(parse_log_level("trace"), LevelFilter::Trace);
    assert_eq!(parse_log_level("Error"), LevelFilter::Info);
    assert_eq!(parse_log_level(""), LevelFilter::Info);
    assert_eq!(parse_log_level("errors"), LevelFilter::Info);
    assert!(same_bytes(b"abc", b"abc"));
    assert!(!same_bytes(b"abc", b"abd"));
    assert!(!same_bytes(b"abc", b"ab"));
}

#[test]
fn input_buffer_is_first_in_first_out() {
    let mut queue = new_input_buffer();
    assert_eq!(try_pop_key(&mut queue), None);
    push_key(&mut queue, b'a');
    push_key(&mut queue, b'b');
    assert_eq!(try_pop_key(&mut queue), Some(b'a'));
    push_key(&mut queue, b'c');
    assert_eq!(try_pop_key(&mut queue), Some(b'b'));
    assert_eq!(try_pop_key(&mut queue), Some(b'c'));
    assert_eq!(try_pop_key(&mut queue), None);
}

#[test]
fn input_buffer_drops_keys_when_full() {
    let mut queue = new_input_buffer();
    for i in 0..300u32 {
        push_key(&mut queue, i as u8);
    }
    assert_eq!(queue.len(), 256);
    for i in 0..256u32 {
        assert_eq!(try_pop_key(&mut queue), Some(i as u8));
    }
    assert_eq!(try_pop_key(&mut queue), None);
}

#[test]
fn get_line_reads_to_the_end_of_the_line() {
    let mut queue = new_input_buffer();
    let mut line = Vec::new();
    for key in b"ls /bi" {
        push_key(&mut queue, *key);
    }
    assert_eq!(get_line(&mut queue, &mut line), None);
    assert_eq!(line, b"ls /bi");
    for key in b"n\rcat x\nrest" {
        push_key(&mut queue, *key);
    }
    assert_eq!(get_line(&mut queue, &mut line), Some(String::from("ls /bin")));
    assert!(line.is_empty());
    assert_eq!(get_line(&mut queue, &mut line), Some(String::from("cat x")));
    assert_eq!(get_line(&mut queue, &mut line), None);
    assert_eq!(line, b"rest");
    push_key(&mut queue, 0xff);
    push_key(&mut queue, b'\n');
    assert_eq!(get_line(&mut queue, &mut line), Some(String::from("rest\u{fffd}")));
    push_key(&mut queue, b'\n');
    assert_eq!(get_line(&mut queue, &mut line), Some(String::new()));
}

#[test]
fn random_numbers_stay_in_range() {
    assert_eq!(range_of(0, 500, 2000), 500);
    assert_eq!(range_of(1499, 500, 2000), 1999);
    assert_eq!(range_of(1500, 500, 2000), 500);
    assert_eq!(range_of(u64::MAX, 0, u64::MAX), 0);
    assert_eq!(range_of(7, 3, 4), 3);
    let mut rng = new_rng(42);
    let mut seen_other = false;
    let first = range(&mut rng, 1000, 4000);
    for _ in 0..100 {
        let n = range(&mut rng, 1000, 4000);
        assert!((1000..4000).contains(&n));
        seen_other |= n != first;
    }
    assert!(seen_other);
    let mut again = new_rng(42);
    assert_eq!(range(&mut again, 1000, 4000), first);
}

#[test]
fn display_width_of_characters() {
    assert_eq!(char_display_width('a'), 1);
    assert_eq!(char_display_width(' '), 1);
    assert_eq!(char_display_width('\n'), 0);
    assert_eq!(char_display_width('\u{1f}'), 0);
    assert_eq!(char_display_width('\u{7f}'), 0);
    assert_eq!(char_display_width('\u{80}'), 1);
    assert_eq!(char_display_width('中'), 2);
    assert_eq!(char_display_width('한'), 2);
    assert_eq!(char_display_width('\u{10ff}'), 1);
    assert_eq!(char_display_width('\u{1100}'), 2);
    assert_eq!(char_display_width('\u{115f}'), 2);
    assert_eq!(char_display_width('\u{1160}'), 1);
    assert_eq!(char_display_width('Ａ'), 2);
    assert_eq!(char_display_width('😀'), 2);
    assert_eq!(char_display_width('\u{1fb00}'), 1);
    assert_eq!(char_display_width('é'), 1);
}

#[test]
fn factorial_modulo() {
    assert_eq!(factorial(0), 1);
    assert_eq!(factorial(1), 1);
    assert_eq!(factorial(5), 120);
    assert_eq!(factorial(12), 479001600);
    assert_eq!(factorial(13), 6227020800 % MOD);
    assert_eq!(factorial(20), 146326063);
    assert_eq!(factorial(1000), 641419708);
}
