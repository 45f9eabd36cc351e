use yatsenos::proc::vm::heap::{BrkPlan, Heap, HEAP_SIZE, HEAP_START};
use yatsenos::proc::vm::stack::{
    Stack, KSTACK_INIT_BOT, STACK_INIT_BOT, STACK_INIT_TOP, STACK_MAX_SIZE,
};
use yatsenos::proc::vm::{code_bytes, page_start, MapError, PageRange, PageRun, ProcessVm};
use yatsenos::proc::{PageTableContext, ProcessId};

#[test]
fn page_start_rounds_down() {
    assert_eq!(page_start(0), 0);
    assert_eq!(page_start(0xfff), 0);
    assert_eq!(page_start(0x1000), 0x1000);
    assert_eq!(page_start(0x3fff_ffff_fff8), 0x3fff_ffff_f000);
}

#[test]
fn stack_fault_below_bottom_grows_by_the_pages_needed() {
    let mut stack = Stack::new(STACK_INIT_TOP, 1);
    assert_eq!(stack.range, PageRange { start: STACK_INIT_BOT, end: STACK_INIT_BOT + 0x1000 });
    let addr = STACK_INIT_BOT - 0x2345;
    assert_eq!(
        stack.grow_plan(addr),
        Some(PageRun { start: STACK_INIT_BOT - 0x3000, count: 3 })
    );
    assert!(stack.handle_page_fault(addr, Ok(())));
    assert_eq!(stack.range.start, STACK_INIT_BOT - 0x3000);
    assert_eq!(stack.range.end, STACK_INIT_BOT + 0x1000);
    assert_eq!(stack.usage, 4);
    assert_eq!(stack.memory_usage(), 4 * 0x1000);
}

#[test]
fn stack_fault_one_byte_below_bottom_adds_one_page() {
    let mut stack = Stack::new(STACK_INIT_TOP, 1);
    assert_eq!(
        stack.grow_plan(STACK_INIT_BOT - 1),
        Some(PageRun { start: STACK_INIT_BOT - 0x1000, count: 1 })
    );
    assert!(stack.handle_page_fault(STACK_INIT_BOT - 1, Ok(())));
    assert_eq!(stack.usage, 2);
}

#[test]
fn stack_fault_outside_slot_is_not_resolved() {
    let mut stack = Stack::new(STACK_INIT_TOP, 1);
    let before = stack;
    assert!(!stack.is_on_stack(STACK_INIT_BOT - STACK_MAX_SIZE));
    assert!(!stack.handle_page_fault(STACK_INIT_BOT - STACK_MAX_SIZE, Ok(())));
    assert!(!stack.handle_page_fault(0x1000, Ok(())));
    assert!(!stack.handle_page_fault(STACK_INIT_TOP + 8, Ok(())));
    assert_eq!(stack, before);
    assert_eq!(stack.grow_plan(0x1000), None);
}

#[test]
fn stack_fault_in_slot_above_bottom_needs_nothing() {
    let mut stack = Stack::new(STACK_INIT_TOP, 1);
    let before = stack;
    assert_eq!(stack.grow_plan(STACK_INIT_TOP), None);
    assert!(stack.handle_page_fault(STACK_INIT_TOP, Err(MapError::FrameAllocationFailed)));
    assert_eq!(stack, before);
}

#[test]
fn stack_fault_is_unresolved_when_mapping_fails() {
    let mut stack = Stack::new(STACK_INIT_TOP, 1);
    let before = stack;
    let addr = STACK_INIT_BOT - 8;
    assert!(!stack.handle_page_fault(addr, Err(MapError::FrameAllocationFailed)));
    assert_eq!(stack, before);
    assert_eq!(
        stack.grow_stack(addr, Err(MapError::PageAlreadyMapped)),
        Err(MapError::PageAlreadyMapped)
    );
    assert_eq!(stack, before);
}

#[test]
fn stack_grows_to_the_bottom_of_its_slot() {
    let mut stack = Stack::new(STACK_INIT_TOP, 1);
    let slot = STACK_INIT_BOT - STACK_INIT_BOT % STACK_MAX_SIZE;
    assert!(stack.handle_page_fault(slot, Ok(())));
    assert_eq!(stack.range.start, slot);
    assert_eq!(stack.usage, 0x10_0000);
    assert_eq!(stack.memory_usage(), STACK_MAX_SIZE);
}

#[test]
fn kernel_stack_has_three_pages() {
    let stack = Stack::kstack();
    assert_eq!(stack.usage, 3);
    assert_eq!(stack.range.start, KSTACK_INIT_BOT);
    assert_eq!(stack.range.end, 0xffff_ff01_ffff_f000);
    assert_eq!(stack.memory_usage(), 0x3000);
}

#[test]
fn empty_stack_and_init() {
    let mut stack = Stack::empty();
    assert_eq!(stack.usage, 0);
    assert_eq!(Stack::init_plan(), PageRun { start: STACK_INIT_BOT, count: 1 });
    stack.init();
    assert_eq!(stack.usage, 1);
    assert_eq!(stack.range, PageRange { start: STACK_INIT_BOT, end: STACK_INIT_BOT + 0x1000 });
    assert_eq!(stack.range().count(), 1);
}

#[test]
fn stack_fork_tries_lower_slots() {
    let mut stack = Stack::new(STACK_INIT_TOP, 1);
    assert!(stack.handle_page_fault(STACK_INIT_BOT - 1, Ok(())));
    let bottom = STACK_INIT_BOT - 0x1000;
    assert_eq!(stack.fork_plan(0, 0), Some(PageRun { start: bottom, count: 2 }));
    assert_eq!(
        stack.fork_plan(0, 1),
        Some(PageRun { start: bottom - STACK_MAX_SIZE, count: 2 })
    );
    assert_eq!(
        stack.fork_plan(2, 1),
        Some(PageRun { start: bottom - 3 * STACK_MAX_SIZE, count: 2 })
    );
    let child = stack.fork(0, 1).unwrap();
    assert_eq!(child.usage, 2);
    assert_eq!(child.range.start, bottom - STACK_MAX_SIZE);
    assert_eq!(child.range.end, bottom - STACK_MAX_SIZE + 0x2000);
    let copy = stack.clone_range(child.range.start);
    assert_eq!(copy.src, bottom);
    assert_eq!(copy.dest, bottom - STACK_MAX_SIZE);
    assert_eq!(copy.words, 2 * 512);
}

#[test]
fn stack_fork_fails_below_the_address_space() {
    let stack = Stack::new(STACK_INIT_TOP, 1);
    assert_eq!(stack.fork_plan(0x3fff, 0), Some(PageRun { start: 0xffff_f000, count: 1 }));
    assert_eq!(stack.fork_plan(0x4000, 0), None);
    assert!(stack.fork(0x4000, 0).is_none());
    assert!(stack.fork(u64::MAX, 1).is_none());
}

#[test]
fn stack_clean_up_names_its_pages() {
    let mut stack = Stack::new(STACK_INIT_TOP, 1);
    assert_eq!(stack.clean_up(), Some(PageRun { start: STACK_INIT_BOT, count: 1 }));
    assert_eq!(stack.usage, 0);
    assert_eq!(stack.clean_up(), None);
}

#[test]
fn heap_brk_without_address_returns_the_end() {
    let mut heap = Heap::empty();
    assert_eq!(heap.brk(None, false), Some(HEAP_START));
    assert_eq!(heap, Heap { base: HEAP_START, end: HEAP_START });
    assert_eq!(heap.brk_plan(None), BrkPlan::Nothing);
}

#[test]
fn heap_brk_outside_window_is_refused() {
    let mut heap = Heap::empty();
    assert_eq!(heap.brk(Some(HEAP_START + 0x2000), true), Some(HEAP_START + 0x2000));
    let before = heap;
    assert_eq!(heap.brk(Some(HEAP_START - 1), true), None);
    assert_eq!(heap.brk(Some(0), true), None);
    assert_eq!(heap.brk(Some(HEAP_START + HEAP_SIZE), true), None);
    assert_eq!(heap.brk(Some(u64::MAX), true), None);
    assert_eq!(heap, before);
    assert_eq!(heap.brk_plan(Some(HEAP_START + HEAP_SIZE)), BrkPlan::Nothing);
    assert_eq!(
        heap.brk(Some(HEAP_START + HEAP_SIZE - 1), true),
        Some(HEAP_START + HEAP_SIZE - 1)
    );
}

#[test]
fn heap_brk_to_the_present_end_changes_nothing() {
    let mut heap = Heap::empty();
    assert_eq!(heap.brk(Some(HEAP_START + 0x1800), true), Some(HEAP_START + 0x1800));
    let before = heap;
    assert_eq!(heap.brk_plan(Some(HEAP_START + 0x1800)), BrkPlan::Nothing);
    assert_eq!(heap.brk(Some(HEAP_START + 0x1800), false), Some(HEAP_START + 0x1800));
    assert_eq!(heap, before);
}

#[test]
fn heap_grow_maps_and_shrink_unmaps_the_same_pages() {
    let mut heap = Heap::empty();
    assert_eq!(
        heap.brk_plan(Some(HEAP_START + 0x1000)),
        BrkPlan::Grow(PageRun { start: HEAP_START, count: 2 })
    );
    assert_eq!(heap.brk(Some(HEAP_START + 0x1000), true), Some(HEAP_START + 0x1000));
    assert_eq!(heap.memory_usage(), 0x1000);
    let grow = heap.brk_plan(Some(HEAP_START + 0x5010));
    assert_eq!(grow, BrkPlan::Grow(PageRun { start: HEAP_START + 0x2000, count: 4 }));
    assert_eq!(heap.brk(Some(HEAP_START + 0x5010), true), Some(HEAP_START + 0x5010));
    let shrink = heap.brk_plan(Some(HEAP_START + 0x1000));
    assert_eq!(shrink, BrkPlan::Shrink(PageRun { start: HEAP_START + 0x2000, count: 4 }));
    assert_eq!(heap.brk(Some(HEAP_START + 0x1000), true), Some(HEAP_START + 0x1000));
    assert_eq!(heap, Heap { base: HEAP_START, end: HEAP_START + 0x1000 });
    assert_eq!(
        heap.brk_plan(Some(HEAP_START)),
        BrkPlan::Shrink(PageRun { start: HEAP_START, count: 2 })
    );
}

#[test]
fn heap_brk_fails_when_pages_were_not_mapped() {
    let mut heap = Heap::empty();
    assert_eq!(heap.brk(Some(HEAP_START + 0x3000), false), None);
    assert_eq!(heap, Heap::empty());
    assert_eq!(heap.brk(Some(HEAP_START + 0x3000), true), Some(HEAP_START + 0x3000));
    assert_eq!(heap.brk(Some(HEAP_START + 0x3008), false), Some(HEAP_START + 0x3008));
    assert_eq!(heap.brk(Some(HEAP_START + 0x10), false), None);
    assert_eq!(heap.end, HEAP_START + 0x3008);
}

#[test]
fn heap_clean_up_unmaps_everything() {
    let mut heap = Heap::empty();
    assert_eq!(heap.clean_up(), None);
    heap.brk(Some(HEAP_START + 0x2fff), true);
    assert_eq!(heap.clean_up(), Some(PageRun { start: HEAP_START, count: 3 }));
    assert_eq!(heap, Heap::empty());
    assert_eq!(heap.memory_usage(), 0);
}

#[test]
fn heap_fork_has_the_same_end() {
    let mut heap = Heap::empty();
    heap.brk(Some(HEAP_START + 0x42), true);
    assert_eq!(heap.fork(), heap);
}

#[test]
fn code_bytes_counts_pages() {
    let runs = vec![PageRun { start: 0x1000, count: 3 }, PageRun { start: 0x8000, count: 5 }];
    assert_eq!(code_bytes(&runs), Some(8 * 0x1000));
    assert_eq!(code_bytes(&Vec::new()), Some(0));
    let huge = vec![PageRun { start: 0, count: u64::MAX }];
    assert_eq!(code_bytes(&huge), None);
}

#[test]
fn vm_memory_usage_is_stack_heap_and_code() {
    let mut vm = ProcessVm::new(PageTableContext::new(0x5000));
    assert_eq!(vm.memory_usage(), 0);
    vm.load_elf(&vec![PageRun { start: 0x40_0000, count: 7 }]);
    assert_eq!(vm.code_usage, 7 * 0x1000);
    assert_eq!(vm.stack.usage, 1);
    assert_eq!(vm.brk(Some(HEAP_START + 0x123), true), Some(HEAP_START + 0x123));
    assert_eq!(vm.memory_usage(), 0x1000 + 0x123 + 7 * 0x1000);
    assert!(vm.handle_page_fault(STACK_INIT_BOT - 1, Ok(())));
    assert_eq!(vm.memory_usage(), 0x2000 + 0x123 + 7 * 0x1000);
}

#[test]
fn vm_kernel_and_process_stacks() {
    let vm = ProcessVm::new(PageTableContext::new(0x1000))
        .init_kernel_vm(&vec![PageRun { start: 0xffff_ff00_0000_0000, count: 16 }]);
    assert_eq!(vm.stack, Stack::kstack());
    assert_eq!(vm.code_usage, 16 * 0x1000);
    assert_eq!(vm.heap, Heap::empty());
    let mut vm = ProcessVm::new(PageTableContext::new(0x2000));
    let top = vm.init_proc_stack(ProcessId(3));
    assert_eq!(top, STACK_INIT_TOP - 2 * STACK_MAX_SIZE);
    assert_eq!(vm.stack.range.start, STACK_INIT_BOT - 2 * STACK_MAX_SIZE);
    assert_eq!(
        ProcessVm::init_proc_stack_plan(ProcessId(3)),
        PageRun { start: STACK_INIT_BOT - 2 * STACK_MAX_SIZE, count: 1 }
    );
    let top = vm.init_user_proc_stack(ProcessId(3));
    assert_eq!(top, STACK_INIT_TOP);
    assert_eq!(vm.stack.range.start, STACK_INIT_BOT);
}

#[test]
fn vm_fork_shares_table_and_heap_but_not_code() {
    let mut vm = ProcessVm::new(PageTableContext::new(0x7000));
    vm.load_elf(&vec![PageRun { start: 0x40_0000, count: 2 }]);
    vm.brk(Some(HEAP_START + 0x1000), true);
    let child = vm.fork(0, 1).unwrap();
    assert_eq!(child.page_table, vm.page_table);
    assert_eq!(child.heap, vm.heap);
    assert!(child.code.is_empty());
    assert_eq!(child.code_usage, 0);
    assert_eq!(child.stack.range.start, STACK_INIT_BOT - STACK_MAX_SIZE);
    assert_eq!(vm.fork_plan(0, 1), Some(PageRun { start: STACK_INIT_BOT - STACK_MAX_SIZE, count: 1 }));
}

#[test]
fn vm_clean_up_frees_the_table_only_for_the_last_user() {
    let mut vm = ProcessVm::new(PageTableContext::new(0x7000));
    vm.load_elf(&vec![PageRun { start: 0x40_0000, count: 2 }]);
    vm.brk(Some(HEAP_START + 0x1000), true);
    let mut child = vm.fork(0, 1).unwrap();
    let freed = child.clean_up(2);
    assert_eq!(freed.stack, Some(PageRun { start: STACK_INIT_BOT - STACK_MAX_SIZE, count: 1 }));
    assert_eq!(freed.heap, None);
    assert!(freed.code.is_empty());
    assert_eq!(freed.page_table, None);
    let freed = vm.clean_up(1);
    assert_eq!(freed.stack, Some(PageRun { start: STACK_INIT_BOT, count: 1 }));
    assert_eq!(freed.heap, Some(PageRun { start: HEAP_START, count: 2 }));
    assert_eq!(freed.code, vec![PageRun { start: 0x40_0000, count: 2 }]);
    assert_eq!(freed.page_table, Some(PageTableContext::new(0x7000)));
    assert_eq!(vm.memory_usage(), 0);
}
