//! The virtual memory of a process: its stack, its heap and its code pages.

use vstd::prelude::*;
use crate::proc::paging::PageTableContext;
use crate::proc::pid::ProcessId;
use heap::{BrkPlan, Heap};
use stack::{Stack, STACK_INIT_TOP, STACK_MAX_SIZE};

pub mod heap;
pub mod stack;

verus! {

/// The size of a page in bytes.
pub const PAGE_SIZE: u64 = 0x1000;

/// A run of pages: `count` pages, the first of which starts at `start`.
#[derive(Clone, Copy, Debug, PartialEq, Eq, Structural)]
pub struct PageRun {
    pub start: u64,
    pub count: u64,
}

/// The pages from the one that starts at `start` up to, and without, the
/// one that starts at `end`.
#[derive(Clone, Copy, Debug, PartialEq, Eq, Structural)]
pub struct PageRange {
    pub start: u64,
    pub end: u64,
}

/// Why pages could not be mapped.
#[derive(Clone, Copy, Debug, PartialEq, Eq, Structural)]
pub enum MapError {
    /// No frame was left for a page or for a page table.
    FrameAllocationFailed,
    /// A huge page stands where a page table was needed.
    ParentEntryHugePage,
    /// One of the pages was mapped already.
    PageAlreadyMapped,
}

/// The start of the page that holds `addr`.
pub open spec fn spec_page_start(addr: u64) -> u64 {
    (addr - addr % PAGE_SIZE) as u64
}

/// Whether `addr` is the start of a page.
pub open spec fn is_page_aligned(addr: u64) -> bool {
    addr % PAGE_SIZE == 0
}

/// The start of the page that holds `addr`.
pub fn page_start(addr: u64) -> (start: u64)
    ensures
        start == spec_page_start(addr),
        is_page_aligned(start),
        start <= addr < start + PAGE_SIZE,
{
    addr - addr % PAGE_SIZE
}

impl PageRange {
    /// The number of pages in the range.
    pub open spec fn spec_count(&self) -> int {
        (self.end - self.start) / (PAGE_SIZE as int)
    }

    /// The number of pages in the range; none where `end` is below `start`.
    pub fn count(&self) -> (n: u64)
        ensures
            self.start <= self.end ==> n == self.spec_count(),
            self.start > self.end ==> n == 0,
    {
        if self.start <= self.end {
            (self.end - self.start) / PAGE_SIZE
        } else {
            0
        }
    }
}

impl PageRun {
    /// The number of bytes in the run.
    pub open spec fn spec_bytes(&self) -> int {
        self.count * PAGE_SIZE
    }
}

/// The most bytes of code that the books of one address space can hold.
pub const CODE_MAX: u64 = 0xffff_0000_0000_0000;

/// The highest identifier for which a stack slot of its own lies below
/// [`STACK_INIT_TOP`].
pub const STACK_SLOTS: u16 = 0x4000;

/// The number of pages in all the runs of `runs`.
pub open spec fn spec_total_pages(runs: Seq<PageRun>) -> int
    decreases runs.len(),
{
    if runs.len() == 0 {
        0
    } else {
        spec_total_pages(runs.drop_last()) + runs.last().count
    }
}

/// Whether the bytes of the pages of `runs` can be counted.
pub open spec fn spec_code_fits(runs: Seq<PageRun>) -> bool {
    spec_total_pages(runs) * PAGE_SIZE <= CODE_MAX
}

/// A list of runs has at least as many pages as any of its beginnings.
pub proof fn lemma_total_pages_grows(runs: Seq<PageRun>, n: int)
    requires
        0 <= n <= runs.len(),
    ensures
        0 <= spec_total_pages(runs.take(n)) <= spec_total_pages(runs),
    decreases runs.len(),
{
    if n == runs.len() {
        assert(runs.take(n) =~= runs);
        if n > 0 {
            lemma_total_pages_grows(runs.drop_last(), n - 1);
        }
    } else {
        lemma_total_pages_grows(runs.drop_last(), n);
        assert(runs.drop_last().take(n) =~= runs.take(n));
    }
}

/// The bytes in the pages of `runs`, or `None` where they are more than
/// [`CODE_MAX`].
pub fn code_bytes(runs: &Vec<PageRun>) -> (bytes: Option<u64>)
    ensures
        bytes is Some == spec_code_fits(runs@),
        bytes matches Some(b) ==> b == spec_total_pages(runs@) * PAGE_SIZE,
{
    let limit: u64 = CODE_MAX / PAGE_SIZE;
    let mut pages: u64 = 0;
    let mut i: usize = 0;
    while i < runs.len()
        invariant
            0 <= i <= runs.len(),
            pages == spec_total_pages(runs@.take(i as int)),
            pages <= limit,
            limit == CODE_MAX / PAGE_SIZE,
        decreases runs.len() - i,
    {
        let count: u64 = runs[i].count;
        proof {
            assert(runs@.take(i + 1).drop_last() =~= runs@.take(i as int));
            lemma_total_pages_grows(runs@, i + 1);
        }
        if count > limit - pages {
            return None;
        }
        pages = pages + count;
        i = i + 1;
    }
    assert(runs@.take(i as int) =~= runs@);
    Some(pages * PAGE_SIZE)
}

/// What the caller has to do to the page table when an address space is
/// given up.
pub struct CleanUp {
    /// The pages of the stack, to unmap.
    pub stack: Option<PageRun>,
    /// The pages of the heap, to unmap.
    pub heap: Option<PageRun>,
    /// The pages of the code, to unmap.
    pub code: Vec<PageRun>,
    /// The page table to free, with all its levels.
    pub page_table: Option<PageTableContext>,
}

/// The virtual memory of one process.
pub struct ProcessVm {
    /// The page table. A forked child uses that of its parent.
    pub page_table: PageTableContext,
    /// The stack, which each process has for itself.
    pub stack: Stack,
    /// The heap, which `brk` moves.
    pub heap: Heap,
    /// The pages of the code. Only the process that loaded it holds them.
    pub code: Vec<PageRun>,
    /// The bytes in the pages of the code.
    pub code_usage: u64,
}

impl ProcessVm {
    /// The stack and the heap are well formed, and `code_usage` counts
    /// the bytes of the code pages.
    pub open spec fn wf(&self) -> bool {
        &&& self.stack.wf()
        &&& self.heap.wf()
        &&& spec_code_fits(self.code@)
        &&& self.code_usage == spec_total_pages(self.code@) * PAGE_SIZE
    }

    /// The memory that the address space uses, in bytes: stack, heap and
    /// code together.
    pub open spec fn spec_memory_usage(&self) -> int {
        self.stack.usage * PAGE_SIZE + (self.heap.end - self.heap.base) + self.code_usage
    }

    /// The stack top of the process `pid` where each process has a slot of
    /// its own.
    pub open spec fn spec_proc_stack_top(pid: ProcessId) -> int {
        STACK_INIT_TOP - (pid.0 - 1) * STACK_MAX_SIZE
    }

    /// An address space on `page_table` with nothing in it.
    pub fn new(page_table: PageTableContext) -> (vm: ProcessVm)
        ensures
            vm.wf(),
            vm.page_table == page_table,
            vm.stack == Stack::spec_empty(),
            vm.heap == Heap::spec_empty(),
            vm.code@ == Seq::<PageRun>::empty(),
            vm.code_usage == 0,
    {
        ProcessVm {
            page_table,
            stack: Stack::empty(),
            heap: Heap::empty(),
            code: Vec::new(),
            code_usage: 0,
        }
    }

    /// Makes this the address space of the kernel: `pages` are the pages
    /// of its code, and its stack is the one it was started on. The kernel
    /// has no heap here.
    pub fn init_kernel_vm(self, pages: &Vec<PageRun>) -> (vm: ProcessVm)
        requires
            self.heap.wf(),
            spec_code_fits(pages@),
        ensures
            vm.wf(),
            vm.page_table == self.page_table,
            vm.heap == self.heap,
            vm.stack == Stack::spec_kstack(),
            vm.code@ == pages@,
            vm.code_usage == spec_total_pages(pages@) * PAGE_SIZE,
    {
        let mut vm = self;
        vm.load_elf_code(pages);
        vm.stack = Stack::kstack();
        vm
    }

    /// The page that the caller has to map before
    /// [`ProcessVm::init_proc_stack`].
    pub fn init_proc_stack_plan(pid: ProcessId) -> (run: PageRun)
        requires
            1 <= pid.0 <= STACK_SLOTS,
        ensures
            run.start == spec_page_start(Self::spec_proc_stack_top(pid) as u64),
            run.count == stack::STACK_DEF_PAGE,
    {
        let stack_top_addr: u64 = STACK_INIT_TOP - (pid.0 as u64 - 1) * STACK_MAX_SIZE;
        PageRun { start: page_start(stack_top_addr), count: stack::STACK_DEF_PAGE }
    }

    /// Gives the process `pid` a stack of one page at the top of a slot of
    /// its own, as many slots below the highest as `pid` is above 1, and
    /// returns the stack pointer to start with.
    pub fn init_proc_stack(&mut self, pid: ProcessId) -> (stack_top: u64)
        requires
            1 <= pid.0 <= STACK_SLOTS,
            old(self).wf(),
        ensures
            final(self).wf(),
            stack_top == Self::spec_proc_stack_top(pid),
            final(self).stack.usage == stack::STACK_DEF_PAGE,
            final(self).stack.range == (PageRange {
                start: spec_page_start(stack_top),
                end: (spec_page_start(stack_top) + PAGE_SIZE) as u64,
            }),
            final(self).page_table == old(self).page_table,
            final(self).heap == old(self).heap,
            final(self).code == old(self).code,
            final(self).code_usage == old(self).code_usage,
    {
        let stack_top_addr: u64 = STACK_INIT_TOP - (pid.0 as u64 - 1) * STACK_MAX_SIZE;
        assert(stack_top_addr % STACK_MAX_SIZE == 0xffff_fff8);
        self.stack = Stack::new(stack_top_addr, stack::STACK_DEF_PAGE);
        stack_top_addr
    }

    /// Gives the process a stack of one page at the top of the highest
    /// user slot, and returns the stack pointer to start with. The page is
    /// that of [`Stack::init_plan`].
    pub fn init_user_proc_stack(&mut self, pid: ProcessId) -> (stack_top: u64)
        requires
            old(self).wf(),
        ensures
            final(self).wf(),
            stack_top == STACK_INIT_TOP,
            final(self).stack.usage == stack::STACK_DEF_PAGE,
            final(self).stack.range == (PageRange {
                start: stack::STACK_INIT_BOT,
                end: (stack::STACK_INIT_BOT + PAGE_SIZE) as u64,
            }),
            final(self).page_table == old(self).page_table,
            final(self).heap == old(self).heap,
            final(self).code == old(self).code,
            final(self).code_usage == old(self).code_usage,
    {
        let stack_top_addr: u64 = STACK_INIT_TOP;
        self.stack = Stack::new(stack_top_addr, stack::STACK_DEF_PAGE);
        stack_top_addr
    }

    /// The pages that the caller has to map or unmap before it makes the
    /// same request of [`ProcessVm::brk`].
    pub fn brk_plan(&self, addr: Option<u64>) -> (plan: BrkPlan)
        requires
            self.wf(),
        ensures
            plan == self.heap.spec_brk_plan(addr),
    {
        self.heap.brk_plan(addr)
    }

    /// Reads or moves the end of the heap, as [`Heap::brk`] does.
    pub fn brk(&mut self, addr: Option<u64>, done: bool) -> (res: Option<u64>)
        requires
            old(self).wf(),
        ensures
            final(self).wf(),
            res == old(self).heap.spec_brk_result(addr, done),
            final(self).heap == old(self).heap.spec_brk_heap(addr, done),
            final(self).page_table == old(self).page_table,
            final(self).stack == old(self).stack,
            final(self).code == old(self).code,
            final(self).code_usage == old(self).code_usage,
    {
        self.heap.brk(addr, done)
    }

    /// Takes over a program that the caller has loaded: `code` are the
    /// pages of its segments. The process gets the first page of its
    /// stack, that of [`Stack::init_plan`].
    pub fn load_elf(&mut self, code: &Vec<PageRun>)
        requires
            old(self).heap.wf(),
            spec_code_fits(code@),
        ensures
            final(self).wf(),
            final(self).code@ == code@,
            final(self).code_usage == spec_total_pages(code@) * PAGE_SIZE,
            final(self).stack.usage == stack::STACK_DEF_PAGE,
            final(self).stack.range == (PageRange {
                start: stack::STACK_INIT_BOT,
                end: (stack::STACK_INIT_BOT + PAGE_SIZE) as u64,
            }),
            final(self).page_table == old(self).page_table,
            final(self).heap == old(self).heap,
    {
        self.load_elf_code(code);
        self.stack.init();
    }

    /// Records the pages of the code and counts their bytes.
    fn load_elf_code(&mut self, code: &Vec<PageRun>)
        requires
            spec_code_fits(code@),
        ensures
            final(self).code@ == code@,
            final(self).code_usage == spec_total_pages(code@) * PAGE_SIZE,
            final(self).page_table == old(self).page_table,
            final(self).heap == old(self).heap,
            final(self).stack == old(self).stack,
    {
        let mut copy: Vec<PageRun> = Vec::new();
        let mut i: usize = 0;
        while i < code.len()
            invariant
                0 <= i <= code.len(),
                copy@ == code@.take(i as int),
            decreases code.len() - i,
        {
            copy.push(code[i]);
            assert(code@.take(i as int).push(code@[i as int]) =~= code@.take(i + 1));
            i = i + 1;
        }
        assert(code@.take(i as int) =~= code@);
        self.code = copy;
        self.code_usage = match code_bytes(code) {
            Some(bytes) => bytes,
            None => 0,
        };
    }

    /// The pages that a forked child's stack would take in its
    /// `attempt`-th try, as [`Stack::fork_plan`] gives them.
    pub fn fork_plan(&self, stack_offset_count: u64, attempt: u64) -> (plan: Option<PageRun>)
        requires
            self.wf(),
        ensures
            self.stack.spec_fork_bottom(stack_offset_count + attempt) >= 0 ==> plan == Some(
                PageRun {
                    start: self.stack.spec_fork_bottom(stack_offset_count + attempt) as u64,
                    count: self.stack.usage,
                },
            ),
            self.stack.spec_fork_bottom(stack_offset_count + attempt) < 0 ==> plan is None,
    {
        self.stack.fork_plan(stack_offset_count, attempt)
    }

    /// The address space of a forked child.
    ///
    /// It uses the page table of this one and has the same heap. Its stack
    /// is that of [`Stack::fork`]. It holds no code pages: those stay with
    /// the process that loaded them. `None` where no slot is left for the
    /// stack.
    pub fn fork(&self, stack_offset_count: u64, failed: u64) -> (child: Option<ProcessVm>)
        requires
            self.wf(),
        ensures
            child is Some == (self.stack.spec_fork_bottom(stack_offset_count + failed) >= 0),
            child matches Some(vm) ==> {
                &&& vm.wf()
                &&& vm.page_table == self.page_table
                &&& vm.heap == self.heap
                &&& vm.code@ == Seq::<PageRun>::empty()
                &&& vm.code_usage == 0
                &&& vm.stack.usage == self.stack.usage
                &&& vm.stack.range.start == self.stack.spec_fork_bottom(
                    stack_offset_count + failed,
                )
                &&& vm.stack.range.end == vm.stack.range.start + self.stack.usage * PAGE_SIZE
            },
    {
        match self.stack.fork(stack_offset_count, failed) {
            Some(stack) => Some(
                ProcessVm {
                    page_table: self.page_table.fork(),
                    stack,
                    heap: self.heap.fork(),
                    code: Vec::new(),
                    code_usage: 0,
                },
            ),
            None => None,
        }
    }

    /// The pages that the caller has to map before it reports a fault at
    /// `addr` to [`ProcessVm::handle_page_fault`].
    pub fn page_fault_plan(&self, addr: u64) -> (plan: Option<PageRun>)
        requires
            self.wf(),
        ensures
            plan == self.stack.spec_grow_plan(addr),
    {
        self.stack.grow_plan(addr)
    }

    /// Handles a page fault at `addr`, as [`Stack::handle_page_fault`]
    /// does; the result says whether it is resolved.
    pub fn handle_page_fault(&mut self, addr: u64, mapped: Result<(), MapError>) -> (resolved:
        bool)
        requires
            old(self).wf(),
        ensures
            final(self).wf(),
            resolved == old(self).stack.spec_resolves(addr, mapped),
            final(self).stack == old(self).stack.spec_after_fault(addr, mapped),
            final(self).page_table == old(self).page_table,
            final(self).heap == old(self).heap,
            final(self).code == old(self).code,
            final(self).code_usage == old(self).code_usage,
    {
        self.stack.handle_page_fault(addr, mapped)
    }

    /// The memory that the address space uses, in bytes: stack, heap and
    /// code together.
    pub fn memory_usage(&self) -> (bytes: u64)
        requires
            self.wf(),
        ensures
            bytes == self.spec_memory_usage(),
    {
        self.stack.memory_usage() + self.heap.memory_usage() + self.code_usage
    }

    /// Gives the address space up; the result names what the caller has
    /// to unmap and free.
    ///
    /// `using_count` is the number of address spaces that use the page
    /// table, this one among them. The stack goes in any case. The heap,
    /// the code and the page table go only where this is the last address
    /// space that uses the table.
    pub fn clean_up(&mut self, using_count: usize) -> (freed: CleanUp)
        requires
            old(self).wf(),
        ensures
            final(self).wf(),
            final(self).page_table == old(self).page_table,
            final(self).stack.usage == 0,
            final(self).stack.range == old(self).stack.range,
            freed.stack == (if old(self).stack.usage == 0 {
                None
            } else {
                Some(PageRun { start: old(self).stack.range.start, count: old(self).stack.usage })
            }),
            using_count != 1 ==> {
                &&& freed.heap is None
                &&& freed.code@ == Seq::<PageRun>::empty()
                &&& freed.page_table is None
                &&& final(self).heap == old(self).heap
                &&& final(self).code == old(self).code
                &&& final(self).code_usage == old(self).code_usage
            },
            using_count == 1 ==> {
                &&& freed.heap == (if old(self).heap.end == old(self).heap.base {
                    None
                } else {
                    Some(
                        PageRun {
                            start: spec_page_start(old(self).heap.base),
                            count: old(self).heap.spec_pages() as u64,
                        },
                    )
                })
                &&& freed.code == old(self).code
                &&& freed.page_table == Some(old(self).page_table)
                &&& final(self).heap.base == old(self).heap.base
                &&& final(self).heap.end == old(self).heap.base
                &&& final(self).code@ == Seq::<PageRun>::empty()
                &&& final(self).code_usage == 0
            },
    {
        let stack = self.stack.clean_up();
        if using_count == 1 {
            let heap = self.heap.clean_up();
            let mut code: Vec<PageRun> = Vec::new();
            std::mem::swap(&mut code, &mut self.code);
            self.code_usage = 0;
            CleanUp { stack, heap, code, page_table: Some(self.page_table) }
        } else {
            CleanUp { stack, heap: None, code: Vec::new(), page_table: None }
        }
    }
}

} // verus!
