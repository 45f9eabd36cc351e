//! The stack of a process: a run of pages that grows downwards inside a
//! slot of fixed size when a page below its bottom is touched.

use vstd::prelude::*;
use super::{MapError, PageRange, PageRun, PAGE_SIZE, is_page_aligned, page_start, spec_page_start};

verus! {

/// The address above the highest user stack.
pub const STACK_MAX: u64 = 0x4000_0000_0000;

/// The number of pages in a stack slot.
pub const STACK_MAX_PAGES: u64 = 0x10_0000;

/// The size of a stack slot in bytes. Slots start at multiples of it.
pub const STACK_MAX_SIZE: u64 = 0x1_0000_0000;

/// Applied to an address, leaves the start of its slot.
pub const STACK_START_MASK: u64 = 0xffff_ffff_0000_0000;

/// The lowest address of the highest user slot.
pub const STACK_DEF_BOT: u64 = 0x3fff_0000_0000;

/// The number of pages that a user stack starts with.
pub const STACK_DEF_PAGE: u64 = 1;

/// The size in bytes that a user stack starts with.
pub const STACK_DEF_SIZE: u64 = 0x1000;

/// The bottom of a user stack when it is made.
pub const STACK_INIT_BOT: u64 = 0x3fff_ffff_f000;

/// The stack pointer of a user process when it starts.
pub const STACK_INIT_TOP: u64 = 0x3fff_ffff_fff8;

/// The address above the kernel stack.
pub const KSTACK_MAX: u64 = 0xffff_ff02_0000_0000;

/// The lowest address of the kernel's slot.
pub const KSTACK_DEF_BOT: u64 = 0xffff_ff01_0000_0000;

/// The number of pages that the kernel stack starts with.
pub const KSTACK_DEF_PAGE: u64 = 3;

/// The size in bytes that the kernel stack starts with.
pub const KSTACK_DEF_SIZE: u64 = 0x3000;

/// The bottom of the kernel stack when the kernel starts.
pub const KSTACK_INIT_BOT: u64 = 0xffff_ff01_ffff_d000;

/// The stack pointer of the kernel when it starts.
pub const KSTACK_INIT_TOP: u64 = 0xffff_ff01_ffff_fff8;

/// The start of the slot that holds `addr`.
pub open spec fn spec_slot_base(addr: u64) -> u64 {
    (addr - addr % STACK_MAX_SIZE) as u64
}

/// The start of the slot that holds `addr`, by the mask.
pub fn slot_base(addr: u64) -> (base: u64)
    ensures
        base == spec_slot_base(addr),
        base <= addr,
        addr - base < STACK_MAX_SIZE,
        base % STACK_MAX_SIZE == 0,
{
    let base: u64 = addr & STACK_START_MASK;
    assert(addr & 0xffff_ffff_0000_0000u64 == addr - addr % 0x1_0000_0000u64) by (bit_vector);
    base
}

/// A request to copy a stack: `words` words of eight bytes from `src` to `dest`.
#[derive(Clone, Copy, Debug, PartialEq, Eq, Structural)]
pub struct CopyRange {
    pub src: u64,
    pub dest: u64,
    pub words: u64,
}

/// An address that lies less than a slot above the start of a slot lies in
/// that slot.
pub proof fn lemma_same_slot(addr: u64, base: u64)
    requires
        base % STACK_MAX_SIZE == 0,
        base <= addr,
        addr - base < STACK_MAX_SIZE,
    ensures
        spec_slot_base(addr) == base,
{
    assert(base % 0x1_0000_0000u64 == 0 && base <= addr && addr - base < 0x1_0000_0000u64
        ==> addr - addr % 0x1_0000_0000u64 == base) by (bit_vector);
}

/// The start of a slot is the start of a page, and so is the start of the
/// page of any address, which lies in the slot of that address.
pub proof fn lemma_slot_and_page(addr: u64)
    ensures
        spec_slot_base(addr) % STACK_MAX_SIZE == 0,
        spec_slot_base(addr) % PAGE_SIZE == 0,
        spec_slot_base(addr) <= spec_page_start(addr) <= addr,
        addr - spec_slot_base(addr) < STACK_MAX_SIZE,
        addr - spec_page_start(addr) < PAGE_SIZE,
        spec_page_start(addr) % PAGE_SIZE == 0,
        spec_slot_base(spec_page_start(addr)) == spec_slot_base(addr),
{
    assert(((addr - addr % 0x1_0000_0000u64) as u64) % 0x1_0000_0000u64 == 0) by (bit_vector);
    assert(((addr - addr % 0x1_0000_0000u64) as u64) % 0x1000u64 == 0) by (bit_vector);
    assert(addr - addr % 0x1_0000_0000u64 <= addr - addr % 0x1000u64) by (bit_vector);
    assert(((addr - addr % 0x1000u64) as u64) % 0x1000u64 == 0) by (bit_vector);
    lemma_same_slot(spec_page_start(addr), spec_slot_base(addr));
}

/// Growing a stack whose bottom is `bottom` down to the page of `addr`, an
/// address of its slot, adds whole pages and stays in the slot.
proof fn lemma_page_below(bottom: u64, addr: u64)
    requires
        is_page_aligned(bottom),
        addr < bottom,
        spec_slot_base(addr) == spec_slot_base(bottom),
    ensures
        ({
            let needed = (bottom - addr - 1) / (PAGE_SIZE as int) + 1;
            &&& needed >= 1
            &&& needed <= STACK_MAX_PAGES
            &&& bottom - needed * PAGE_SIZE == spec_page_start(addr)
            &&& needed == (bottom - spec_page_start(addr)) / (PAGE_SIZE as int)
            &&& spec_slot_base(spec_page_start(addr)) == spec_slot_base(bottom)
        }),
{
    let page = spec_page_start(addr);
    lemma_slot_and_page(addr);
    lemma_slot_and_page(bottom);
    assert(page + 0x1000 <= bottom);
}

/// The stack of one process.
///
/// `range` holds the pages of the stack and `usage` counts the pages that
/// are mapped for it.
#[derive(Clone, Copy, Debug, PartialEq, Eq, Structural)]
pub struct Stack {
    pub range: PageRange,
    pub usage: u64,
}

impl Stack {
    /// The stack lies inside one slot: its bounds are page starts, its top
    /// is no higher than the end of the slot of its bottom, and the pages
    /// counted in `usage` fit between its bottom and the end of that slot
    /// and of the address space.
    pub open spec fn wf(&self) -> bool {
        &&& is_page_aligned(self.range.start)
        &&& is_page_aligned(self.range.end)
        &&& self.range.start <= self.range.end
        &&& self.range.end <= spec_slot_base(self.range.start) + STACK_MAX_SIZE
        &&& self.range.start + self.usage * PAGE_SIZE <= spec_slot_base(self.range.start)
            + STACK_MAX_SIZE
        &&& self.range.start + self.usage * PAGE_SIZE <= u64::MAX
    }

    /// Whether `addr` lies in the slot of this stack.
    pub open spec fn spec_is_on_stack(&self, addr: u64) -> bool {
        spec_slot_base(addr) == spec_slot_base(self.range.start)
    }

    /// The number of pages that have to be added below the bottom so that
    /// the stack holds `addr`: none where `addr` is not below the bottom.
    pub open spec fn spec_needed_pages(&self, addr: u64) -> int {
        if addr < self.range.start {
            (self.range.start - spec_page_start(addr)) / (PAGE_SIZE as int)
        } else {
            0
        }
    }

    /// The pages that a fault at `addr` asks for: those from the page of
    /// `addr` up to the bottom, where `addr` lies in the slot and below the
    /// bottom.
    pub open spec fn spec_grow_plan(&self, addr: u64) -> Option<PageRun> {
        if self.spec_is_on_stack(addr) && addr < self.range.start {
            Some(
                PageRun {
                    start: spec_page_start(addr),
                    count: self.spec_needed_pages(addr) as u64,
                },
            )
        } else {
            None
        }
    }

    /// The stack after the pages below its bottom down to the page of
    /// `addr` were added.
    pub open spec fn spec_grown(&self, addr: u64) -> Stack {
        Stack {
            range: PageRange { start: spec_page_start(addr), end: self.range.end },
            usage: (self.usage + self.spec_needed_pages(addr)) as u64,
        }
    }

    /// Whether a fault at `addr` is resolved, given what came of mapping
    /// the pages of [`Stack::spec_grow_plan`].
    pub open spec fn spec_resolves(&self, addr: u64, mapped: Result<(), MapError>) -> bool {
        self.spec_is_on_stack(addr) && (addr < self.range.start ==> mapped is Ok)
    }

    /// The stack after a fault at `addr`.
    pub open spec fn spec_after_fault(&self, addr: u64, mapped: Result<(), MapError>) -> Stack {
        if self.spec_is_on_stack(addr) && addr < self.range.start && mapped is Ok {
            self.spec_grown(addr)
        } else {
            *self
        }
    }

    /// A stack of `size` pages whose highest page is the one that holds `top`.
    pub fn new(top: u64, size: u64) -> (stack: Stack)
        requires
            1 <= size,
            (size - 1) * PAGE_SIZE <= spec_page_start(top) - spec_slot_base(top),
            spec_page_start(top) + PAGE_SIZE <= u64::MAX,
        ensures
            stack.wf(),
            stack.usage == size,
            stack.range.end == spec_page_start(top) + PAGE_SIZE,
            stack.range.start == spec_page_start(top) - (size - 1) * PAGE_SIZE,
            stack.spec_is_on_stack(top),
    {
        let top_page: u64 = page_start(top);
        let base: u64 = slot_base(top);
        proof {
            lemma_slot_and_page(top);
        }
        let below: u64 = (size - 1) * PAGE_SIZE;
        let start: u64 = top_page - below;
        let end: u64 = top_page + PAGE_SIZE;
        proof {
            lemma_same_slot(start, base);
        }
        Stack { range: PageRange { start, end }, usage: size }
    }

    /// A stack without pages, at the top of the highest user slot.
    pub open spec fn spec_empty() -> Stack {
        Stack { range: PageRange { start: STACK_INIT_BOT, end: STACK_INIT_BOT }, usage: 0 }
    }

    /// The stack that the kernel runs on when it starts.
    pub open spec fn spec_kstack() -> Stack {
        Stack {
            range: PageRange { start: KSTACK_INIT_BOT, end: spec_page_start(KSTACK_INIT_TOP) },
            usage: KSTACK_DEF_PAGE,
        }
    }

    /// A stack without pages, at the top of the highest user slot.
    pub fn empty() -> (stack: Stack)
        ensures
            stack.wf(),
            stack == Self::spec_empty(),
    {
        Stack { range: PageRange { start: STACK_INIT_BOT, end: STACK_INIT_BOT }, usage: 0 }
    }

    /// The stack that the kernel runs on when it starts.
    pub fn kstack() -> (stack: Stack)
        ensures
            stack.wf(),
            stack == Self::spec_kstack(),
    {
        Stack {
            range: PageRange { start: KSTACK_INIT_BOT, end: page_start(KSTACK_INIT_TOP) },
            usage: KSTACK_DEF_PAGE,
        }
    }

    /// The pages that have to be mapped before [`Stack::init`].
    pub fn init_plan() -> (run: PageRun)
        ensures
            run == (PageRun { start: STACK_INIT_BOT, count: STACK_DEF_PAGE }),
    {
        PageRun { start: STACK_INIT_BOT, count: STACK_DEF_PAGE }
    }

    /// Takes the first page of a user stack, which the caller has mapped.
    pub fn init(&mut self)
        ensures
            final(self).wf(),
            final(self).usage == STACK_DEF_PAGE,
            final(self).range == (PageRange {
                start: STACK_INIT_BOT,
                end: (STACK_INIT_BOT + PAGE_SIZE) as u64,
            }),
    {
        self.range = PageRange { start: STACK_INIT_BOT, end: STACK_INIT_BOT + PAGE_SIZE };
        self.usage = STACK_DEF_PAGE;
    }

    /// Whether `addr` lies in the slot of this stack.
    pub fn is_on_stack(&self, addr: u64) -> (on: bool)
        ensures
            on == self.spec_is_on_stack(addr),
    {
        let cur_stack_bot: u64 = self.range.start;
        slot_base(addr) == slot_base(cur_stack_bot)
    }

    /// The pages that the caller has to map before it reports a fault at
    /// `addr` to [`Stack::handle_page_fault`]; `None` where there are none.
    pub fn grow_plan(&self, addr: u64) -> (plan: Option<PageRun>)
        requires
            self.wf(),
        ensures
            plan == self.spec_grow_plan(addr),
            plan matches Some(run) ==> {
                &&& run.count >= 1
                &&& run.start <= addr < run.start + PAGE_SIZE
                &&& run.start + run.count * PAGE_SIZE == self.range.start
                &&& spec_slot_base(run.start) == spec_slot_base(self.range.start)
            },
    {
        if !self.is_on_stack(addr) {
            return None;
        }
        let cur_stack_bot: u64 = self.range.start;
        if addr < cur_stack_bot {
            proof {
                lemma_page_below(cur_stack_bot, addr);
            }
            let delta: u64 = cur_stack_bot - addr;
            let needed_pages: u64 = (delta - 1) / PAGE_SIZE + 1;
            let new_stack_bot: u64 = cur_stack_bot - needed_pages * PAGE_SIZE;
            Some(PageRun { start: new_stack_bot, count: needed_pages })
        } else {
            None
        }
    }

    /// Extends the stack downwards to the page of `addr`.
    ///
    /// `mapped` says what came of mapping the pages of
    /// [`Stack::grow_plan`]. Where `addr` is below the bottom and they
    /// were mapped, the bottom moves to the page of `addr` and the usage
    /// grows by the number of pages added. Where they were not, the error
    /// is returned and the stack stays as it was. Where `addr` is not below
    /// the bottom nothing is to be done.
    pub fn grow_stack(&mut self, addr: u64, mapped: Result<(), MapError>) -> (res: Result<
        (),
        MapError,
    >)
        requires
            old(self).wf(),
            old(self).spec_is_on_stack(addr),
        ensures
            final(self).wf(),
            addr >= old(self).range.start ==> res is Ok && *final(self) == *old(self),
            addr < old(self).range.start ==> res == mapped,
            addr < old(self).range.start && mapped is Ok ==> *final(self) == old(self).spec_grown(
                addr,
            ),
            addr < old(self).range.start && mapped is Err ==> *final(self) == *old(self),
    {
        let cur_stack_bot: u64 = self.range.start;
        if addr < cur_stack_bot {
            if mapped.is_err() {
                return mapped;
            }
            proof {
                lemma_page_below(cur_stack_bot, addr);
            }
            let delta: u64 = cur_stack_bot - addr;
            let needed_pages: u64 = (delta - 1) / PAGE_SIZE + 1;
            let new_stack_bot: u64 = cur_stack_bot - needed_pages * PAGE_SIZE;
            self.range.start = new_stack_bot;
            self.usage = self.usage + needed_pages;
            return mapped;
        }
        Ok(())
    }

    /// Handles a page fault at `addr`; the result says whether it is resolved.
    ///
    /// A fault outside the slot of the stack is not resolved. A fault in
    /// the slot and below the bottom is resolved by growing the stack by
    /// exactly the pages from the page of `addr` up to the old bottom,
    /// provided that the caller could map them (`mapped`). A fault in the
    /// slot that is not below the bottom is resolved with nothing done.
    pub fn handle_page_fault(&mut self, addr: u64, mapped: Result<(), MapError>) -> (resolved:
        bool)
        requires
            old(self).wf(),
        ensures
            final(self).wf(),
            resolved == old(self).spec_resolves(addr, mapped),
            *final(self) == old(self).spec_after_fault(addr, mapped),
    {
        if !self.is_on_stack(addr) {
            return false;
        }
        match self.grow_stack(addr, mapped) {
            Ok(()) => true,
            Err(_) => false,
        }
    }

    /// The memory that the stack uses, in bytes.
    pub fn memory_usage(&self) -> (bytes: u64)
        requires
            self.wf(),
        ensures
            bytes == self.usage * PAGE_SIZE,
    {
        assert(self.usage * PAGE_SIZE <= STACK_MAX_SIZE);
        self.usage * PAGE_SIZE
    }

    /// The pages of the stack.
    pub fn range(&self) -> (range: &PageRange)
        ensures
            *range == self.range,
    {
        &self.range
    }

    /// The bottom of the stack of a child: `slots` slots below this stack.
    pub open spec fn spec_fork_bottom(&self, slots: int) -> int {
        self.range.start - slots * STACK_MAX_SIZE
    }

    /// The pages that a forked child's stack would take in its
    /// `attempt`-th try.
    ///
    /// The first try is `stack_offset_count` slots below this stack, each
    /// further one a slot lower. `None` where the address space ends above
    /// that slot.
    pub fn fork_plan(&self, stack_offset_count: u64, attempt: u64) -> (plan: Option<PageRun>)
        requires
            self.wf(),
        ensures
            self.spec_fork_bottom(stack_offset_count + attempt) >= 0 ==> plan == Some(
                PageRun {
                    start: self.spec_fork_bottom(stack_offset_count + attempt) as u64,
                    count: self.usage,
                },
            ),
            self.spec_fork_bottom(stack_offset_count + attempt) < 0 ==> plan is None,
    {
        match self.fork_bottom(stack_offset_count, attempt) {
            Some(start) => Some(PageRun { start, count: self.usage }),
            None => None,
        }
    }

    /// The bottom of the stack of a child in its `attempt`-th try.
    fn fork_bottom(&self, stack_offset_count: u64, attempt: u64) -> (bottom: Option<u64>)
        ensures
            self.spec_fork_bottom(stack_offset_count + attempt) >= 0 ==> bottom == Some(
                self.spec_fork_bottom(stack_offset_count + attempt) as u64,
            ),
            self.spec_fork_bottom(stack_offset_count + attempt) < 0 ==> bottom is None,
    {
        let slots: u64 = match stack_offset_count.checked_add(attempt) {
            Some(n) => n,
            None => {
                assert((stack_offset_count + attempt) * STACK_MAX_SIZE > u64::MAX)
                    by (nonlinear_arith)
                    requires
                        stack_offset_count + attempt > u64::MAX,
                ;
                return None;
            },
        };
        if slots > self.range.start / STACK_MAX_SIZE {
            assert(slots * STACK_MAX_SIZE > self.range.start) by (nonlinear_arith)
                requires
                    slots >= self.range.start / 0x1_0000_0000 + 1,
                    STACK_MAX_SIZE == 0x1_0000_0000,
            ;
            return None;
        }
        assert(slots * STACK_MAX_SIZE <= self.range.start) by (nonlinear_arith)
            requires
                slots <= self.range.start / 0x1_0000_0000,
                STACK_MAX_SIZE == 0x1_0000_0000,
        ;
        Some(self.range.start - slots * STACK_MAX_SIZE)
    }

    /// The stack of a forked child.
    ///
    /// `failed` counts the tries of [`Stack::fork_plan`] whose pages could
    /// not be mapped before those of try `failed` could. The child's stack
    /// has as many pages as this one and lies `stack_offset_count + failed`
    /// slots below it. `None` where the address space ends above that slot.
    pub fn fork(&self, stack_offset_count: u64, failed: u64) -> (child: Option<Stack>)
        requires
            self.wf(),
        ensures
            self.spec_fork_bottom(stack_offset_count + failed) < 0 ==> child is None,
            self.spec_fork_bottom(stack_offset_count + failed) >= 0 ==> child == Some(
                Stack {
                    range: PageRange {
                        start: self.spec_fork_bottom(stack_offset_count + failed) as u64,
                        end: (self.spec_fork_bottom(stack_offset_count + failed) + self.usage
                            * PAGE_SIZE) as u64,
                    },
                    usage: self.usage,
                },
            ),
            child matches Some(c) ==> c.wf() && self.range.start - c.range.start == (
            stack_offset_count + failed) * STACK_MAX_SIZE,
    {
        match self.fork_bottom(stack_offset_count, failed) {
            Some(start) => {
                assert(self.usage * PAGE_SIZE <= STACK_MAX_SIZE);
                let ghost slots = stack_offset_count + failed;
                assert(start % PAGE_SIZE == 0 && spec_slot_base(start) + (self.range.start
                    - spec_slot_base(self.range.start)) == start) by {
                    assert((self.range.start - slots * 0x1_0000_0000) % 0x1_0000_0000
                        == self.range.start % 0x1_0000_0000) by (nonlinear_arith)
                        requires
                            self.range.start - slots * 0x1_0000_0000 >= 0,
                            slots >= 0,
                    ;
                    assert((self.range.start - slots * 0x1_0000_0000) % 0x1000
                        == self.range.start % 0x1000) by (nonlinear_arith)
                        requires
                            self.range.start - slots * 0x1_0000_0000 >= 0,
                            slots >= 0,
                    ;
                }
                let size: u64 = self.usage * PAGE_SIZE;
                Some(Stack { range: PageRange { start, end: start + size }, usage: self.usage })
            },
            None => None,
        }
    }

    /// What has to be copied so that a child's stack at `dest` holds what
    /// this stack holds: all its pages, in words of eight bytes.
    pub fn clone_range(&self, dest: u64) -> (copy: CopyRange)
        requires
            self.wf(),
        ensures
            copy.src == self.range.start,
            copy.dest == dest,
            copy.words == self.usage * (PAGE_SIZE / 8),
    {
        assert(self.usage * PAGE_SIZE <= STACK_MAX_SIZE);
        CopyRange { src: self.range.start, dest, words: self.usage * (PAGE_SIZE / 8) }
    }

    /// Gives the stack up: the result names the pages that the caller has
    /// to unmap, `None` where the stack has none.
    pub fn clean_up(&mut self) -> (run: Option<PageRun>)
        requires
            old(self).wf(),
        ensures
            final(self).wf(),
            final(self).usage == 0,
            final(self).range == old(self).range,
            old(self).usage == 0 ==> run is None,
            old(self).usage != 0 ==> run == Some(
                PageRun { start: old(self).range.start, count: old(self).usage },
            ),
    {
        if self.usage == 0 {
            return None;
        }
        let run = PageRun { start: self.range.start, count: self.usage };
        self.usage = 0;
        Some(run)
    }
}

} // verus!
