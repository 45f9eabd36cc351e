//! The heap of a process: the bytes from a fixed base up to an end that
//! the process moves with `brk`.

use vstd::prelude::*;
use super::{PageRun, PAGE_SIZE, is_page_aligned, page_start, spec_page_start};

verus! {

/// The base of every user heap.
pub const HEAP_START: u64 = 0x2000_0000_0000;

/// The number of pages that a heap may reach.
pub const HEAP_PAGES: u64 = 0x10_0000;

/// The number of bytes that a heap may reach.
pub const HEAP_SIZE: u64 = 0x1_0000_0000;

/// The last address at which eight bytes still lie inside the largest heap.
pub const HEAP_END: u64 = 0x2000_ffff_fff8;

/// What the caller has to do to the page table before a call of [`Heap::brk`].
#[derive(Clone, Copy, Debug, PartialEq, Eq, Structural)]
pub enum BrkPlan {
    /// Nothing: the call maps and unmaps no page.
    Nothing,
    /// Map these pages.
    Grow(PageRun),
    /// Unmap these pages.
    Shrink(PageRun),
}

/// The number of pages that a heap from `base` to `end` has mapped.
///
/// A heap that holds nothing has none. Any other has the pages from the one
/// that holds `base` up to and with the one that holds `end`.
pub open spec fn spec_mapped_pages(base: u64, end: u64) -> int {
    if end <= base {
        0
    } else {
        (spec_page_start(end) - spec_page_start(base)) / (PAGE_SIZE as int) + 1
    }
}

/// Whether a heap at `base` may end at `addr`.
pub open spec fn spec_in_window(base: u64, addr: u64) -> bool {
    base <= addr < base + HEAP_SIZE
}

/// The heap of one process.
///
/// The processes of a fork family have one heap between them: the process
/// table copies a new end to every one of them.
#[derive(Clone, Copy, Debug, PartialEq, Eq, Structural)]
pub struct Heap {
    /// Where the heap starts. It never changes.
    pub base: u64,
    /// Where the heap ends: the first address above it.
    pub end: u64,
}

impl Heap {
    /// The base is the start of a page, the end lies in the window of the
    /// base, and the window and the page above it in the address space.
    pub open spec fn wf(&self) -> bool {
        &&& is_page_aligned(self.base)
        &&& spec_in_window(self.base, self.end)
        &&& self.base + HEAP_SIZE + PAGE_SIZE <= u64::MAX
    }

    /// The number of pages that are mapped for the heap.
    pub open spec fn spec_pages(&self) -> int {
        spec_mapped_pages(self.base, self.end)
    }

    /// The page above the pages that are mapped for the heap.
    pub open spec fn spec_top(&self) -> int {
        spec_page_start(self.base) + self.spec_pages() * PAGE_SIZE
    }

    /// The pages that a request has mapped or unmapped before it is granted.
    pub open spec fn spec_brk_plan(&self, new_end: Option<u64>) -> BrkPlan {
        match new_end {
            None => BrkPlan::Nothing,
            Some(addr) => {
                let now = self.spec_pages();
                let then = spec_mapped_pages(self.base, addr);
                if !spec_in_window(self.base, addr) || now == then {
                    BrkPlan::Nothing
                } else if now < then {
                    BrkPlan::Grow(
                        PageRun { start: self.spec_top() as u64, count: (then - now) as u64 },
                    )
                } else {
                    BrkPlan::Shrink(
                        PageRun {
                            start: (spec_page_start(self.base) + then * PAGE_SIZE) as u64,
                            count: (now - then) as u64,
                        },
                    )
                }
            },
        }
    }

    /// Whether a request moves the end: it names an address in the window,
    /// and the pages of the plan, where there are any, were dealt with.
    pub open spec fn spec_brk_moves(&self, new_end: Option<u64>, done: bool) -> bool {
        new_end matches Some(addr) && spec_in_window(self.base, addr) && (done
            || self.spec_brk_plan(new_end) == BrkPlan::Nothing)
    }

    /// What a request returns.
    pub open spec fn spec_brk_result(&self, new_end: Option<u64>, done: bool) -> Option<u64> {
        match new_end {
            None => Some(self.end),
            Some(addr) => if self.spec_brk_moves(new_end, done) {
                Some(addr)
            } else {
                None
            },
        }
    }

    /// The heap after a request.
    pub open spec fn spec_brk_heap(&self, new_end: Option<u64>, done: bool) -> Heap {
        if self.spec_brk_moves(new_end, done) {
            Heap { base: self.base, end: new_end->0 }
        } else {
            *self
        }
    }

    /// A heap that holds nothing.
    pub open spec fn spec_empty() -> Heap {
        Heap { base: HEAP_START, end: HEAP_START }
    }

    /// A heap that holds nothing.
    pub fn empty() -> (heap: Heap)
        ensures
            heap.wf(),
            heap == Self::spec_empty(),
    {
        Heap { base: HEAP_START, end: HEAP_START }
    }

    /// The heap of a forked child: the same base and the same end.
    pub fn fork(&self) -> (heap: Heap)
        ensures
            heap == *self,
    {
        Heap { base: self.base, end: self.end }
    }

    /// The number of pages that a heap from the base to `end` has mapped.
    fn mapped_pages(&self, end: u64) -> (pages: u64)
        requires
            self.wf(),
            spec_in_window(self.base, end),
        ensures
            pages == spec_mapped_pages(self.base, end),
            pages <= HEAP_PAGES,
            spec_page_start(self.base) + pages * PAGE_SIZE <= u64::MAX,
    {
        if end == self.base {
            0
        } else {
            (page_start(end) - page_start(self.base)) / PAGE_SIZE + 1
        }
    }

    /// The pages that the caller has to map or unmap before it makes the
    /// same request of [`Heap::brk`].
    ///
    /// Growing asks for the pages that the new end adds to those mapped,
    /// shrinking for those that it leaves out. A request for the present
    /// end, one outside the window and one that stays within the mapped
    /// pages ask for nothing.
    pub fn brk_plan(&self, new_end: Option<u64>) -> (plan: BrkPlan)
        requires
            self.wf(),
        ensures
            plan == self.spec_brk_plan(new_end),
            plan matches BrkPlan::Grow(run) ==> run.count >= 1 && new_end->0 > self.end,
            plan matches BrkPlan::Shrink(run) ==> run.count >= 1 && new_end->0 < self.end,
    {
        let addr: u64 = match new_end {
            Some(addr) => addr,
            None => {
                return BrkPlan::Nothing;
            },
        };
        if addr < self.base || addr - self.base >= HEAP_SIZE {
            return BrkPlan::Nothing;
        }
        let now: u64 = self.mapped_pages(self.end);
        let then: u64 = self.mapped_pages(addr);
        let first: u64 = page_start(self.base);
        if now < then {
            BrkPlan::Grow(PageRun { start: first + now * PAGE_SIZE, count: then - now })
        } else if then < now {
            BrkPlan::Shrink(PageRun { start: first + then * PAGE_SIZE, count: now - then })
        } else {
            BrkPlan::Nothing
        }
    }

    /// Reads or moves the end of the heap.
    ///
    /// Without an address the call returns the present end. An address
    /// below the base, or at or above the base plus [`HEAP_SIZE`], is
    /// refused: the call returns `None` and the end stays. A request for the
    /// present end returns it and changes nothing. Any other address in the
    /// window becomes the end and is returned, provided that the pages of
    /// [`Heap::brk_plan`] were mapped or unmapped (`done`); where they were
    /// not, the call returns `None` and the end stays.
    pub fn brk(&mut self, new_end: Option<u64>, done: bool) -> (res: Option<u64>)
        requires
            old(self).wf(),
        ensures
            final(self).wf(),
            res == old(self).spec_brk_result(new_end, done),
            *final(self) == old(self).spec_brk_heap(new_end, done),
            new_end is None ==> res == Some(old(self).end) && *final(self) == *old(self),
            new_end matches Some(addr) && !spec_in_window(old(self).base, addr) ==> res is None
                && *final(self) == *old(self),
            new_end == Some(old(self).end) ==> res == new_end && *final(self) == *old(self),
    {
        let addr: u64 = match new_end {
            Some(addr) => addr,
            None => {
                return Some(self.end);
            },
        };
        if addr < self.base || addr - self.base >= HEAP_SIZE {
            return None;
        }
        let current_end: u64 = self.end;
        if addr == current_end {
            return Some(current_end);
        }
        if !done {
            let now: u64 = self.mapped_pages(current_end);
            let then: u64 = self.mapped_pages(addr);
            if now != then {
                return None;
            }
        }
        self.end = addr;
        Some(addr)
    }

    /// Gives the heap up: the end returns to the base, and the result names
    /// the pages that the caller has to unmap. A heap that holds nothing is
    /// left alone.
    pub fn clean_up(&mut self) -> (run: Option<PageRun>)
        requires
            old(self).wf(),
        ensures
            final(self).wf(),
            final(self).base == old(self).base,
            final(self).end == old(self).base,
            old(self).end == old(self).base ==> run is None,
            old(self).end != old(self).base ==> run == Some(
                PageRun {
                    start: spec_page_start(old(self).base),
                    count: old(self).spec_pages() as u64,
                },
            ),
    {
        if self.memory_usage() == 0 {
            return None;
        }
        let count: u64 = self.mapped_pages(self.end);
        self.end = self.base;
        Some(PageRun { start: page_start(self.base), count })
    }

    /// The memory that the heap uses, in bytes.
    pub fn memory_usage(&self) -> (bytes: u64)
        requires
            self.wf(),
        ensures
            bytes == self.end - self.base,
            bytes < HEAP_SIZE,
    {
        self.end - self.base
    }
}

/// A heap that grows and then shrinks back to the end it had is the heap it
/// was, with as many pages mapped, and the pages that the second request
/// unmaps are those that the first one mapped.
pub proof fn lemma_brk_grow_then_shrink(heap: Heap, addr: u64)
    requires
        heap.wf(),
        spec_in_window(heap.base, addr),
        heap.end < addr,
    ensures
        ({
            let grown = heap.spec_brk_heap(Some(addr), true);
            let back = grown.spec_brk_heap(Some(heap.end), true);
            &&& grown.end == addr
            &&& back == heap
            &&& back.spec_pages() == heap.spec_pages()
            &&& heap.spec_brk_plan(Some(addr)) matches BrkPlan::Grow(run) ==> grown.spec_brk_plan(
                Some(heap.end),
            ) == BrkPlan::Shrink(run)
            &&& heap.spec_brk_plan(Some(addr)) == BrkPlan::Nothing ==> grown.spec_brk_plan(
                Some(heap.end),
            ) == BrkPlan::Nothing
        }),
{
}

/// The pages of a plan are those between the pages mapped before the
/// request and the pages mapped after it.
pub proof fn lemma_brk_plan_pages(heap: Heap, addr: u64)
    requires
        heap.wf(),
        spec_in_window(heap.base, addr),
    ensures
        ({
            let after = heap.spec_brk_heap(Some(addr), true);
            match heap.spec_brk_plan(Some(addr)) {
                BrkPlan::Nothing => after.spec_pages() == heap.spec_pages(),
                BrkPlan::Grow(run) => run.start == heap.spec_top() && after.spec_pages()
                    == heap.spec_pages() + run.count,
                BrkPlan::Shrink(run) => run.start == after.spec_top() && after.spec_pages()
                    + run.count == heap.spec_pages(),
            }
        }),
{
}

} // verus!
