//! A process: its identity and everything the kernel keeps of it.

use vstd::prelude::*;
use super::ProgramStatus;
use super::context::ProcessContext;
use super::data::ProcessData;
use super::paging::PageTableContext;
use super::pid::ProcessId;
use super::vm::heap::BrkPlan;
use super::vm::{CleanUp, MapError, PageRun, ProcessVm, PAGE_SIZE};

verus! {

/// The lower-case form of `c` where it is one of the letters `A` to `Z`,
/// else `c`.
pub open spec fn spec_ascii_lower(c: char) -> char {
    if 'A' <= c <= 'Z' {
        ((c as u32) + 32) as char
    } else {
        c
    }
}

/// `String::to_ascii_lowercase` of std: a copy of `s` in which each of the
/// letters `A` to `Z` is replaced by its lower-case form and every other
/// character is kept.
#[verifier::external_body]
fn ascii_lowercase(s: &String) -> (lower: String)
    ensures
        lower@ == s@.map_values(|c: char| spec_ascii_lower(c)),
{
    s.to_ascii_lowercase()
}

/// What the kernel keeps of a process.
pub struct ProcessInner {
    /// The name, in lower case.
    pub name: String,
    /// The process that made this one.
    pub parent: Option<ProcessId>,
    /// The processes that this one has forked.
    pub children: Vec<ProcessId>,
    /// The number of times the process was taken off the processor.
    pub ticks_passed: usize,
    pub status: ProgramStatus,
    /// The registers of the process while it does not run.
    pub context: ProcessContext,
    /// The value the process ended with.
    pub exit_code: Option<isize>,
    pub proc_data: Option<ProcessData>,
    pub page_table: Option<PageTableContext>,
    pub proc_vm: Option<ProcessVm>,
}

/// A process: an identifier and what is kept under it.
pub struct Process {
    pub pid: ProcessId,
    pub inner: ProcessInner,
}

impl ProcessInner {
    /// A process that is not dead has its data, its page table and its
    /// address space, and no exit code. A dead one has an exit code and
    /// none of the others.
    pub open spec fn wf(&self) -> bool {
        &&& self.status != ProgramStatus::Dead ==> {
            &&& self.proc_data is Some
            &&& self.page_table is Some
            &&& self.proc_vm is Some
            &&& self.exit_code is None
        }
        &&& self.status == ProgramStatus::Dead ==> {
            &&& self.proc_data is None
            &&& self.page_table is None
            &&& self.proc_vm is None
            &&& self.exit_code is Some
        }
        &&& self.proc_vm matches Some(vm) ==> vm.wf()
    }

    /// Whether the process is not dead.
    pub open spec fn alive(&self) -> bool {
        self.status != ProgramStatus::Dead
    }

    /// This process with the status `status`, unless it is dead: a dead
    /// process stays dead.
    pub open spec fn spec_with_status(self, status: ProgramStatus) -> ProcessInner {
        if self.status == ProgramStatus::Dead {
            self
        } else {
            ProcessInner { status, ..self }
        }
    }

    /// This process with one more tick. The counter starts again at zero
    /// when it has reached the largest number it can hold.
    pub open spec fn spec_ticked(self) -> ProcessInner {
        ProcessInner {
            ticks_passed: if self.ticks_passed == usize::MAX {
                0
            } else {
                (self.ticks_passed + 1) as usize
            },
            ..self
        }
    }

    /// This process with the registers `context`, ready unless it is dead.
    pub open spec fn spec_saved(self, context: ProcessContext) -> ProcessInner {
        (ProcessInner { context, ..self }).spec_with_status(ProgramStatus::Ready)
    }

    /// This process with `value` in the saved register that carries the
    /// result of a system call.
    pub open spec fn spec_with_rax(self, value: usize) -> ProcessInner {
        ProcessInner { context: self.context.spec_with_rax(value), ..self }
    }

    /// This process after it was woken: ready, and with `ret`, where one
    /// is given, in the saved register for the result of a system call.
    pub open spec fn spec_woken(self, ret: Option<isize>) -> ProcessInner {
        match ret {
            Some(ret) => self.spec_with_rax(ret as usize).spec_with_status(ProgramStatus::Ready),
            None => self.spec_with_status(ProgramStatus::Ready),
        }
    }

    /// This process after it was ended with the exit code `ret`: dead, and
    /// without its data, its page table and its address space.
    pub open spec fn spec_killed(self, ret: isize) -> ProcessInner {
        ProcessInner {
            status: ProgramStatus::Dead,
            exit_code: Some(ret),
            proc_data: None,
            page_table: None,
            proc_vm: None,
            ..self
        }
    }

    /// This process with the heap `heap`; a dead process has none and
    /// stays as it is.
    pub open spec fn spec_with_heap(self, heap: super::vm::heap::Heap) -> ProcessInner {
        match self.proc_vm {
            Some(vm) => ProcessInner { proc_vm: Some(ProcessVm { heap, ..vm }), ..self },
            None => self,
        }
    }

    /// Takes `heap` as the heap of the process: the one that another
    /// process of its family has moved. A dead process stays as it is.
    pub fn share_heap(&mut self, heap: super::vm::heap::Heap)
        requires
            old(self).wf(),
            heap.wf(),
        ensures
            final(self).wf(),
            *final(self) == old(self).spec_with_heap(heap),
    {
        match self.proc_vm.take() {
            Some(vm) => {
                let mut vm = vm;
                vm.heap = heap;
                self.proc_vm = Some(vm);
            },
            None => {},
        }
    }

    pub fn name(&self) -> (name: &str)
        ensures
            name@ == self.name@,
    {
        self.name.as_str()
    }

    /// Counts one more tick. The counter starts again at zero when it has
    /// reached the largest number it can hold.
    pub fn tick(&mut self)
        ensures
            *final(self) == old(self).spec_ticked(),
    {
        self.ticks_passed = self.ticks_passed.wrapping_add(1);
    }

    pub fn status(&self) -> (status: ProgramStatus)
        ensures
            status == self.status,
    {
        self.status
    }

    /// Marks the process as ready to run, unless it is dead.
    pub fn pause(&mut self)
        ensures
            *final(self) == old(self).spec_with_status(ProgramStatus::Ready),
    {
        if self.status != ProgramStatus::Dead {
            self.status = ProgramStatus::Ready;
        }
    }

    /// Marks the process as running, unless it is dead.
    pub fn resume(&mut self)
        ensures
            *final(self) == old(self).spec_with_status(ProgramStatus::Running),
    {
        if self.status != ProgramStatus::Dead {
            self.status = ProgramStatus::Running;
        }
    }

    /// Marks the process as blocked, unless it is dead.
    pub fn block(&mut self)
        ensures
            *final(self) == old(self).spec_with_status(ProgramStatus::Blocked),
    {
        if self.status != ProgramStatus::Dead {
            self.status = ProgramStatus::Blocked;
        }
    }

    pub fn exit_code(&self) -> (code: Option<isize>)
        ensures
            code == self.exit_code,
    {
        self.exit_code
    }

    /// One more handle to the page table of the process.
    pub fn clone_page_table(&self) -> (table: PageTableContext)
        requires
            self.page_table is Some,
        ensures
            Some(table) == self.page_table,
    {
        match &self.page_table {
            Some(table) => table.fork(),
            None => PageTableContext::new(0),
        }
    }

    pub fn is_ready(&self) -> (ready: bool)
        ensures
            ready == (self.status == ProgramStatus::Ready),
    {
        self.status == ProgramStatus::Ready
    }

    /// The address space of the process.
    pub fn vm(&self) -> (vm: &ProcessVm)
        requires
            self.proc_vm is Some,
        ensures
            Some(*vm) == self.proc_vm,
    {
        self.proc_vm.as_ref().unwrap()
    }

    /// The pages that the caller has to map before it reports a fault at
    /// `addr` to [`ProcessInner::handle_page_fault`]. A dead process asks
    /// for none.
    pub fn page_fault_plan(&self, addr: u64) -> (plan: Option<PageRun>)
        requires
            self.wf(),
        ensures
            plan == (match self.proc_vm {
                Some(vm) => vm.stack.spec_grow_plan(addr),
                None => None,
            }),
    {
        match &self.proc_vm {
            Some(vm) => vm.page_fault_plan(addr),
            None => None,
        }
    }

    /// Handles a page fault at `addr`, as [`ProcessVm::handle_page_fault`]
    /// does. A fault of a dead process is not resolved.
    pub fn handle_page_fault(&mut self, addr: u64, mapped: Result<(), MapError>) -> (resolved:
        bool)
        requires
            old(self).wf(),
        ensures
            final(self).wf(),
            old(self).proc_vm is None ==> !resolved && *final(self) == *old(self),
            old(self).proc_vm matches Some(vm) ==> {
                &&& resolved == vm.stack.spec_resolves(addr, mapped)
                &&& final(self).proc_vm matches Some(after)
                &&& after.stack == vm.stack.spec_after_fault(addr, mapped)
                &&& after.heap == vm.heap
                &&& after.page_table == vm.page_table
                &&& after.code == vm.code
                &&& after.code_usage == vm.code_usage
            },
            final(self).name == old(self).name,
            final(self).parent == old(self).parent,
            final(self).children == old(self).children,
            final(self).ticks_passed == old(self).ticks_passed,
            final(self).status == old(self).status,
            final(self).context == old(self).context,
            final(self).exit_code == old(self).exit_code,
            final(self).proc_data == old(self).proc_data,
            final(self).page_table == old(self).page_table,
    {
        match self.proc_vm.take() {
            Some(vm) => {
                let mut vm = vm;
                let resolved = vm.handle_page_fault(addr, mapped);
                self.proc_vm = Some(vm);
                resolved
            },
            None => false,
        }
    }

    /// Takes the registers of `context` as those of the process and marks
    /// it as ready, unless it is dead.
    pub fn save(&mut self, context: &ProcessContext)
        ensures
            *final(self) == old(self).spec_saved(*context),
    {
        self.context.save(context);
        if self.status != ProgramStatus::Dead {
            self.status = ProgramStatus::Ready;
        }
    }

    /// Writes the registers of the process to `context` and marks it as
    /// running, unless it is dead. The caller loads its page table.
    pub fn restore(&mut self, context: &mut ProcessContext)
        ensures
            *final(context) == old(self).context,
            *final(self) == old(self).spec_with_status(ProgramStatus::Running),
    {
        self.context.restore(context);
        if self.status != ProgramStatus::Dead {
            self.status = ProgramStatus::Running;
        }
    }

    /// The process that made this one.
    pub fn parent(&self) -> (parent: Option<ProcessId>)
        ensures
            parent == self.parent,
    {
        self.parent
    }

    /// Ends the process with the exit code `ret`.
    ///
    /// The process becomes dead and gives up its data, its page table and
    /// its address space; the result names what the caller has to unmap
    /// and free, as [`ProcessVm::clean_up`] decides it from `using_count`.
    /// A dead process stays as it is, with the exit code it has.
    pub fn kill(&mut self, ret: isize, using_count: usize) -> (freed: Option<CleanUp>)
        requires
            old(self).wf(),
        ensures
            final(self).wf(),
            final(self).status == ProgramStatus::Dead,
            final(self).name == old(self).name,
            final(self).parent == old(self).parent,
            final(self).children == old(self).children,
            final(self).ticks_passed == old(self).ticks_passed,
            final(self).context == old(self).context,
            !old(self).alive() ==> freed is None && *final(self) == *old(self),
            old(self).alive() ==> *final(self) == old(self).spec_killed(ret),
            old(self).alive() ==> freed is Some,
            old(self).alive() ==> spec_clean_up_of(old(self).proc_vm->0, using_count, freed->0),
    {
        match self.proc_vm.take() {
            Some(vm) => {
                let mut vm = vm;
                let freed = vm.clean_up(using_count);
                self.exit_code = Some(ret);
                self.status = ProgramStatus::Dead;
                self.page_table = None;
                self.proc_data = None;
                Some(freed)
            },
            None => None,
        }
    }

    pub fn init_stack_frame(&mut self, entry: u64, stack_top: u64)
        ensures
            *final(self) == (ProcessInner {
                context: old(self).context.spec_with_frame(entry, stack_top),
                ..*old(self)
            }),
    {
        self.context.init_stack_frame(entry, stack_top);
    }

    pub fn init_user_stack_frame(&mut self, entry: u64, stack_top: u64)
        ensures
            *final(self) == (ProcessInner {
                context: old(self).context.spec_with_frame(entry, stack_top),
                ..*old(self)
            }),
    {
        self.context.init_user_stack_frame(entry, stack_top);
    }

    /// Takes over a program that the caller has loaded into the address
    /// space of the process, as [`ProcessVm::load_elf`] does.
    pub fn load_elf(&mut self, code: &Vec<PageRun>)
        requires
            old(self).wf(),
            old(self).alive(),
            super::vm::spec_code_fits(code@),
        ensures
            final(self).wf(),
            final(self).proc_vm matches Some(vm) && vm.code@ == code@ && vm.code_usage
                == super::vm::spec_total_pages(code@) * PAGE_SIZE && vm.stack.usage == 1
                && vm.stack.range.start == super::vm::stack::STACK_INIT_BOT && vm.heap == old(self).proc_vm->0.heap && vm.page_table == old(self).proc_vm->0.page_table,
            final(self).name == old(self).name,
            final(self).parent == old(self).parent,
            final(self).children == old(self).children,
            final(self).ticks_passed == old(self).ticks_passed,
            final(self).status == old(self).status,
            final(self).context == old(self).context,
            final(self).exit_code == old(self).exit_code,
            final(self).proc_data == old(self).proc_data,
            final(self).page_table == old(self).page_table,
    {
        match self.proc_vm.take() {
            Some(vm) => {
                let mut vm = vm;
                vm.load_elf(code);
                self.proc_vm = Some(vm);
            },
            None => {},
        }
    }

    /// The pages that a forked child's stack would take in its
    /// `attempt`-th try: the first try is as many slots below the stack of
    /// this process as it has children, each further one a slot lower.
    pub fn fork_plan(&self, attempt: u64) -> (plan: Option<PageRun>)
        requires
            self.wf(),
            self.alive(),
        ensures
            plan == spec_fork_plan(self.proc_vm->0, self.children@.len(), attempt),
    {
        let stack_offset_count: u64 = self.children.len() as u64;
        self.vm().fork_plan(stack_offset_count, attempt)
    }

    /// What is kept of a child forked from this process.
    ///
    /// The child has the name of this process, `parent` as its parent, no
    /// children and no ticks, and is ready. Its data is a copy of that of
    /// this process: the same variables in the same order. Its address
    /// space is that of
    /// [`ProcessVm::fork`], `failed` tries below the first. Its registers
    /// are those of this process, but that the register for the result of
    /// a system call holds 0, and that the stack pointer lies as far below
    /// that of this process as the child's stack lies below this one's.
    /// `None` where no slot is left for the stack.
    pub fn fork(&self, parent: Option<ProcessId>, failed: u64) -> (child: Option<ProcessInner>)
        requires
            self.wf(),
            self.alive(),
        ensures
            child is Some == (self.proc_vm->0.stack.spec_fork_bottom(
                self.children@.len() + failed,
            ) >= 0),
            child matches Some(c) ==> {
                &&& c.wf()
                &&& c.name@ == self.name@
                &&& c.parent == parent
                &&& c.children@ == Seq::<ProcessId>::empty()
                &&& c.ticks_passed == 0
                &&& c.status == ProgramStatus::Ready
                &&& c.exit_code is None
                &&& c.proc_data->0@ == self.proc_data->0@
                &&& c.page_table == Some(self.proc_vm->0.page_table)
                &&& c.context == spec_child_context(
                    self.context,
                    self.proc_vm->0.stack.range.start,
                    c.proc_vm->0.stack.range.start,
                )
                &&& c.context.regs.rax == 0
                &&& c.proc_vm->0.page_table == self.proc_vm->0.page_table
                &&& c.proc_vm->0.heap == self.proc_vm->0.heap
                &&& c.proc_vm->0.code@ == Seq::<PageRun>::empty()
                &&& c.proc_vm->0.stack.usage == self.proc_vm->0.stack.usage
                &&& c.proc_vm->0.stack.range.start == self.proc_vm->0.stack.spec_fork_bottom(
                    self.children@.len() + failed,
                )
                &&& c.proc_vm->0.stack.range.end == c.proc_vm->0.stack.range.start
                    + self.proc_vm->0.stack.usage * PAGE_SIZE
                &&& c.proc_vm->0.code_usage == 0
            },
    {
        let stack_offset_count: u64 = self.children.len() as u64;
        let child_vm = match self.vm().fork(stack_offset_count, failed) {
            Some(vm) => vm,
            None => {
                return None;
            },
        };
        let child_page_table = child_vm.page_table.fork();
        let child_stack_bot: u64 = child_vm.stack.range.start;
        let parent_stack_bot: u64 = self.vm().stack.range.start;
        let offset: u64 = child_stack_bot.wrapping_sub(parent_stack_bot);
        let mut child_ctx: ProcessContext = self.context;
        child_ctx.set_rsp_offset(offset);
        child_ctx.set_rax(0);
        let child_proc_data = match &self.proc_data {
            Some(data) => Some(data.duplicate()),
            None => None,
        };
        Some(
            ProcessInner {
                name: self.name.clone(),
                parent,
                children: Vec::new(),
                ticks_passed: 0,
                status: ProgramStatus::Ready,
                context: child_ctx,
                exit_code: None,
                proc_data: child_proc_data,
                page_table: Some(child_page_table),
                proc_vm: Some(child_vm),
            },
        )
    }

    /// Puts `value` into the saved register that carries the result of a
    /// system call.
    pub fn set_rax(&mut self, value: usize)
        ensures
            *final(self) == old(self).spec_with_rax(value),
    {
        self.context.set_rax(value);
    }

    /// The pages that the caller has to map or unmap before it makes the
    /// same request of [`ProcessInner::brk`].
    pub fn brk_plan(&self, addr: Option<u64>) -> (plan: BrkPlan)
        requires
            self.wf(),
            self.alive(),
        ensures
            plan == self.proc_vm->0.heap.spec_brk_plan(addr),
    {
        self.vm().brk_plan(addr)
    }

    /// Reads or moves the end of the heap of the process, as
    /// [`crate::proc::vm::heap::Heap::brk`] does.
    pub fn brk(&mut self, addr: Option<u64>, done: bool) -> (res: Option<u64>)
        requires
            old(self).wf(),
            old(self).alive(),
        ensures
            final(self).wf(),
            res == old(self).proc_vm->0.heap.spec_brk_result(addr, done),
            final(self).proc_vm matches Some(vm) && vm.heap == old(self).proc_vm->0.heap.spec_brk_heap(addr, done) && vm.stack == old(self).proc_vm->0.stack
                && vm.page_table == old(self).proc_vm->0.page_table && vm.code == old(self).proc_vm->0.code && vm.code_usage == old(self).proc_vm->0.code_usage,
            final(self).name == old(self).name,
            final(self).parent == old(self).parent,
            final(self).children == old(self).children,
            final(self).ticks_passed == old(self).ticks_passed,
            final(self).status == old(self).status,
            final(self).context == old(self).context,
            final(self).exit_code == old(self).exit_code,
            final(self).proc_data == old(self).proc_data,
            final(self).page_table == old(self).page_table,
    {
        match self.proc_vm.take() {
            Some(vm) => {
                let mut vm = vm;
                let res = vm.brk(addr, done);
                self.proc_vm = Some(vm);
                res
            },
            None => None,
        }
    }
}

/// The distance from `from` down to `to`, as the number that added to
/// `from` gives `to` around the end of the address space.
pub open spec fn spec_wrapping_offset(from: u64, to: u64) -> u64 {
    if to >= from {
        (to - from) as u64
    } else {
        (to - from + 0x1_0000_0000_0000_0000) as u64
    }
}

/// The registers of a child forked from a process with the registers
/// `parent`, whose stack starts at `parent_bottom` while the child's starts
/// at `child_bottom`.
pub open spec fn spec_child_context(parent: ProcessContext, parent_bottom: u64, child_bottom: u64)
    -> ProcessContext {
    parent.spec_with_rsp_offset(spec_wrapping_offset(parent_bottom, child_bottom)).spec_with_rax(0)
}

/// The plan for the stack of a child of a process with the address space
/// `vm` and `children` children, in its `attempt`-th try.
pub open spec fn spec_fork_plan(vm: ProcessVm, children: nat, attempt: u64) -> Option<PageRun> {
    if vm.stack.spec_fork_bottom(children + attempt) >= 0 {
        Some(
            PageRun {
                start: vm.stack.spec_fork_bottom(children + attempt) as u64,
                count: vm.stack.usage,
            },
        )
    } else {
        None
    }
}

/// Whether the living process `after` differs from `before` in its stack
/// alone.
pub open spec fn spec_same_but_stack(before: ProcessInner, after: ProcessInner) -> bool {
    &&& after.name == before.name
    &&& after.parent == before.parent
    &&& after.children == before.children
    &&& after.ticks_passed == before.ticks_passed
    &&& after.status == before.status
    &&& after.context == before.context
    &&& after.exit_code == before.exit_code
    &&& after.proc_data == before.proc_data
    &&& after.page_table == before.page_table
    &&& after.proc_vm is Some
    &&& after.proc_vm->0.page_table == before.proc_vm->0.page_table
    &&& after.proc_vm->0.heap == before.proc_vm->0.heap
    &&& after.proc_vm->0.code == before.proc_vm->0.code
    &&& after.proc_vm->0.code_usage == before.proc_vm->0.code_usage
}

/// Whether `freed` is what has to be unmapped and freed when the address
/// space `vm` is given up while `using_count` address spaces use its page
/// table.
pub open spec fn spec_clean_up_of(vm: ProcessVm, using_count: usize, freed: CleanUp) -> bool {
    &&& freed.stack == (if vm.stack.usage == 0 {
        None
    } else {
        Some(PageRun { start: vm.stack.range.start, count: vm.stack.usage })
    })
    &&& using_count != 1 ==> {
        &&& freed.heap is None
        &&& freed.code@ == Seq::<PageRun>::empty()
        &&& freed.page_table is None
    }
    &&& using_count == 1 ==> {
        &&& freed.heap == (if vm.heap.end == vm.heap.base {
            None
        } else {
            Some(
                PageRun {
                    start: super::vm::spec_page_start(vm.heap.base),
                    count: vm.heap.spec_pages() as u64,
                },
            )
        })
        &&& freed.code == vm.code
        &&& freed.page_table == Some(vm.page_table)
    }
}

impl Process {
    /// The process and what is kept of it are well formed.
    pub open spec fn wf(&self) -> bool {
        self.inner.wf()
    }

    pub fn pid(&self) -> (pid: ProcessId)
        ensures
            pid == self.pid,
    {
        self.pid
    }

    /// What is kept of the process, to change it.
    pub fn write(&mut self) -> (inner: &mut ProcessInner)
        ensures
            *inner == old(self).inner,
            *final(self) == (Process { pid: old(self).pid, inner: *final(inner) }),
    {
        &mut self.inner
    }

    /// What is kept of the process, to read it.
    pub fn read(&self) -> (inner: &ProcessInner)
        ensures
            *inner == self.inner,
    {
        &self.inner
    }

    /// A new process under the identifier `pid`.
    ///
    /// Its name is `name` in lower case. It is ready, has no children, no
    /// ticks and no exit code, and its registers are zero. It holds a
    /// handle to the page table of its address space, and `proc_data`, or
    /// data with nothing in it where none is given.
    pub fn new(
        pid: ProcessId,
        name: String,
        parent: Option<ProcessId>,
        proc_vm: Option<ProcessVm>,
        proc_data: Option<ProcessData>,
    ) -> (process: Process)
        requires
            proc_vm matches Some(vm) && vm.wf(),
        ensures
            process.wf(),
            process.pid == pid,
            process.inner.name@ == name@.map_values(|c: char| spec_ascii_lower(c)),
            process.inner.parent == parent,
            process.inner.children@ == Seq::<ProcessId>::empty(),
            process.inner.ticks_passed == 0,
            process.inner.status == ProgramStatus::Ready,
            process.inner.context == ProcessContext::spec_default(),
            process.inner.exit_code is None,
            process.inner.proc_vm == proc_vm,
            process.inner.page_table == Some(proc_vm->0.page_table),
            proc_data is Some ==> process.inner.proc_data == proc_data,
            proc_data is None ==> (process.inner.proc_data matches Some(data) && data.env@
                == Seq::<super::data::EnvVar>::empty()),
    {
        let name = ascii_lowercase(&name);
        let page_table = match &proc_vm {
            Some(vm) => Some(vm.page_table.fork()),
            None => None,
        };
        let data = match proc_data {
            Some(data) => data,
            None => ProcessData::new(),
        };
        let inner = ProcessInner {
            name,
            parent,
            status: ProgramStatus::Ready,
            context: ProcessContext::new(),
            ticks_passed: 0,
            exit_code: None,
            children: Vec::new(),
            proc_vm,
            page_table,
            proc_data: Some(data),
        };
        Process { pid, inner }
    }

    /// Ends the process with the exit code `ret`, as [`ProcessInner::kill`]
    /// does.
    pub fn kill(&mut self, ret: isize, using_count: usize) -> (freed: Option<CleanUp>)
        requires
            old(self).wf(),
        ensures
            final(self).wf(),
            final(self).pid == old(self).pid,
            final(self).inner.status == ProgramStatus::Dead,
            final(self).inner.name == old(self).inner.name,
            final(self).inner.parent == old(self).inner.parent,
            final(self).inner.children == old(self).inner.children,
            final(self).inner.ticks_passed == old(self).inner.ticks_passed,
            final(self).inner.context == old(self).inner.context,
            !old(self).inner.alive() ==> freed is None && *final(self) == *old(self),
            old(self).inner.alive() ==> final(self).inner == old(self).inner.spec_killed(ret),
            old(self).inner.alive() ==> freed is Some,
            old(self).inner.alive() ==> spec_clean_up_of(
                old(self).inner.proc_vm->0,
                using_count,
                freed->0,
            ),
    {
        self.inner.kill(ret, using_count)
    }

    /// Gives the process a stack in a slot of its own and returns the
    /// stack pointer to start with, as [`ProcessVm::init_proc_stack`] does.
    pub fn alloc_init_stack(&mut self) -> (stack_top: u64)
        requires
            old(self).wf(),
            old(self).inner.alive(),
            1 <= old(self).pid.0 <= super::vm::STACK_SLOTS,
        ensures
            final(self).wf(),
            final(self).pid == old(self).pid,
            stack_top == ProcessVm::spec_proc_stack_top(old(self).pid),
            final(self).inner.proc_vm matches Some(vm) && vm.stack.usage == 1
                && vm.stack.range.start == super::vm::spec_page_start(stack_top)
                && vm.stack.range.end == vm.stack.range.start + PAGE_SIZE,
            spec_same_but_stack(old(self).inner, final(self).inner),
    {
        let pid = self.pid;
        match self.inner.proc_vm.take() {
            Some(vm) => {
                let mut vm = vm;
                let top = vm.init_proc_stack(pid);
                self.inner.proc_vm = Some(vm);
                top
            },
            None => 0,
        }
    }

    /// Gives the process a stack at the top of the highest user slot and
    /// returns the stack pointer to start with, as
    /// [`ProcessVm::init_user_proc_stack`] does.
    pub fn alloc_init_user_stack(&mut self) -> (stack_top: u64)
        requires
            old(self).wf(),
            old(self).inner.alive(),
        ensures
            final(self).wf(),
            final(self).pid == old(self).pid,
            stack_top == super::vm::stack::STACK_INIT_TOP,
            final(self).inner.proc_vm matches Some(vm) && vm.stack.usage == 1
                && vm.stack.range.start == super::vm::stack::STACK_INIT_BOT
                && vm.stack.range.end == super::vm::stack::STACK_INIT_BOT + PAGE_SIZE,
            spec_same_but_stack(old(self).inner, final(self).inner),
    {
        let pid = self.pid;
        match self.inner.proc_vm.take() {
            Some(vm) => {
                let mut vm = vm;
                let top = vm.init_user_proc_stack(pid);
                self.inner.proc_vm = Some(vm);
                top
            },
            None => 0,
        }
    }

    /// Forks the process; the child gets the identifier `child_pid`.
    ///
    /// The child is that of [`ProcessInner::fork`] with this process as
    /// its parent. This process gets the child as its last child, and the
    /// child's identifier in the saved register for the result of a system
    /// call. Where no slot is left for the child's stack the result is
    /// `None` and this process stays as it is.
    pub fn fork(&mut self, child_pid: ProcessId, failed: u64) -> (child: Option<Process>)
        requires
            old(self).wf(),
            old(self).inner.alive(),
        ensures
            final(self).wf(),
            final(self).pid == old(self).pid,
            child is Some == (old(self).inner.proc_vm->0.stack.spec_fork_bottom(
                old(self).inner.children@.len() + failed,
            ) >= 0),
            child is None ==> *final(self) == *old(self),
            child matches Some(c) ==> {
                &&& c.wf()
                &&& c.pid == child_pid
                &&& c.inner.parent == Some(old(self).pid)
                &&& c.inner.status == ProgramStatus::Ready
                &&& c.inner.context.regs.rax == 0
                &&& c.inner.context == spec_child_context(
                    old(self).inner.context,
                    old(self).inner.proc_vm->0.stack.range.start,
                    c.inner.proc_vm->0.stack.range.start,
                )
                &&& c.inner.name@ == old(self).inner.name@
                &&& c.inner.children@ == Seq::<ProcessId>::empty()
                &&& c.inner.ticks_passed == 0
                &&& c.inner.exit_code is None
                &&& c.inner.proc_data->0@ == old(self).inner.proc_data->0@
                &&& c.inner.proc_vm->0.page_table == old(self).inner.proc_vm->0.page_table
                &&& c.inner.proc_vm->0.heap == old(self).inner.proc_vm->0.heap
                &&& c.inner.proc_vm->0.stack.usage == old(self).inner.proc_vm->0.stack.usage
                &&& c.inner.proc_vm->0.stack.range.start == old(self).inner.proc_vm->0.stack.spec_fork_bottom(
                    old(self).inner.children@.len() + failed,
                )
                &&& c.inner.proc_vm->0.stack.range.end == c.inner.proc_vm->0.stack.range.start
                    + old(self).inner.proc_vm->0.stack.usage * PAGE_SIZE
                &&& c.inner.proc_vm->0.code@ == Seq::<PageRun>::empty()
                &&& c.inner.proc_vm->0.code_usage == 0
                &&& final(self).inner.children@ == old(self).inner.children@.push(child_pid)
                &&& final(self).inner.context == old(self).inner.context.spec_with_rax(
                    child_pid.0 as usize,
                )
                &&& final(self).inner.status == old(self).inner.status
                &&& final(self).inner.proc_vm == old(self).inner.proc_vm
                &&& final(self).inner.proc_data == old(self).inner.proc_data
                &&& final(self).inner.page_table == old(self).inner.page_table
                &&& final(self).inner.exit_code == old(self).inner.exit_code
                &&& final(self).inner.ticks_passed == old(self).inner.ticks_passed
                &&& final(self).inner.name == old(self).inner.name
                &&& final(self).inner.parent == old(self).inner.parent
            },
    {
        let parent = self.pid;
        let child_inner = match self.inner.fork(Some(parent), failed) {
            Some(inner) => inner,
            None => {
                return None;
            },
        };
        let child = Process { pid: child_pid, inner: child_inner };
        self.inner.children.push(child_pid);
        self.inner.context.set_rax(child_pid.0 as usize);
        Some(child)
    }
}

} // verus!
