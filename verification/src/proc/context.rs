//! The registers of a process while it does not run.

use vstd::prelude::*;

verus! {

/// The flags that a new process starts with: interrupts enabled, and the
/// bit that is always set.
pub const INITIAL_FLAGS: u64 = 0x202;

/// The general registers, in the order in which an interrupt handler
/// pushes them.
#[derive(Clone, Copy, Debug, PartialEq, Eq, Structural)]
pub struct RegistersValue {
    pub r15: usize,
    pub r14: usize,
    pub r13: usize,
    pub r12: usize,
    pub r11: usize,
    pub r10: usize,
    pub r9: usize,
    pub r8: usize,
    pub rdi: usize,
    pub rsi: usize,
    pub rdx: usize,
    pub rcx: usize,
    pub rbx: usize,
    pub rax: usize,
    pub rbp: usize,
}

/// What the processor pushes when it takes an interrupt.
#[derive(Clone, Copy, Debug, PartialEq, Eq, Structural)]
pub struct StackFrameValue {
    pub instruction_pointer: u64,
    pub code_segment: u64,
    pub cpu_flags: u64,
    pub stack_pointer: u64,
    pub stack_segment: u64,
}

/// Everything that is saved of a process when it is taken off the
/// processor, and put back when it returns to it.
#[derive(Clone, Copy, Debug, PartialEq, Eq, Structural)]
pub struct ProcessContext {
    pub regs: RegistersValue,
    pub stack_frame: StackFrameValue,
}

impl RegistersValue {
    /// All registers zero.
    pub open spec fn spec_zero() -> RegistersValue {
        RegistersValue {
            r15: 0,
            r14: 0,
            r13: 0,
            r12: 0,
            r11: 0,
            r10: 0,
            r9: 0,
            r8: 0,
            rdi: 0,
            rsi: 0,
            rdx: 0,
            rcx: 0,
            rbx: 0,
            rax: 0,
            rbp: 0,
        }
    }
}

impl ProcessContext {
    /// The context of a process that has not run: every register zero.
    pub open spec fn spec_default() -> ProcessContext {
        ProcessContext {
            regs: RegistersValue::spec_zero(),
            stack_frame: StackFrameValue {
                instruction_pointer: 0,
                code_segment: 0,
                cpu_flags: 0,
                stack_pointer: 0,
                stack_segment: 0,
            },
        }
    }

    /// This context with `value` in the register that carries the result
    /// of a system call.
    pub open spec fn spec_with_rax(self, value: usize) -> ProcessContext {
        ProcessContext { regs: RegistersValue { rax: value, ..self.regs }, ..self }
    }

    /// This context with a frame that starts at `entry` on a stack whose
    /// top is `stack_top`.
    pub open spec fn spec_with_frame(self, entry: u64, stack_top: u64) -> ProcessContext {
        ProcessContext {
            stack_frame: StackFrameValue {
                instruction_pointer: entry,
                stack_pointer: stack_top,
                cpu_flags: INITIAL_FLAGS,
                ..self.stack_frame
            },
            ..self
        }
    }

    /// The stack pointer moved by `offset`, around the end of the address
    /// space where it passes it.
    pub open spec fn spec_moved_rsp(rsp: u64, offset: u64) -> u64 {
        if rsp + offset > u64::MAX {
            (rsp + offset - 0x1_0000_0000_0000_0000) as u64
        } else {
            (rsp + offset) as u64
        }
    }

    /// This context with its stack pointer moved by `offset`.
    pub open spec fn spec_with_rsp_offset(self, offset: u64) -> ProcessContext {
        ProcessContext {
            stack_frame: StackFrameValue {
                stack_pointer: Self::spec_moved_rsp(self.stack_frame.stack_pointer, offset),
                ..self.stack_frame
            },
            ..self
        }
    }

    /// The context of a process that has not run: every register zero.
    pub fn new() -> (ctx: ProcessContext)
        ensures
            ctx == Self::spec_default(),
    {
        ProcessContext {
            regs: RegistersValue {
                r15: 0,
                r14: 0,
                r13: 0,
                r12: 0,
                r11: 0,
                r10: 0,
                r9: 0,
                r8: 0,
                rdi: 0,
                rsi: 0,
                rdx: 0,
                rcx: 0,
                rbx: 0,
                rax: 0,
                rbp: 0,
            },
            stack_frame: StackFrameValue {
                instruction_pointer: 0,
                code_segment: 0,
                cpu_flags: 0,
                stack_pointer: 0,
                stack_segment: 0,
            },
        }
    }

    /// Puts `value` into the register that carries the result of a system
    /// call.
    pub fn set_rax(&mut self, value: usize)
        ensures
            *final(self) == old(self).spec_with_rax(value),
    {
        self.regs.rax = value;
    }

    /// Takes over what `context` holds.
    pub fn save(&mut self, context: &ProcessContext)
        ensures
            *final(self) == *context,
    {
        *self = *context;
    }

    /// Writes what this context holds into `context`.
    pub fn restore(&self, context: &mut ProcessContext)
        ensures
            *final(context) == *self,
    {
        *context = *self;
    }

    /// Prepares the frame of a kernel thread that starts at `entry` on a
    /// stack whose top is `stack_top`, with interrupts enabled. The segment
    /// selectors stay as they are.
    pub fn init_stack_frame(&mut self, entry: u64, stack_top: u64)
        ensures
            *final(self) == old(self).spec_with_frame(entry, stack_top),
    {
        self.stack_frame.stack_pointer = stack_top;
        self.stack_frame.instruction_pointer = entry;
        self.stack_frame.cpu_flags = INITIAL_FLAGS;
    }

    /// Prepares the frame of a user process that starts at `entry` on a
    /// stack whose top is `stack_top`, with interrupts enabled. The segment
    /// selectors stay as they are.
    pub fn init_user_stack_frame(&mut self, entry: u64, stack_top: u64)
        ensures
            *final(self) == old(self).spec_with_frame(entry, stack_top),
    {
        self.stack_frame.stack_pointer = stack_top;
        self.stack_frame.instruction_pointer = entry;
        self.stack_frame.cpu_flags = INITIAL_FLAGS;
    }

    /// Moves the stack pointer by `offset`, around the end of the address
    /// space where it passes it.
    pub fn set_rsp_offset(&mut self, offset: u64)
        ensures
            *final(self) == old(self).spec_with_rsp_offset(offset),
    {
        self.stack_frame.stack_pointer = self.stack_frame.stack_pointer.wrapping_add(offset);
    }
}

} // verus!
