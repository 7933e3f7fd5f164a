//! What an interrupt leaves behind: the trap frame the processor pushes, the
//! general-purpose registers saved next to it, and the vectors the core uses.

use vstd::prelude::*;
use crate::arch::{code_segment_selector, interrupt_flag_bits, stack_segment_selector};

pub mod user_interrupts;

verus! {

/// First vector of the primary interrupt controller.
pub const PIC_1_OFFSET: u8 = 32;

/// First vector of the secondary interrupt controller.
pub const PIC_2_OFFSET: u8 = 40;

/// Bit of the flags register that reads as one on every processor.
pub const RESERVED_FLAG: u64 = 0x2;

/// Flags a task starts with: interrupts enabled, and the bit that is always set.
pub const INITIAL_FLAGS: u64 = 0x202;

/// Hardware interrupts the core knows by name.
#[derive(Debug, Clone, Copy)]
pub enum InterruptIndex {
    Timer,
    Keyboard,
}

impl InterruptIndex {
    /// The vector this interrupt arrives on.
    pub open spec fn vector(self) -> u8 {
        match self {
            InterruptIndex::Timer => PIC_1_OFFSET,
            InterruptIndex::Keyboard => (PIC_1_OFFSET + 1) as u8,
        }
    }

    /// The vector this interrupt arrives on.
    pub fn as_u8(self) -> (vector: u8)
        ensures
            vector == self.vector(),
    {
        match self {
            InterruptIndex::Timer => PIC_1_OFFSET,
            InterruptIndex::Keyboard => PIC_1_OFFSET + 1,
        }
    }

    /// The vector this interrupt arrives on, as an index into a table.
    pub fn as_usize(self) -> (vector: usize)
        ensures
            vector == self.vector(),
    {
        self.as_u8() as usize
    }
}

/// The general-purpose registers as saved at an interrupt.
#[derive(Debug, Copy, Clone, PartialEq, Eq, Structural)]
pub struct StandardContext {
    pub rax: usize,
    pub rbx: usize,
    pub rcx: usize,
    pub rdx: usize,
    pub rsi: usize,
    pub rdi: usize,
    pub r8: usize,
    pub r9: usize,
    pub r10: usize,
    pub r11: usize,
    pub r12: usize,
    pub r13: usize,
    pub r14: usize,
    pub r15: usize,
}

impl StandardContext {
    /// A register file with every register cleared.
    pub open spec fn cleared() -> StandardContext {
        StandardContext {
            rax: 0,
            rbx: 0,
            rcx: 0,
            rdx: 0,
            rsi: 0,
            rdi: 0,
            r8: 0,
            r9: 0,
            r10: 0,
            r11: 0,
            r12: 0,
            r13: 0,
            r14: 0,
            r15: 0,
        }
    }
}

impl Default for StandardContext {
    /// A register file with every register cleared.
    fn default() -> (context: Self)
        ensures
            context == StandardContext::cleared(),
    {
        StandardContext {
            rax: 0,
            rbx: 0,
            rcx: 0,
            rdx: 0,
            rsi: 0,
            rdi: 0,
            r8: 0,
            r9: 0,
            r10: 0,
            r11: 0,
            r12: 0,
            r13: 0,
            r14: 0,
            r15: 0,
        }
    }
}

/// What the processor itself pushes when it takes an interrupt.
#[derive(Debug, Copy, Clone, PartialEq, Eq, Structural)]
pub struct InterruptFrame {
    pub instruction_pointer: u64,
    pub code_segment: u64,
    pub cpu_flags: u64,
    pub stack_pointer: u64,
    pub stack_segment: u64,
}

impl InterruptFrame {
    /// The frame of code that has not started yet and runs in the given
    /// segments: interrupts enabled, nowhere to go and no stack so far.
    pub open spec fn starting_in(code_segment: u16, stack_segment: u16) -> InterruptFrame {
        InterruptFrame {
            instruction_pointer: 0,
            code_segment: code_segment as u64,
            cpu_flags: INITIAL_FLAGS,
            stack_pointer: 0,
            stack_segment: stack_segment as u64,
        }
    }

    /// The frame of code that has not started yet and runs in the given
    /// segments.
    pub fn with_segments(code_segment: u16, stack_segment: u16) -> (frame: Self)
        ensures
            frame == InterruptFrame::starting_in(code_segment, stack_segment),
    {
        let interrupt_flag = interrupt_flag_bits();
        assert(0x200u64 | 0x2u64 == 0x202u64) by (bit_vector);
        InterruptFrame {
            instruction_pointer: 0,
            code_segment: code_segment as u64,
            cpu_flags: interrupt_flag | RESERVED_FLAG,
            stack_pointer: 0,
            stack_segment: stack_segment as u64,
        }
    }
}

impl Default for InterruptFrame {
    /// The frame of code that has not started yet and runs in the segments
    /// the processor is using right now.
    fn default() -> (frame: Self)
        ensures
            exists|code_segment: u16, stack_segment: u16|
                frame == InterruptFrame::starting_in(code_segment, stack_segment),
    {
        let code_segment = code_segment_selector();
        let stack_segment = stack_segment_selector();
        InterruptFrame::with_segments(code_segment, stack_segment)
    }
}

} // verus!
