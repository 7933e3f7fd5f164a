//! The few processor facts the kernel core reads directly from the machine.
//!
//! Every function here is a thin call into the `x86_64` crate. Their contracts
//! are taken on trust; everything built on top of them is verified.

use vstd::prelude::*;
use x86_64::registers::segmentation::{Segment, CS, SS};

verus! {

/// Whether maskable interrupts are currently enabled on this core.
///
/// Calls `x86_64::instructions::interrupts::are_enabled`, which reads the
/// flags register. The answer depends on the state of the processor, so
/// nothing is promised about it.
#[verifier::external_body]
pub(crate) fn interrupts_enabled() -> (enabled: bool) {
    x86_64::instructions::interrupts::are_enabled()
}

/// The bit of the flags register that enables maskable interrupts.
///
/// Reads `x86_64::registers::rflags::RFlags::INTERRUPT_FLAG`, which the crate
/// defines as bit 9 of the register.
#[verifier::external_body]
pub(crate) fn interrupt_flag_bits() -> (bits: u64)
    ensures
        bits == 0x200,
{
    x86_64::registers::rflags::RFlags::INTERRUPT_FLAG.bits()
}

/// The selector currently loaded in the code-segment register.
///
/// Calls `CS::get_reg` of `x86_64::registers::segmentation`, which copies the
/// register. The selector depends on how the machine was set up, so nothing
/// is promised about it.
#[verifier::external_body]
pub(crate) fn code_segment_selector() -> (selector: u16) {
    CS::get_reg().0
}

/// The selector currently loaded in the stack-segment register.
///
/// Calls `SS::get_reg` of `x86_64::registers::segmentation`, which copies the
/// register. The selector depends on how the machine was set up, so nothing
/// is promised about it.
#[verifier::external_body]
pub(crate) fn stack_segment_selector() -> (selector: u16) {
    SS::get_reg().0
}

/// The address at which `buffer` keeps its bytes.
///
/// Calls `Vec::as_ptr`. Where the allocator put the buffer is its own
/// business, so nothing is promised about the address.
#[verifier::external_body]
pub(crate) fn buffer_address(buffer: &Vec<u8>) -> (address: usize) {
    buffer.as_ptr() as usize
}

/// The address at which `value` lives.
///
/// Calls `std::ptr::from_ref`. Where the value was placed is not known to
/// the caller, so nothing is promised about the address.
#[verifier::external_body]
pub(crate) fn address_of<T>(value: &T) -> (address: usize) {
    std::ptr::from_ref(value) as usize
}

} // verus!
