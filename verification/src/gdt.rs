//! The double-fault stack of the task state segment: a dedicated stack, so
//! that a kernel-stack overflow still reaches the double-fault handler.
use vstd::prelude::*;
use crate::addr::{is_canonical, virt_addr_add};

verus! {

/// The interrupt-stack-table slot that holds the double-fault stack.
pub const DOUBLE_FAULT_IST_INDEX: u16 = 0;

/// How many slots the interrupt stack table of a TSS has.
pub const INTERRUPT_STACK_TABLE_LEN: u16 = 7;

/// Size of the double-fault stack: five 4 KiB pages.
pub const DOUBLE_FAULT_STACK_SIZE: usize = 4096 * 5;

/// The address the TSS gets for the double-fault stack: the stack grows
/// down, so it is the end of the stack, `stack_start + DOUBLE_FAULT_STACK_SIZE`.
/// `None` where `VirtAddr`'s `+` panics (the end overflows or is not
/// canonical).
pub fn double_fault_stack_top(stack_start: u64) -> (top: Option<u64>)
    requires
        is_canonical(stack_start),
    ensures
        top == (if stack_start + DOUBLE_FAULT_STACK_SIZE <= u64::MAX && is_canonical(
            (stack_start + DOUBLE_FAULT_STACK_SIZE) as u64,
        ) {
            Some((stack_start + DOUBLE_FAULT_STACK_SIZE) as u64)
        } else {
            None::<u64>
        }),
{
    virt_addr_add(stack_start, DOUBLE_FAULT_STACK_SIZE as u64)
}

} // verus!
