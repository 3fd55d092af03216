//! The decision logic of the kernel8 x86_64 kernel: interrupt vectors and
//! the timer/keyboard interrupt replies, the boot-info frame allocator, the
//! virtual-address arithmetic used for paging and the double-fault stack,
//! the cooperative yield point, and the heap self-check.
pub mod addr;
pub mod gdt;
pub mod heap_check;
pub mod interrupts;
pub mod keyboard;
pub mod memory;
pub mod task;
