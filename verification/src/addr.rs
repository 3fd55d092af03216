//! Physical and virtual address arithmetic: frames through the `x86_64`
//! crate's address types, and the canonical-form check of its `VirtAddr`.
use vstd::prelude::*;
use x86_64::structures::paging::{PhysFrame, Size4KiB};
use x86_64::PhysAddr;

verus! {

/// Size of a 4 KiB page or frame.
pub const PAGE_SIZE: u64 = 4096;

/// Physical addresses have at most 52 bits.
pub const PHYS_ADDR_LIMIT: u64 = 0x10_0000_0000_0000;

/// A canonical virtual address: bits 48 to 64 repeat bit 47.
pub open spec fn is_canonical(addr: u64) -> bool {
    addr < 0x8000_0000_0000 || addr >= 0xffff_8000_0000_0000
}

/// The start of the 4 KiB frame that holds `addr`.
pub open spec fn frame_start(addr: u64) -> u64 {
    (addr - addr % PAGE_SIZE) as u64
}

/// A canonical address is exactly a sign-extended one: bits 47 to 63 are
/// all clear (the lower half, every address below `0x8000_0000_0000`) or
/// all set (the upper half).
pub proof fn lemma_canonical_is_sign_extension(addr: u64)
    ensures
        is_canonical(addr) <==> (addr >> 47u64 == 0 || addr >> 47u64 == 0x1ffff),
        addr < 0x8000_0000_0000 ==> is_canonical(addr),
{
    assert((addr < 0x8000_0000_0000u64 || addr >= 0xffff_8000_0000_0000u64) <==> (addr >> 47u64 == 0
        || addr >> 47u64 == 0x1ffff)) by (bit_vector);
}

/// The check `VirtAddr::try_new` makes (its whole behaviour, a few lines):
/// the address itself when bits 47..64 are a sign extension of bit 47, else
/// nothing.
fn virt_addr_try_new(addr: u64) -> (checked: Option<u64>)
    ensures
        checked == (if is_canonical(addr) {
            Some(addr)
        } else {
            None::<u64>
        }),
{
    proof {
        lemma_canonical_is_sign_extension(addr);
    }
    let top = addr >> 47u64;
    if top == 0 || top == 0x1ffff {
        Some(addr)
    } else {
        None
    }
}

/// `PhysFrame::<Size4KiB>::containing_address(PhysAddr::new(addr))`, read
/// back as its start address: `addr` aligned down to 4 KiB. `PhysAddr::new`
/// panics when a bit in 52..64 is set, so such addresses are left out.
#[verifier::external_body]
pub(crate) fn containing_frame_start(addr: u64) -> (start: u64)
    requires
        addr < PHYS_ADDR_LIMIT,
    ensures
        start == frame_start(addr),
{
    PhysFrame::<Size4KiB>::containing_address(PhysAddr::new(addr)).start_address().as_u64()
}

/// The frame of `addr` starts at or below it, is 4 KiB aligned, and holds it.
pub proof fn lemma_frame_start(addr: u64)
    ensures
        frame_start(addr) <= addr,
        addr < frame_start(addr) + PAGE_SIZE,
        frame_start(addr) % PAGE_SIZE == 0,
        addr % PAGE_SIZE == 0 ==> frame_start(addr) == addr,
{
}

/// `base + offset` on a virtual address, as `VirtAddr + u64` computes it:
/// the sum when it does not overflow and is canonical, else `None` (where
/// `VirtAddr`'s `+` panics).
pub fn virt_addr_add(base: u64, offset: u64) -> (sum: Option<u64>)
    requires
        is_canonical(base),
    ensures
        sum == (if base + offset <= u64::MAX && is_canonical((base + offset) as u64) {
            Some((base + offset) as u64)
        } else {
            None::<u64>
        }),
{
    match base.checked_add(offset) {
        Some(total) => virt_addr_try_new(total),
        None => None,
    }
}

} // verus!
