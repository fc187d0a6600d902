//! Memory layout parameters of the kernel.
use vstd::prelude::*;

verus! {

/// Size and alignment of a page: 64 KiB.
pub const PAGE_SIZE: u64 = 0x1_0000;

/// Start of the peripheral I/O region.
pub const IO_BASE: u64 = 0x3F00_0000;

/// End of the peripheral I/O region.
pub const IO_BASE_END: u64 = 0x4000_0000;

/// Base of a user process's address space (the top 1 GiB of the space
/// translated through TTBR1).
pub const USER_IMG_BASE: u64 = 0xffff_ffff_c000_0000;

/// Base of a user process's stack: the last page of the address space.
pub const USER_STACK_BASE: u64 = 0xffff_ffff_ffff_0000;

/// Size of a user process's virtual address space: 1 GiB.
pub const USER_MAX_VM_SIZE: u64 = 0x4000_0000;

} // verus!
