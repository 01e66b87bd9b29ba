//! Where things stand in guest physical memory.
//!
//! | Address | Contents                             |
//! |---------|--------------------------------------|
//! | 0x500   | GDT                                  |
//! | 0x7000  | Boot parameters (zero page)          |
//! | 0x9000  | PML4 page table                      |
//! | 0xA000  | PDPT page table                      |
//! | 0xB000  | PD page table                        |
//! | 0x20000 | Kernel command line                  |
//! | ~top    | Initramfs (page-aligned, end of RAM) |
use vstd::prelude::*;

verus! {

/// Bytes of guest memory: 128 MB.
pub const GUEST_MEM_SIZE: u64 = 0x0800_0000;

/// Address of the global descriptor table.
pub const GDT_ADDR: u64 = 0x500;

/// Address of the boot parameters.
pub const BOOT_PARAMS_ADDR: u64 = 0x7000;

/// Address of the top-level page table.
pub const PML4_ADDR: u64 = 0x9000;

/// Address of the page directory pointer table.
pub const PDPT_ADDR: u64 = 0xA000;

/// Address of the page directory.
pub const PD_ADDR: u64 = 0xB000;

/// Address of the kernel command line.
pub const CMDLINE_ADDR: u64 = 0x20000;

/// Bytes of a small page.
pub const PAGE_SIZE: u64 = 0x1000;

/// The places in guest memory that the table above lists, and the size of guest memory.
pub proof fn law_places()
    ensures
        GUEST_MEM_SIZE == 128 * 1024 * 1024,
        GDT_ADDR == 0x500,
        BOOT_PARAMS_ADDR == 0x7000,
        PML4_ADDR == 0x9000,
        PDPT_ADDR == 0xA000,
        PD_ADDR == 0xB000,
        CMDLINE_ADDR == 0x20000,
        PAGE_SIZE == 4096,
{
}

} // verus!
