//! Filling guest memory before the first instruction runs.
use vstd::prelude::*;

use crate::boot_params::{
    boot_params, build_boot_params, law_command_line_fields, law_ramdisk_fields, BOOT_PARAMS_SIZE,
    CMDLINE_SIZE, CMD_LINE_PTR, RAMDISK_IMAGE, RAMDISK_SIZE,
};
use crate::bytes::{le_bytes, lemma_le_bytes_len, lemma_zeros_value, overlay, read_le};
use crate::cmdline::{
    c_string, lemma_cmdline_text, CommandLineError, CMDLINE_CAPACITY, CMDLINE_STR,
};
use crate::cpu::{
    gdt_bytes, law_gdt_words, memory_with_gdt, GeneralRegisters, SystemRegisters, ENTRY_OFFSET,
};
use crate::kernel::{load_address, load_outcome, memory_with_kernel, payload, LoadedKernel};
use crate::layout::{
    BOOT_PARAMS_ADDR, CMDLINE_ADDR, GDT_ADDR, GUEST_MEM_SIZE, PAGE_SIZE, PDPT_ADDR, PD_ADDR,
    PML4_ADDR,
};
use crate::memory::{GuestRam, MemoryError};
use crate::paging::{
    holds_page_tables, law_identity_mapping, law_nothing_else_is_mapped, law_page_table_words,
    law_page_tables_are_held, memory_with_page_tables, page_directory, pd_entry, table_entry,
    translate, Translation, MAPPED_SIZE, TABLE_ENTRIES, TABLE_FLAGS,
};

verus! {

/// Why guest memory could not be filled.
#[derive(Debug)]
pub enum BootError {
    /// The command line could not be stored.
    CommandLine(CommandLineError),
    /// The initramfs is larger than guest memory.
    InitrdTooLarge,
    /// Memory could not be written.
    Memory(MemoryError),
}

/// The guest address of an initramfs of `len` bytes: the last page boundary from which it
/// still lies inside memory.
pub open spec fn initrd_address(len: int) -> int {
    (GUEST_MEM_SIZE - len) / PAGE_SIZE as int * PAGE_SIZE
}

/// Guest memory with all that the kernel needs to start, beside the kernel itself: the
/// command line, the initramfs, the boot parameters, the page tables and the global
/// descriptor table, where a later one covers an earlier one.
pub open spec fn boot_memory(mem: Seq<u8>, kernel: Seq<u8>, initrd: Seq<u8>) -> Seq<u8> {
    let addr = initrd_address(initrd.len() as int);
    let mem = overlay(mem, CMDLINE_ADDR as int, c_string(CMDLINE_STR@));
    let mem = overlay(mem, addr, initrd);
    let mem = overlay(
        mem,
        BOOT_PARAMS_ADDR as int,
        boot_params(kernel, addr as nat, initrd.len()),
    );
    memory_with_gdt(memory_with_page_tables(mem))
}

/// Where an initramfs of `len` bytes goes, if guest memory can hold it.
pub fn initrd_load_addr(len: u64) -> (addr: Option<u64>)
    ensures
        match addr {
            Some(addr) => len <= GUEST_MEM_SIZE && addr == initrd_address(len as int),
            None => len > GUEST_MEM_SIZE,
        },
{
    if len > GUEST_MEM_SIZE {
        return None;
    }
    let room: u64 = GUEST_MEM_SIZE - len;
    assert(room & !0xFFFu64 == room - room % 0x1000) by (bit_vector);
    Some(room & !0xFFF)
}

impl GuestRam {
    /// Stores the initramfs at the end of memory. Returns its address. An initramfs that is
    /// larger than memory is refused, with memory unchanged.
    pub fn load_initrd(&mut self, initrd: &[u8]) -> (result: Result<u64, BootError>)
        requires
            old(self).wf(),
        ensures
            final(self).wf(),
            if initrd@.len() <= GUEST_MEM_SIZE {
                &&& result matches Ok(addr) && addr == initrd_address(initrd@.len() as int)
                &&& final(self)@ == overlay(
                    old(self)@,
                    initrd_address(initrd@.len() as int),
                    initrd@,
                )
            } else {
                &&& result matches Err(error) && error is InitrdTooLarge
                &&& final(self)@ == old(self)@
            },
    {
        let addr: u64 = match initrd_load_addr(initrd.len() as u64) {
            Some(addr) => addr,
            None => return Err(BootError::InitrdTooLarge),
        };
        match self.write_slice(initrd, addr) {
            Ok(()) => Ok(addr),
            Err(error) => Err(BootError::Memory(error)),
        }
    }

    /// Stores all that the kernel `kernel` needs to start, beside the kernel itself.
    /// Returns the address of the initramfs. An initramfs that is larger than memory is
    /// refused once the command line is stored.
    pub fn prepare_boot(&mut self, kernel: &[u8], initrd: &[u8]) -> (result: Result<u64, BootError>)
        requires
            old(self).wf(),
        ensures
            final(self).wf(),
            if initrd@.len() <= GUEST_MEM_SIZE {
                &&& result matches Ok(addr) && addr == initrd_address(initrd@.len() as int)
                &&& final(self)@ == boot_memory(old(self)@, kernel@, initrd@)
            } else {
                &&& result matches Err(error) && error is InitrdTooLarge
                &&& final(self)@ == overlay(
                    old(self)@,
                    CMDLINE_ADDR as int,
                    c_string(CMDLINE_STR@),
                )
            },
    {
        match self.load_command_line() {
            Ok(()) => (),
            Err(error) => return Err(BootError::CommandLine(error)),
        }
        let addr: u64 = match self.load_initrd(initrd) {
            Ok(addr) => addr,
            Err(error) => return Err(error),
        };
        let page = build_boot_params(kernel, addr, initrd.len());
        match self.write_slice(page.as_slice(), BOOT_PARAMS_ADDR) {
            Ok(()) => (),
            Err(error) => return Err(BootError::Memory(error)),
        }
        match self.write_page_tables() {
            Ok(()) => (),
            Err(error) => return Err(BootError::Memory(error)),
        }
        match self.write_gdt() {
            Ok(()) => (),
            Err(error) => return Err(BootError::Memory(error)),
        }
        Ok(addr)
    }
}

/// Whether `len` bytes at `addr` and `other_len` bytes at `other` have no byte in common.
pub open spec fn apart(addr: int, len: int, other: int, other_len: int) -> bool {
    addr + len <= other || other + other_len <= addr
}

/// Whether `len` bytes at `addr` have no byte in common with the boot parameters, the page
/// tables and the global descriptor table.
pub open spec fn clear_of_tables(addr: int, len: int) -> bool {
    &&& apart(addr, len, GDT_ADDR as int, gdt_bytes().len() as int)
    &&& apart(addr, len, BOOT_PARAMS_ADDR as int, BOOT_PARAMS_SIZE as int)
    &&& apart(addr, len, PML4_ADDR as int, 8)
    &&& apart(addr, len, PDPT_ADDR as int, 8)
    &&& apart(addr, len, PD_ADDR as int, page_directory().len() as int)
}

/// What was stored before the tables, clear of them, is still there after.
proof fn lemma_tables_frame(mem: Seq<u8>, page: Seq<u8>, from: int, to: int)
    requires
        page.len() == BOOT_PARAMS_SIZE,
        0 <= from <= to <= mem.len(),
        clear_of_tables(from, to - from),
    ensures
        memory_with_gdt(
            memory_with_page_tables(overlay(mem, BOOT_PARAMS_ADDR as int, page)),
        ).subrange(from, to) == mem.subrange(from, to),
{
    lemma_le_bytes_len((PDPT_ADDR + TABLE_FLAGS) as nat, 8);
    lemma_le_bytes_len((PD_ADDR + TABLE_FLAGS) as nat, 8);
    assert(memory_with_gdt(
        memory_with_page_tables(overlay(mem, BOOT_PARAMS_ADDR as int, page)),
    ).subrange(from, to) =~= mem.subrange(from, to));
}

/// The initramfs starts on a page boundary and lies inside memory, and no later page
/// boundary would do.
pub proof fn law_initrd_placement(len: int)
    requires
        0 <= len <= GUEST_MEM_SIZE,
    ensures
        0 <= initrd_address(len),
        initrd_address(len) % PAGE_SIZE as int == 0,
        initrd_address(len) + len <= GUEST_MEM_SIZE < initrd_address(len) + PAGE_SIZE + len,
{
}

/// The boot parameters, the page tables and the global descriptor table stand in memory
/// whatever the initramfs is.
pub proof fn law_tables_are_in_place(mem: Seq<u8>, kernel: Seq<u8>, initrd: Seq<u8>)
    requires
        mem.len() == GUEST_MEM_SIZE,
    ensures
        boot_memory(mem, kernel, initrd).subrange(
            BOOT_PARAMS_ADDR as int,
            BOOT_PARAMS_ADDR + BOOT_PARAMS_SIZE,
        ) == boot_params(
            kernel,
            initrd_address(initrd.len() as int) as nat,
            initrd.len(),
        ),
        boot_memory(mem, kernel, initrd).subrange(GDT_ADDR as int, GDT_ADDR + gdt_bytes().len())
            == gdt_bytes(),
        holds_page_tables(boot_memory(mem, kernel, initrd)),
{
    let addr = initrd_address(initrd.len() as int);
    let page = boot_params(kernel, addr as nat, initrd.len());
    let full = boot_memory(mem, kernel, initrd);
    let before = overlay(
        overlay(
            overlay(mem, CMDLINE_ADDR as int, c_string(CMDLINE_STR@)),
            addr,
            initrd,
        ),
        BOOT_PARAMS_ADDR as int,
        page,
    );
    let tables = memory_with_page_tables(before);
    lemma_le_bytes_len((PDPT_ADDR + TABLE_FLAGS) as nat, 8);
    lemma_le_bytes_len((PD_ADDR + TABLE_FLAGS) as nat, 8);
    assert(full.subrange(BOOT_PARAMS_ADDR as int, BOOT_PARAMS_ADDR + BOOT_PARAMS_SIZE) =~= page);
    assert(full.subrange(GDT_ADDR as int, GDT_ADDR + gdt_bytes().len()) =~= gdt_bytes());
    law_page_tables_are_held(before);
    lemma_same_entry(tables, full, PML4_ADDR as int, 0);
    lemma_same_entry(tables, full, PDPT_ADDR as int, 0);
    assert forall|i: int| 0 <= i < TABLE_ENTRIES implies #[trigger] table_entry(
        full,
        PD_ADDR as int,
        i,
    ) == pd_entry(i) by {
        lemma_same_entry(tables, full, PD_ADDR as int, i);
    }
}

/// The global descriptor table leaves the entries of the page tables as they are.
proof fn lemma_same_entry(mem: Seq<u8>, full: Seq<u8>, table: int, index: int)
    requires
        full == memory_with_gdt(mem),
        PML4_ADDR <= table,
        0 <= index,
        table + 8 * index + 8 <= mem.len(),
    ensures
        table_entry(full, table, index) == table_entry(mem, table, index),
{
    let at = table + 8 * index;
    assert(full.subrange(at, at + 8) =~= mem.subrange(at, at + 8));
}

/// The guest finds the whole initramfs at its address, unless it reaches down to the page
/// tables.
pub proof fn law_initrd_is_in_place(mem: Seq<u8>, kernel: Seq<u8>, initrd: Seq<u8>)
    requires
        mem.len() == GUEST_MEM_SIZE,
        initrd.len() <= GUEST_MEM_SIZE,
        clear_of_tables(initrd_address(initrd.len() as int), initrd.len() as int),
    ensures
        boot_memory(mem, kernel, initrd).subrange(
            initrd_address(initrd.len() as int),
            initrd_address(initrd.len() as int) + initrd.len(),
        ) == initrd,
{
    let addr = initrd_address(initrd.len() as int);
    let end = addr + initrd.len();
    law_initrd_placement(initrd.len() as int);
    let page = boot_params(kernel, addr as nat, initrd.len());
    let before = overlay(
        overlay(mem, CMDLINE_ADDR as int, c_string(CMDLINE_STR@)),
        addr,
        initrd,
    );
    lemma_tables_frame(before, page, addr, end);
    assert(before.subrange(addr, end) =~= initrd);
}

/// The guest finds the command line, with its terminator, where the boot parameters point,
/// unless the initramfs reaches down to it.
pub proof fn law_command_line_is_in_place(mem: Seq<u8>, kernel: Seq<u8>, initrd: Seq<u8>)
    requires
        mem.len() == GUEST_MEM_SIZE,
        apart(
            CMDLINE_ADDR as int,
            c_string(CMDLINE_STR@).len() as int,
            initrd_address(initrd.len() as int),
            initrd.len() as int,
        ),
    ensures
        boot_memory(mem, kernel, initrd).subrange(
            CMDLINE_ADDR as int,
            CMDLINE_ADDR + c_string(CMDLINE_STR@).len(),
        ) == c_string(CMDLINE_STR@),
{
    let addr = initrd_address(initrd.len() as int);
    let text = c_string(CMDLINE_STR@);
    let end = CMDLINE_ADDR + text.len();
    lemma_cmdline_text();
    let page = boot_params(kernel, addr as nat, initrd.len());
    let before = overlay(overlay(mem, CMDLINE_ADDR as int, text), addr, initrd);
    lemma_tables_frame(before, page, CMDLINE_ADDR as int, end);
    assert(before.subrange(CMDLINE_ADDR as int, end) =~= text);
}

/// The guest finds the whole kernel where it was loaded, if nothing that is stored after
/// it lies on it.
pub proof fn law_kernel_is_in_place(mem: Seq<u8>, kernel: Seq<u8>, initrd: Seq<u8>)
    requires
        mem.len() == GUEST_MEM_SIZE,
        load_outcome(GUEST_MEM_SIZE as nat, kernel) is Ok,
        payload(kernel).len() > 0,
        clear_of_tables(load_address(kernel) as int, payload(kernel).len() as int),
        apart(
            load_address(kernel) as int,
            payload(kernel).len() as int,
            CMDLINE_ADDR as int,
            c_string(CMDLINE_STR@).len() as int,
        ),
        apart(
            load_address(kernel) as int,
            payload(kernel).len() as int,
            initrd_address(initrd.len() as int),
            initrd.len() as int,
        ),
    ensures
        boot_memory(memory_with_kernel(mem, kernel), kernel, initrd).subrange(
            load_address(kernel) as int,
            (load_address(kernel) + payload(kernel).len()) as int,
        ) == payload(kernel),
{
    let addr = initrd_address(initrd.len() as int);
    let from = load_address(kernel) as int;
    let to = from + payload(kernel).len();
    let page = boot_params(kernel, addr as nat, initrd.len());
    let before = overlay(
        overlay(memory_with_kernel(mem, kernel), CMDLINE_ADDR as int, c_string(CMDLINE_STR@)),
        addr,
        initrd,
    );
    lemma_tables_frame(before, page, from, to);
    assert(before.subrange(from, to) =~= payload(kernel));
}

/// Through the page tables, the first instruction is fetched from the entry point of the
/// kernel that was loaded.
pub proof fn law_entry_point_is_mapped(
    mem: Seq<u8>,
    kernel: Seq<u8>,
    initrd: Seq<u8>,
    loaded: LoadedKernel,
    regs: SystemRegisters,
)
    requires
        mem.len() == GUEST_MEM_SIZE,
        load_outcome(GUEST_MEM_SIZE as nat, kernel) matches Ok(outcome) && outcome == loaded,
        payload(kernel).len() > 0,
    ensures
        translate(
            boot_memory(memory_with_kernel(mem, kernel), kernel, initrd),
            regs.in_long_mode().cr3 as int,
            GeneralRegisters::at_entry(loaded.kernel_load).rip as int,
        ) == Some(
            Translation { addr: load_address(kernel) + ENTRY_OFFSET, writable: true },
        ),
{
    let full = boot_memory(memory_with_kernel(mem, kernel), kernel, initrd);
    law_tables_are_in_place(memory_with_kernel(mem, kernel), kernel, initrd);
    law_identity_mapping(full, load_address(kernel) + ENTRY_OFFSET);
}

/// In memory that was zero where the two upper page tables go, and with an initramfs that
/// does not reach down to them, nothing past the first gigabyte is mapped.
pub proof fn law_only_the_first_gigabyte_is_mapped(
    mem: Seq<u8>,
    kernel: Seq<u8>,
    initrd: Seq<u8>,
    vaddr: int,
)
    requires
        mem.len() == GUEST_MEM_SIZE,
        forall|k: int| PML4_ADDR <= k < PD_ADDR ==> #[trigger] mem[k] == 0,
        apart(
            initrd_address(initrd.len() as int),
            initrd.len() as int,
            PML4_ADDR as int,
            PD_ADDR - PML4_ADDR,
        ),
        MAPPED_SIZE <= vaddr < 0x1_0000_0000_0000,
    ensures
        translate(boot_memory(mem, kernel, initrd), PML4_ADDR as int, vaddr) is None,
{
    let full = boot_memory(mem, kernel, initrd);
    law_tables_are_in_place(mem, kernel, initrd);
    lemma_le_bytes_len((PDPT_ADDR + TABLE_FLAGS) as nat, 8);
    lemma_le_bytes_len((PD_ADDR + TABLE_FLAGS) as nat, 8);
    assert forall|i: int| 1 <= i < TABLE_ENTRIES implies #[trigger] table_entry(
        full,
        PML4_ADDR as int,
        i,
    ) == 0 by {
        lemma_zeros_value(full.subrange(PML4_ADDR + 8 * i, PML4_ADDR + 8 * i + 8));
    }
    assert forall|i: int| 1 <= i < TABLE_ENTRIES implies #[trigger] table_entry(
        full,
        PDPT_ADDR as int,
        i,
    ) == 0 by {
        lemma_zeros_value(full.subrange(PDPT_ADDR + 8 * i, PDPT_ADDR + 8 * i + 8));
    }
    law_nothing_else_is_mapped(full, vaddr);
}

/// The places of the global descriptor table, the boot parameters, the three page tables
/// and the command line have no byte in common, and lie inside memory.
pub proof fn law_layout_is_disjoint()
    ensures
        GDT_ADDR + gdt_bytes().len() <= BOOT_PARAMS_ADDR,
        BOOT_PARAMS_ADDR + BOOT_PARAMS_SIZE <= PML4_ADDR,
        PML4_ADDR + PAGE_SIZE <= PDPT_ADDR,
        PDPT_ADDR + PAGE_SIZE <= PD_ADDR,
        PD_ADDR + page_directory().len() <= CMDLINE_ADDR,
        c_string(CMDLINE_STR@).len() <= CMDLINE_CAPACITY,
        CMDLINE_ADDR + CMDLINE_CAPACITY <= GUEST_MEM_SIZE,
{
    lemma_cmdline_text();
}

/// A field of the boot parameters reads the same in memory.
proof fn lemma_field_in_memory(
    mem: Seq<u8>,
    kernel: Seq<u8>,
    initrd: Seq<u8>,
    at: int,
    n: int,
)
    requires
        mem.len() == GUEST_MEM_SIZE,
        0 <= at,
        0 <= n,
        at + n <= BOOT_PARAMS_SIZE,
    ensures
        read_le(boot_memory(mem, kernel, initrd), BOOT_PARAMS_ADDR + at, n) == read_le(
            boot_params(kernel, initrd_address(initrd.len() as int) as nat, initrd.len()),
            at,
            n,
        ),
{
    let full = boot_memory(mem, kernel, initrd);
    let page = boot_params(
        kernel,
        initrd_address(initrd.len() as int) as nat,
        initrd.len(),
    );
    let start = BOOT_PARAMS_ADDR as int;
    law_tables_are_in_place(mem, kernel, initrd);
    assert(full.subrange(start + at, start + at + n) =~= full.subrange(
        start,
        start + BOOT_PARAMS_SIZE,
    ).subrange(at, at + n));
    assert(page.subrange(at, at + n) == full.subrange(start + at, start + at + n));
}

/// A kernel that follows `rsi` to the boot parameters, and these to the initramfs, finds
/// it there, unless the initramfs reaches down to the page tables.
pub proof fn law_kernel_finds_initrd(
    mem: Seq<u8>,
    kernel: Seq<u8>,
    initrd: Seq<u8>,
    kernel_load: u64,
)
    requires
        mem.len() == GUEST_MEM_SIZE,
        initrd.len() <= GUEST_MEM_SIZE,
        clear_of_tables(initrd_address(initrd.len() as int), initrd.len() as int),
    ensures
        ({
            let full = boot_memory(mem, kernel, initrd);
            let params = GeneralRegisters::at_entry(kernel_load).rsi;
            let image = read_le(full, params + RAMDISK_IMAGE, 4) as int;
            let size = read_le(full, params + RAMDISK_SIZE, 4) as int;
            full.subrange(image, image + size) == initrd
        }),
{
    law_initrd_placement(initrd.len() as int);
    lemma_field_in_memory(mem, kernel, initrd, RAMDISK_IMAGE as int, 4);
    lemma_field_in_memory(mem, kernel, initrd, RAMDISK_SIZE as int, 4);
    law_ramdisk_fields(kernel, initrd_address(initrd.len() as int) as nat, initrd.len());
    law_initrd_is_in_place(mem, kernel, initrd);
}

/// A kernel that follows `rsi` to the boot parameters, and these to the command line,
/// finds it there with a zero behind it, unless the initramfs reaches down to it.
pub proof fn law_kernel_finds_command_line(
    mem: Seq<u8>,
    kernel: Seq<u8>,
    initrd: Seq<u8>,
    kernel_load: u64,
)
    requires
        mem.len() == GUEST_MEM_SIZE,
        apart(
            CMDLINE_ADDR as int,
            c_string(CMDLINE_STR@).len() as int,
            initrd_address(initrd.len() as int),
            initrd.len() as int,
        ),
    ensures
        ({
            let full = boot_memory(mem, kernel, initrd);
            let params = GeneralRegisters::at_entry(kernel_load).rsi;
            let text = read_le(full, params + CMD_LINE_PTR, 4) as int;
            let size = read_le(full, params + CMDLINE_SIZE, 4) as int;
            full.subrange(text, text + size + 1) == c_string(CMDLINE_STR@)
        }),
{
    lemma_field_in_memory(mem, kernel, initrd, CMD_LINE_PTR as int, 4);
    lemma_field_in_memory(mem, kernel, initrd, CMDLINE_SIZE as int, 4);
    law_command_line_fields(
        kernel,
        initrd_address(initrd.len() as int) as nat,
        initrd.len(),
    );
    law_command_line_is_in_place(mem, kernel, initrd);
}

/// The initramfs lies on a 4 KB boundary, ends inside the 128 MB of memory, and ends less
/// than 4 KB before their end. One that is a page longer lies a page lower.
pub proof fn law_initrd_is_as_high_as_can_be(len: int)
    requires
        0 <= len <= 0x0800_0000,
    ensures
        initrd_address(len) >= 0,
        initrd_address(len) % 0x1000 == 0,
        0 <= 0x0800_0000 - (initrd_address(len) + len) < 0x1000,
        len + 0x1000 <= 0x0800_0000 ==> initrd_address(len + 0x1000) == initrd_address(len)
            - 0x1000,
{
}

/// What each byte of memory holds once the guest is ready to start: a byte outside the
/// tables is that of the initramfs where the initramfs lies, else that of the command line
/// where that lies, and else what it was.
pub proof fn law_bytes_outside_the_tables(
    mem: Seq<u8>,
    kernel: Seq<u8>,
    initrd: Seq<u8>,
    k: int,
)
    requires
        mem.len() == 0x0800_0000,
        initrd.len() <= 0x0800_0000,
        0 <= k < 0x0800_0000,
        !(0x500 <= k < 0x520) && !(0x7000 <= k < 0x8000),
        !(0x9000 <= k < 0x9008) && !(0xA000 <= k < 0xA008) && !(0xB000 <= k < 0xC000),
    ensures
        ({
            let full = boot_memory(mem, kernel, initrd);
            let addr = initrd_address(initrd.len() as int);
            &&& addr <= k < addr + initrd.len() ==> full[k] == initrd[k - addr]
            &&& !(addr <= k < addr + initrd.len()) && 0x20000 <= k < 0x20024 ==> full[k]
                == CMDLINE_STR@[k - 0x20000] as u8
            &&& !(addr <= k < addr + initrd.len()) && k == 0x20024 ==> full[k] == 0
            &&& !(addr <= k < addr + initrd.len()) && !(0x20000 <= k < 0x20025) ==> full[k]
                == mem[k]
        }),
{
    lemma_cmdline_text();
    lemma_le_bytes_len((PDPT_ADDR + TABLE_FLAGS) as nat, 8);
    lemma_le_bytes_len((PD_ADDR + TABLE_FLAGS) as nat, 8);
}

/// The tables stand where they belong whatever the kernel and the initramfs are: the boot
/// parameters at 0x7000, with the place and the length of this initramfs in them, the words
/// of the page tables and those of the descriptor table.
pub proof fn law_bytes_of_the_tables(mem: Seq<u8>, kernel: Seq<u8>, initrd: Seq<u8>, i: int)
    requires
        mem.len() == 0x0800_0000,
        initrd.len() <= 0x0800_0000,
        0 <= i < 512,
    ensures
        ({
            let full = boot_memory(mem, kernel, initrd);
            &&& full.len() == 0x0800_0000
            &&& full.subrange(0x7000, 0x8000) == boot_params(
                kernel,
                initrd_address(initrd.len() as int) as nat,
                initrd.len(),
            )
            &&& full.subrange(0x9000, 0x9008) == le_bytes(0xA003, 8)
            &&& full.subrange(0xA000, 0xA008) == le_bytes(0xB003, 8)
            &&& full.subrange(0xB000 + 8 * i, 0xB008 + 8 * i) == le_bytes(
                (0x20_0000 * i + 0x83) as nat,
                8,
            )
            &&& full.subrange(0x500, 0x508) == le_bytes(0, 8)
            &&& full.subrange(0x508, 0x510) == le_bytes(0x00AF_9A00_0000_FFFF, 8)
            &&& full.subrange(0x510, 0x518) == le_bytes(0x00CF_9200_0000_FFFF, 8)
            &&& full.subrange(0x518, 0x520) == le_bytes(0, 8)
        }),
{
    let addr = initrd_address(initrd.len() as int);
    let full = boot_memory(mem, kernel, initrd);
    let before = overlay(
        overlay(
            overlay(mem, CMDLINE_ADDR as int, c_string(CMDLINE_STR@)),
            addr,
            initrd,
        ),
        BOOT_PARAMS_ADDR as int,
        boot_params(kernel, addr as nat, initrd.len()),
    );
    let tables = memory_with_page_tables(before);
    law_tables_are_in_place(mem, kernel, initrd);
    law_page_table_words(before, i, 0);
    law_gdt_words(tables, 0);
    assert(full.subrange(0x9000, 0x9008) =~= tables.subrange(0x9000, 0x9008));
    assert(full.subrange(0xA000, 0xA008) =~= tables.subrange(0xA000, 0xA008));
    assert(full.subrange(0xB000 + 8 * i, 0xB008 + 8 * i) =~= tables.subrange(
        0xB000 + 8 * i,
        0xB008 + 8 * i,
    ));
}

} // verus!
