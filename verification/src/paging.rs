//! Page tables that map the first gigabyte of guest addresses to themselves, in pages of
//! 2 MB.
use vstd::prelude::*;

use crate::bytes::{
    le_bytes, lemma_le_bytes_len, lemma_le_round_trip, lemma_pow256, overlay, read_le,
};
use crate::layout::{GUEST_MEM_SIZE, PDPT_ADDR, PD_ADDR, PML4_ADDR};
use crate::memory::{GuestRam, MemoryError};

verus! {

/// Entries of a page table.
pub const TABLE_ENTRIES: u64 = 512;

/// Flags of an entry that points to a table: present and writable.
pub const TABLE_FLAGS: u64 = 0x3;

/// Flags of an entry that maps a large page: present, writable and large.
pub const LARGE_PAGE_FLAGS: u64 = 0x83;

/// Bytes of a large page.
pub const LARGE_PAGE_SIZE: u64 = 0x20_0000;

/// Bytes that the page tables map.
pub const MAPPED_SIZE: u64 = 0x4000_0000;

/// Entry `i` of the page directory: page `i`, mapped to itself.
pub open spec fn pd_entry(i: int) -> nat {
    (i * LARGE_PAGE_SIZE + LARGE_PAGE_FLAGS) as nat
}

/// The bytes of the page directory.
pub open spec fn page_directory() -> Seq<u8> {
    Seq::new(8 * TABLE_ENTRIES as nat, |k: int| le_bytes(pd_entry(k / 8), 8)[k % 8])
}

/// `mem` with the page tables in their places: one entry in each of the two upper tables,
/// and a full page directory.
pub open spec fn memory_with_page_tables(mem: Seq<u8>) -> Seq<u8> {
    let mem = overlay(mem, PML4_ADDR as int, le_bytes((PDPT_ADDR + TABLE_FLAGS) as nat, 8));
    let mem = overlay(mem, PDPT_ADDR as int, le_bytes((PD_ADDR + TABLE_FLAGS) as nat, 8));
    overlay(mem, PD_ADDR as int, page_directory())
}

/// Whether the page tables stand in their places in `mem`.
pub open spec fn holds_page_tables(mem: Seq<u8>) -> bool {
    &&& PD_ADDR + 0x1000 <= mem.len()
    &&& table_entry(mem, PML4_ADDR as int, 0) == PDPT_ADDR + TABLE_FLAGS
    &&& table_entry(mem, PDPT_ADDR as int, 0) == PD_ADDR + TABLE_FLAGS
    &&& forall|i: int|
        0 <= i < TABLE_ENTRIES ==> #[trigger] table_entry(mem, PD_ADDR as int, i) == pd_entry(i)
}

/// Where the processor finds a virtual address.
pub struct Translation {
    /// The physical address.
    pub addr: int,
    /// Whether it may be written.
    pub writable: bool,
}

/// Bytes that one entry covers in a table of `level`, counted from 1 for the lowest.
pub open spec fn entry_span(level: nat) -> int {
    if level == 1 {
        0x1000
    } else if level == 2 {
        0x20_0000
    } else if level == 3 {
        0x4000_0000
    } else {
        0x80_0000_0000
    }
}

/// Entry `index` of the table at `table`.
pub open spec fn table_entry(mem: Seq<u8>, table: int, index: int) -> nat {
    read_le(mem, table + 8 * index, 8)
}

/// Whether an entry is present (bit 0).
pub open spec fn is_present(entry: nat) -> bool {
    entry % 2 == 1
}

/// Whether an entry allows writes (bit 1).
pub open spec fn is_writable(entry: nat) -> bool {
    (entry / 2) % 2 == 1
}

/// Whether an entry maps a large page (bit 7).
pub open spec fn is_large(entry: nat) -> bool {
    (entry / 0x80) % 2 == 1
}

/// The physical address in an entry (up to bit 51), for a page or table of `size` bytes.
pub open spec fn entry_address(entry: nat, size: int) -> int {
    (entry % 0x10_0000_0000_0000) as int / size * size
}

/// The walk of the processor from a table of `level` on, for a virtual address of 48 bits;
/// `None` is a page fault.
pub open spec fn walk(mem: Seq<u8>, table: int, level: nat, vaddr: int, writable: bool) -> Option<
    Translation,
>
    decreases level,
{
    let entry = table_entry(mem, table, vaddr / entry_span(level) % 512);
    let writable = writable && is_writable(entry);
    if level == 0 || table + 0x1000 > mem.len() || !is_present(entry) {
        None
    } else if level == 1 || (level <= 3 && is_large(entry)) {
        Some(
            Translation {
                addr: entry_address(entry, entry_span(level)) + vaddr % entry_span(level),
                writable,
            },
        )
    } else {
        walk(mem, entry_address(entry, 0x1000), (level - 1) as nat, vaddr, writable)
    }
}

/// What the processor makes of a virtual address of 48 bits, with the top-level table at
/// `pml4`.
pub open spec fn translate(mem: Seq<u8>, pml4: int, vaddr: int) -> Option<Translation> {
    walk(mem, pml4, 4, vaddr, true)
}

impl GuestRam {
    /// Writes the page tables.
    pub fn write_page_tables(&mut self) -> (result: Result<(), MemoryError>)
        requires
            old(self).wf(),
        ensures
            result is Ok,
            final(self).wf(),
            final(self)@ == memory_with_page_tables(old(self)@),
    {
        assert(0xA000u64 | 0x3u64 == 0xA003u64) by (bit_vector);
        assert(0xB000u64 | 0x3u64 == 0xB003u64) by (bit_vector);
        match self.write_u64(PDPT_ADDR | TABLE_FLAGS, PML4_ADDR) {
            Ok(()) => (),
            Err(error) => return Err(error),
        }
        match self.write_u64(PD_ADDR | TABLE_FLAGS, PDPT_ADDR) {
            Ok(()) => (),
            Err(error) => return Err(error),
        }
        let ghost base = self@;
        let mut i: u64 = 0;
        assert(self@ =~= overlay(base, PD_ADDR as int, page_directory().take(0)));
        while i < TABLE_ENTRIES
            invariant
                i <= TABLE_ENTRIES,
                self.wf(),
                base.len() == GUEST_MEM_SIZE,
                self@ == overlay(base, PD_ADDR as int, page_directory().take(8 * i)),
            decreases TABLE_ENTRIES - i,
        {
            assert((i << 21) | 0x83u64 == i * 0x20_0000 + 0x83) by (bit_vector)
                requires
                    i < 512u64,
            ;
            match self.write_u64((i << 21) | LARGE_PAGE_FLAGS, PD_ADDR + i * 8) {
                Ok(()) => (),
                Err(error) => return Err(error),
            }
            proof {
                lemma_le_bytes_len(pd_entry(i as int), 8);
            }
            i = i + 1;
            assert(self@ =~= overlay(base, PD_ADDR as int, page_directory().take(8 * i)));
        }
        assert(page_directory().take(8 * i) =~= page_directory());
        Ok(())
    }
}

/// The bytes of an entry spell the entry.
proof fn lemma_entry(mem: Seq<u8>, table: int, index: int, entry: nat)
    requires
        0 <= table + 8 * index,
        table + 8 * index + 8 <= mem.len(),
        entry < 0x1_0000_0000_0000_0000,
        mem.subrange(table + 8 * index, table + 8 * index + 8) == le_bytes(entry, 8),
    ensures
        table_entry(mem, table, index) == entry,
{
    lemma_pow256();
    lemma_le_round_trip(entry, 8);
}

/// Memory with the page tables in it holds them.
pub proof fn law_page_tables_are_held(mem: Seq<u8>)
    requires
        PD_ADDR + 0x1000 <= mem.len(),
    ensures
        holds_page_tables(memory_with_page_tables(mem)),
{
    let top = le_bytes((PDPT_ADDR + TABLE_FLAGS) as nat, 8);
    let middle = le_bytes((PD_ADDR + TABLE_FLAGS) as nat, 8);
    let full = memory_with_page_tables(mem);
    lemma_le_bytes_len((PDPT_ADDR + TABLE_FLAGS) as nat, 8);
    lemma_le_bytes_len((PD_ADDR + TABLE_FLAGS) as nat, 8);
    assert(full.subrange(PML4_ADDR as int, PML4_ADDR + 8) =~= top);
    lemma_entry(full, PML4_ADDR as int, 0, (PDPT_ADDR + TABLE_FLAGS) as nat);
    assert(full.subrange(PDPT_ADDR as int, PDPT_ADDR + 8) =~= middle);
    lemma_entry(full, PDPT_ADDR as int, 0, (PD_ADDR + TABLE_FLAGS) as nat);
    assert forall|i: int| 0 <= i < TABLE_ENTRIES implies #[trigger] table_entry(
        full,
        PD_ADDR as int,
        i,
    ) == pd_entry(i) by {
        lemma_le_bytes_len(pd_entry(i), 8);
        assert(full.subrange(PD_ADDR + 8 * i, PD_ADDR + 8 * i + 8) =~= le_bytes(pd_entry(i), 8));
        lemma_entry(full, PD_ADDR as int, i, pd_entry(i));
    }
}

/// An entry of the page directory maps a large page, writable, to itself.
proof fn lemma_pd_entry(i: int)
    requires
        0 <= i < TABLE_ENTRIES,
    ensures
        is_present(pd_entry(i)),
        is_writable(pd_entry(i)),
        is_large(pd_entry(i)),
        entry_address(pd_entry(i), 0x20_0000) == i * 0x20_0000,
{
    assert(pd_entry(i) == i * 0x20_0000 + 0x83);
    assert(pd_entry(i) / 2 == i * 0x10_0000 + 0x41);
    assert(pd_entry(i) / 0x80 == i * 0x4000 + 1);
    assert(pd_entry(i) % 0x10_0000_0000_0000 == pd_entry(i));
    assert(pd_entry(i) as int / 0x20_0000 == i);
}

/// The entry of an upper table leads to the table that it points to.
proof fn lemma_upper_entry(entry: nat, table: u64)
    requires
        table == PDPT_ADDR || table == PD_ADDR,
        entry == table + TABLE_FLAGS,
    ensures
        is_present(entry),
        is_writable(entry),
        !is_large(entry),
        entry_address(entry, 0x1000) == table,
{
}

/// The page tables map every address of the first gigabyte to itself, writable.
pub proof fn law_identity_mapping(mem: Seq<u8>, vaddr: int)
    requires
        holds_page_tables(mem),
        0 <= vaddr < MAPPED_SIZE,
    ensures
        translate(mem, PML4_ADDR as int, vaddr) == Some(Translation { addr: vaddr, writable: true }),
{
    let i = vaddr / 0x20_0000;
    let found = Some(Translation { addr: vaddr, writable: true });
    assert(walk(mem, PD_ADDR as int, 2, vaddr, true) == found) by {
        assert(i % 512 == i);
        assert(table_entry(mem, PD_ADDR as int, i) == pd_entry(i));
        lemma_pd_entry(i);
        assert(i * 0x20_0000 + vaddr % 0x20_0000 == vaddr);
    }
    assert(walk(mem, PDPT_ADDR as int, 3, vaddr, true) == found) by {
        assert(vaddr / 0x4000_0000 % 512 == 0);
        lemma_upper_entry(table_entry(mem, PDPT_ADDR as int, 0), PD_ADDR);
    }
    assert(walk(mem, PML4_ADDR as int, 4, vaddr, true) == found) by {
        assert(vaddr / 0x80_0000_0000 % 512 == 0);
        lemma_upper_entry(table_entry(mem, PML4_ADDR as int, 0), PDPT_ADDR);
    }
}

/// Where the two upper tables hold nothing but their first entries, no address past the
/// first gigabyte is mapped.
pub proof fn law_nothing_else_is_mapped(mem: Seq<u8>, vaddr: int)
    requires
        holds_page_tables(mem),
        forall|i: int|
            1 <= i < TABLE_ENTRIES ==> #[trigger] table_entry(mem, PML4_ADDR as int, i) == 0,
        forall|i: int|
            1 <= i < TABLE_ENTRIES ==> #[trigger] table_entry(mem, PDPT_ADDR as int, i) == 0,
        MAPPED_SIZE <= vaddr < 0x1_0000_0000_0000,
    ensures
        translate(mem, PML4_ADDR as int, vaddr) is None,
{
    let top = vaddr / 0x80_0000_0000 % 512;
    let middle = vaddr / 0x4000_0000 % 512;
    if top != 0 {
        assert(table_entry(mem, PML4_ADDR as int, top) == 0);
    } else {
        assert(walk(mem, PDPT_ADDR as int, 3, vaddr, true) is None) by {
            assert(vaddr < 0x80_0000_0000);
            assert(middle != 0);
            assert(table_entry(mem, PDPT_ADDR as int, middle) == 0);
        }
        lemma_upper_entry(table_entry(mem, PML4_ADDR as int, 0), PDPT_ADDR);
    }
}

/// The page tables are one word at 0x9000 that points to 0xA000, one at 0xA000 that points
/// to 0xB000, and 512 words from 0xB000 on, of which word `i` maps the 2 MB page `i` to
/// itself. No other byte of memory changes.
pub proof fn law_page_table_words(mem: Seq<u8>, i: int, k: int)
    requires
        mem.len() >= 0xC000,
        0 <= i < 512,
        0 <= k < mem.len(),
    ensures
        memory_with_page_tables(mem).len() == mem.len(),
        memory_with_page_tables(mem).subrange(0x9000, 0x9008) == le_bytes(0xA003, 8),
        memory_with_page_tables(mem).subrange(0xA000, 0xA008) == le_bytes(0xB003, 8),
        memory_with_page_tables(mem).subrange(0xB000 + 8 * i, 0xB008 + 8 * i) == le_bytes(
            (0x20_0000 * i + 0x83) as nat,
            8,
        ),
        !(0x9000 <= k < 0x9008) && !(0xA000 <= k < 0xA008) && !(0xB000 <= k < 0xC000)
            ==> memory_with_page_tables(mem)[k] == mem[k],
{
    let full = memory_with_page_tables(mem);
    let entry = (0x20_0000 * i + 0x83) as nat;
    lemma_le_bytes_len(0xA003, 8);
    lemma_le_bytes_len(0xB003, 8);
    lemma_le_bytes_len(entry, 8);
    assert(full.subrange(0x9000, 0x9008) =~= le_bytes(0xA003, 8));
    assert(full.subrange(0xA000, 0xA008) =~= le_bytes(0xB003, 8));
    assert(pd_entry(i) == entry);
    assert(full.subrange(0xB000 + 8 * i, 0xB008 + 8 * i) =~= le_bytes(entry, 8));
}

} // verus!
