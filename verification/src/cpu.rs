//! The processor state in which the kernel is entered: 64-bit long mode, flat segments.
use vstd::prelude::*;

use crate::bytes::{le_bytes, lemma_le_bytes_len, lemma_le_round_trip, lemma_pow256, overlay, read_le};
use crate::layout::{BOOT_PARAMS_ADDR, GDT_ADDR, GUEST_MEM_SIZE, PML4_ADDR};
use crate::memory::{GuestRam, MemoryError};

verus! {

/// Entries of the global descriptor table.
pub const GDT_ENTRIES: usize = 4;

/// Last byte of the global descriptor table.
pub const GDT_LIMIT: u16 = 31;

/// Descriptor of the 64-bit code segment.
pub const CODE_DESCRIPTOR: u64 = 0x00AF_9A00_0000_FFFF;

/// Descriptor of the data segment.
pub const DATA_DESCRIPTOR: u64 = 0x00CF_9200_0000_FFFF;

/// Selector of the code segment.
pub const CODE_SELECTOR: u16 = 0x08;

/// Selector of the data segment.
pub const DATA_SELECTOR: u16 = 0x10;

/// Control register 0: protected mode and paging, among others.
pub const CR0_VALUE: u64 = 0x8005_0033;

/// Control register 4: physical address extension.
pub const CR4_VALUE: u64 = 0x20;

/// Extended features: long mode, enabled and active, and no-execute pages.
pub const EFER_VALUE: u64 = 0xD00;

/// Flags: the one bit that is always set.
pub const RFLAGS_VALUE: u64 = 0x2;

/// Offset of the 64-bit entry point from the start of the protected-mode kernel.
pub const ENTRY_OFFSET: u64 = 0x200;

/// A segment register with its cached descriptor.
#[derive(Clone, Copy, Debug, PartialEq, Eq, Structural)]
pub struct Segment {
    pub base: u64,
    pub limit: u32,
    pub selector: u16,
    pub type_: u8,
    pub present: u8,
    pub dpl: u8,
    pub db: u8,
    pub s: u8,
    pub l: u8,
    pub g: u8,
    pub avl: u8,
    pub unusable: u8,
}

/// A descriptor table register.
#[derive(Clone, Copy, Debug, PartialEq, Eq, Structural)]
pub struct DescriptorTable {
    pub base: u64,
    pub limit: u16,
}

/// The system registers of a processor.
#[derive(Clone, Copy, Debug, PartialEq, Eq)]
pub struct SystemRegisters {
    pub cs: Segment,
    pub ds: Segment,
    pub es: Segment,
    pub fs: Segment,
    pub gs: Segment,
    pub ss: Segment,
    pub tr: Segment,
    pub ldt: Segment,
    pub gdt: DescriptorTable,
    pub idt: DescriptorTable,
    pub cr0: u64,
    pub cr2: u64,
    pub cr3: u64,
    pub cr4: u64,
    pub cr8: u64,
    pub efer: u64,
    pub apic_base: u64,
    pub interrupt_bitmap: [u64; 4],
}

/// The general registers of a processor.
#[derive(Clone, Copy, Debug, PartialEq, Eq, Structural)]
pub struct GeneralRegisters {
    pub rax: u64,
    pub rbx: u64,
    pub rcx: u64,
    pub rdx: u64,
    pub rsi: u64,
    pub rdi: u64,
    pub rsp: u64,
    pub rbp: u64,
    pub r8: u64,
    pub r9: u64,
    pub r10: u64,
    pub r11: u64,
    pub r12: u64,
    pub r13: u64,
    pub r14: u64,
    pub r15: u64,
    pub rip: u64,
    pub rflags: u64,
}

/// Entry `i` of the global descriptor table.
pub open spec fn gdt_entry(i: int) -> u64 {
    if i == 1 {
        CODE_DESCRIPTOR
    } else if i == 2 {
        DATA_DESCRIPTOR
    } else {
        0
    }
}

/// The bytes of the global descriptor table.
pub open spec fn gdt_bytes() -> Seq<u8> {
    Seq::new(8 * GDT_ENTRIES as nat, |k: int| le_bytes(gdt_entry(k / 8) as nat, 8)[k % 8])
}

/// `mem` with the global descriptor table in its place.
pub open spec fn memory_with_gdt(mem: Seq<u8>) -> Seq<u8> {
    overlay(mem, GDT_ADDR as int, gdt_bytes())
}

/// The code segment: 64-bit, flat, executable and readable.
pub open spec fn code_segment() -> Segment {
    Segment {
        base: 0,
        limit: 0xFFFF_FFFF,
        selector: CODE_SELECTOR,
        type_: 11,
        present: 1,
        dpl: 0,
        db: 0,
        s: 1,
        l: 1,
        g: 1,
        avl: 0,
        unusable: 0,
    }
}

/// The data segment: flat and writable.
pub open spec fn data_segment() -> Segment {
    Segment {
        base: 0,
        limit: 0xFFFF_FFFF,
        selector: DATA_SELECTOR,
        type_: 3,
        present: 1,
        dpl: 0,
        db: 1,
        s: 1,
        l: 0,
        g: 1,
        avl: 0,
        unusable: 0,
    }
}

impl SystemRegisters {
    /// The registers with what long mode needs in them, and all else as before.
    pub open spec fn in_long_mode(self) -> SystemRegisters {
        SystemRegisters {
            cs: code_segment(),
            ds: data_segment(),
            es: data_segment(),
            fs: data_segment(),
            gs: data_segment(),
            ss: data_segment(),
            gdt: DescriptorTable { base: GDT_ADDR, limit: GDT_LIMIT },
            cr0: CR0_VALUE,
            cr3: PML4_ADDR,
            cr4: CR4_VALUE,
            efer: EFER_VALUE,
            ..self
        }
    }

    /// Sets the registers up for 64-bit long mode.
    pub fn enter_long_mode(&mut self)
        ensures
            *final(self) == old(self).in_long_mode(),
    {
        self.cr0 = CR0_VALUE;
        self.cr3 = PML4_ADDR;
        self.cr4 = CR4_VALUE;
        self.efer = EFER_VALUE;
        self.cs = Segment {
            base: 0,
            limit: 0xFFFF_FFFF,
            selector: CODE_SELECTOR,
            type_: 11,
            present: 1,
            dpl: 0,
            db: 0,
            s: 1,
            l: 1,
            g: 1,
            avl: 0,
            unusable: 0,
        };
        let data = Segment {
            base: 0,
            limit: 0xFFFF_FFFF,
            selector: DATA_SELECTOR,
            type_: 3,
            present: 1,
            dpl: 0,
            db: 1,
            s: 1,
            l: 0,
            g: 1,
            avl: 0,
            unusable: 0,
        };
        self.ds = data;
        self.es = data;
        self.fs = data;
        self.gs = data;
        self.ss = data;
        self.gdt = DescriptorTable { base: GDT_ADDR, limit: GDT_LIMIT };
    }
}

impl GeneralRegisters {
    /// The registers at the 64-bit entry point of a kernel that lies at `kernel_load`: the
    /// boot parameters are in `rsi`, and what is not named is 0.
    pub open spec fn at_entry(kernel_load: u64) -> GeneralRegisters {
        GeneralRegisters {
            rax: 0,
            rbx: 0,
            rcx: 0,
            rdx: 0,
            rsi: BOOT_PARAMS_ADDR,
            rdi: 0,
            rsp: 0,
            rbp: 0,
            r8: 0,
            r9: 0,
            r10: 0,
            r11: 0,
            r12: 0,
            r13: 0,
            r14: 0,
            r15: 0,
            rip: (kernel_load + ENTRY_OFFSET) as u64,
            rflags: RFLAGS_VALUE,
        }
    }

    /// The registers to enter the kernel at `kernel_load` with.
    pub fn kernel_entry(kernel_load: u64) -> (regs: GeneralRegisters)
        requires
            kernel_load + ENTRY_OFFSET <= u64::MAX,
        ensures
            regs == GeneralRegisters::at_entry(kernel_load),
    {
        GeneralRegisters {
            rax: 0,
            rbx: 0,
            rcx: 0,
            rdx: 0,
            rsi: BOOT_PARAMS_ADDR,
            rdi: 0,
            rsp: 0,
            rbp: 0,
            r8: 0,
            r9: 0,
            r10: 0,
            r11: 0,
            r12: 0,
            r13: 0,
            r14: 0,
            r15: 0,
            rip: kernel_load + ENTRY_OFFSET,
            rflags: RFLAGS_VALUE,
        }
    }
}

impl GuestRam {
    /// Writes the global descriptor table.
    pub fn write_gdt(&mut self) -> (result: Result<(), MemoryError>)
        requires
            old(self).wf(),
        ensures
            result is Ok,
            final(self).wf(),
            final(self)@ == memory_with_gdt(old(self)@),
    {
        let gdt: [u64; 4] = [0, CODE_DESCRIPTOR, DATA_DESCRIPTOR, 0];
        let ghost base = self@;
        let mut i: usize = 0;
        assert(self@ =~= overlay(base, GDT_ADDR as int, gdt_bytes().take(0)));
        while i < GDT_ENTRIES
            invariant
                i <= GDT_ENTRIES,
                self.wf(),
                base.len() == GUEST_MEM_SIZE,
                gdt@.len() == GDT_ENTRIES,
                forall|k: int| 0 <= k < GDT_ENTRIES ==> #[trigger] gdt@[k] == gdt_entry(k),
                self@ == overlay(base, GDT_ADDR as int, gdt_bytes().take(8 * i)),
            decreases GDT_ENTRIES - i,
        {
            match self.write_u64(gdt[i], GDT_ADDR + (i as u64) * 8) {
                Ok(()) => (),
                Err(error) => return Err(error),
            }
            proof {
                lemma_le_bytes_len(gdt_entry(i as int) as nat, 8);
            }
            i = i + 1;
            assert(self@ =~= overlay(base, GDT_ADDR as int, gdt_bytes().take(8 * i)));
        }
        assert(gdt_bytes().take(8 * i) =~= gdt_bytes());
        Ok(())
    }
}

/// Bits `low` to `low + width` of a descriptor, where `low` and `width` are given as the
/// powers of two that they stand for.
pub open spec fn descriptor_bits(descriptor: u64, low: nat, width: nat) -> nat {
    (descriptor as nat / low) % width
}

/// The limit in a descriptor, in bytes or in pages.
pub open spec fn descriptor_limit(descriptor: u64) -> nat {
    descriptor_bits(descriptor, 1, 0x1_0000) + 0x1_0000 * descriptor_bits(
        descriptor,
        0x1_0000_0000_0000,
        0x10,
    )
}

/// The base address in a descriptor.
pub open spec fn descriptor_base(descriptor: u64) -> nat {
    descriptor_bits(descriptor, 0x1_0000, 0x100_0000) + 0x100_0000 * descriptor_bits(
        descriptor,
        0x100_0000_0000_0000,
        0x100,
    )
}

/// Whether a segment register holds what loading it from a descriptor would leave in it;
/// loading a segment sets the lowest bit of its type, that it was accessed.
pub open spec fn is_loaded_from(segment: Segment, descriptor: u64) -> bool {
    let granular = descriptor_bits(descriptor, 0x80_0000_0000_0000, 2);
    &&& segment.base == descriptor_base(descriptor)
    &&& segment.limit == if granular == 1 {
        descriptor_limit(descriptor) * 0x1000 + 0xFFF
    } else {
        descriptor_limit(descriptor)
    }
    &&& segment.type_ == descriptor_bits(descriptor, 0x200_0000_0000, 8) * 2 + 1
    &&& segment.s == descriptor_bits(descriptor, 0x1000_0000_0000, 2)
    &&& segment.dpl == descriptor_bits(descriptor, 0x2000_0000_0000, 4)
    &&& segment.present == descriptor_bits(descriptor, 0x8000_0000_0000, 2)
    &&& segment.avl == descriptor_bits(descriptor, 0x10_0000_0000_0000, 2)
    &&& segment.l == descriptor_bits(descriptor, 0x20_0000_0000_0000, 2)
    &&& segment.db == descriptor_bits(descriptor, 0x40_0000_0000_0000, 2)
    &&& segment.g == granular
    &&& segment.unusable == 0
}

/// Every segment register holds what loading its selector from the global descriptor
/// table would leave in it, and the table register covers that table exactly.
pub proof fn law_segments_match_gdt(regs: SystemRegisters, segment: Segment)
    requires
        ({
            let regs = regs.in_long_mode();
            ||| segment == regs.cs
            ||| segment == regs.ds
            ||| segment == regs.es
            ||| segment == regs.fs
            ||| segment == regs.gs
            ||| segment == regs.ss
        }),
    ensures
        segment.selector % 8 == 0,
        segment.selector + 7 <= regs.in_long_mode().gdt.limit,
        is_loaded_from(segment, gdt_entry(segment.selector as int / 8)),
        regs.in_long_mode().gdt.base == GDT_ADDR,
        regs.in_long_mode().gdt.limit + 1 == gdt_bytes().len(),
{
}

/// The global descriptor table in memory reads as its entries.
pub proof fn law_gdt_in_memory(mem: Seq<u8>, i: int)
    requires
        GDT_ADDR + 8 * GDT_ENTRIES <= mem.len(),
        0 <= i < GDT_ENTRIES,
    ensures
        read_le(memory_with_gdt(mem), GDT_ADDR + 8 * i, 8) == gdt_entry(i),
{
    let entry = gdt_entry(i) as nat;
    lemma_pow256();
    lemma_le_bytes_len(entry, 8);
    lemma_le_round_trip(entry, 8);
    assert(memory_with_gdt(mem).subrange(GDT_ADDR + 8 * i, GDT_ADDR + 8 * i + 8) =~= le_bytes(
        entry,
        8,
    ));
}

/// The processor starts in 64-bit long mode: protected mode, paging, physical address
/// extension and long mode are on, the code segment is a 64-bit one, and the page tables
/// are those that were written.
pub proof fn law_long_mode(regs: SystemRegisters)
    ensures
        regs.in_long_mode().cr0 & 0x1 != 0,
        regs.in_long_mode().cr0 & 0x8000_0000 != 0,
        regs.in_long_mode().cr4 & 0x20 != 0,
        regs.in_long_mode().efer & 0x100 != 0,
        regs.in_long_mode().efer & 0x400 != 0,
        regs.in_long_mode().cs.l == 1,
        regs.in_long_mode().cs.db == 0,
        regs.in_long_mode().cr3 == PML4_ADDR,
{
    assert(0x8005_0033u64 & 0x1 != 0 && 0x8005_0033u64 & 0x8000_0000 != 0) by (bit_vector);
    assert(0x20u64 & 0x20 != 0) by (bit_vector);
    assert(0xD00u64 & 0x100 != 0 && 0xD00u64 & 0x400 != 0) by (bit_vector);
}

/// Whatever the registers held before, the control registers and the extended features hold
/// one and the same value each after long mode is set up: protected mode, paging and write
/// protection on and the caches enabled (bits 29 and 30 clear), physical address extension
/// and nothing more, long mode with no-execute pages. What long mode does not concern is
/// kept.
pub proof fn law_long_mode_is_exact(left: SystemRegisters, right: SystemRegisters)
    ensures
        left.in_long_mode().cr0 == 0x8005_0033,
        left.in_long_mode().cr0 & 0x6000_0000 == 0,
        left.in_long_mode().cr3 == 0x9000,
        left.in_long_mode().cr4 == 0x20,
        left.in_long_mode().efer == 0xD00,
        left.in_long_mode().cr0 == right.in_long_mode().cr0,
        left.in_long_mode().cr3 == right.in_long_mode().cr3,
        left.in_long_mode().cr4 == right.in_long_mode().cr4,
        left.in_long_mode().efer == right.in_long_mode().efer,
        left.in_long_mode().gdt == right.in_long_mode().gdt,
        left.in_long_mode().cs == right.in_long_mode().cs,
        left.in_long_mode().ds == right.in_long_mode().ds,
        left.in_long_mode().es == right.in_long_mode().es,
        left.in_long_mode().fs == right.in_long_mode().fs,
        left.in_long_mode().gs == right.in_long_mode().gs,
        left.in_long_mode().ss == right.in_long_mode().ss,
        left.in_long_mode().tr == left.tr,
        left.in_long_mode().ldt == left.ldt,
        left.in_long_mode().idt == left.idt,
        left.in_long_mode().cr2 == left.cr2,
        left.in_long_mode().cr8 == left.cr8,
        left.in_long_mode().apic_base == left.apic_base,
        left.in_long_mode().interrupt_bitmap == left.interrupt_bitmap,
        left.in_long_mode().in_long_mode() == left.in_long_mode(),
{
    assert(0x8005_0033u64 & 0x6000_0000 == 0) by (bit_vector);
}

/// The segment registers, whatever they held before: code is selector 8, 64-bit, executable
/// and readable; the five others are selector 16, 32-bit and writable; all are present,
/// accessed, of the highest privilege and flat over 4 GB. The table register covers the 32
/// bytes at 0x500.
pub proof fn law_flat_segments(regs: SystemRegisters, segment: Segment)
    requires
        ({
            let regs = regs.in_long_mode();
            ||| segment == regs.cs
            ||| segment == regs.ds
            ||| segment == regs.es
            ||| segment == regs.fs
            ||| segment == regs.gs
            ||| segment == regs.ss
        }),
    ensures
        segment.base == 0 && segment.limit == 0xFFFF_FFFF && segment.g == 1,
        segment.present == 1 && segment.s == 1 && segment.dpl == 0,
        segment.avl == 0 && segment.unusable == 0,
        regs.in_long_mode().cs.selector == 0x08 && regs.in_long_mode().cs.type_ == 11,
        regs.in_long_mode().cs.l == 1 && regs.in_long_mode().cs.db == 0,
        segment.selector == 0x08 || segment.selector == 0x10,
        segment.selector == 0x10 ==> segment.type_ == 3 && segment.l == 0 && segment.db == 1,
        regs.in_long_mode().ds.selector == 0x10 && regs.in_long_mode().es.selector == 0x10,
        regs.in_long_mode().fs.selector == 0x10 && regs.in_long_mode().gs.selector == 0x10,
        regs.in_long_mode().ss.selector == 0x10,
        regs.in_long_mode().gdt.base == 0x500 && regs.in_long_mode().gdt.limit == 31,
{
}

/// A kernel is entered 0x200 bytes past its start with the boot parameters at 0x7000 in
/// `rsi`, the flags 2 and all other registers 0. Entering another kernel differs in `rip`
/// alone, and by as much as the two lie apart.
pub proof fn law_entry_registers(kernel_load: u64, other: u64)
    requires
        kernel_load + 0x200 <= u64::MAX,
        other + 0x200 <= u64::MAX,
    ensures
        ({
            let regs = GeneralRegisters::at_entry(kernel_load);
            let moved = GeneralRegisters::at_entry(other);
            &&& regs.rip == kernel_load + 0x200
            &&& regs.rsi == 0x7000
            &&& regs.rflags == 2
            &&& regs.rax == 0 && regs.rbx == 0 && regs.rcx == 0 && regs.rdx == 0
            &&& regs.rdi == 0 && regs.rsp == 0 && regs.rbp == 0
            &&& regs.r8 == 0 && regs.r9 == 0 && regs.r10 == 0 && regs.r11 == 0
            &&& regs.r12 == 0 && regs.r13 == 0 && regs.r14 == 0 && regs.r15 == 0
            &&& moved.rip - regs.rip == other - kernel_load
            &&& moved == (GeneralRegisters { rip: moved.rip, ..regs })
        }),
{
}

/// The descriptor table is four words at 0x500: none, code, data and none. No other byte of
/// memory changes.
pub proof fn law_gdt_words(mem: Seq<u8>, k: int)
    requires
        mem.len() >= 0x520,
        0 <= k < mem.len(),
    ensures
        memory_with_gdt(mem).len() == mem.len(),
        memory_with_gdt(mem).subrange(0x500, 0x508) == le_bytes(0, 8),
        memory_with_gdt(mem).subrange(0x508, 0x510) == le_bytes(0x00AF_9A00_0000_FFFF, 8),
        memory_with_gdt(mem).subrange(0x510, 0x518) == le_bytes(0x00CF_9200_0000_FFFF, 8),
        memory_with_gdt(mem).subrange(0x518, 0x520) == le_bytes(0, 8),
        k < 0x500 || k >= 0x520 ==> memory_with_gdt(mem)[k] == mem[k],
{
    lemma_gdt_word(mem, 0);
    lemma_gdt_word(mem, 1);
    lemma_gdt_word(mem, 2);
    lemma_gdt_word(mem, 3);
}

/// Word `i` of the descriptor table in memory.
proof fn lemma_gdt_word(mem: Seq<u8>, i: int)
    requires
        mem.len() >= 0x520,
        0 <= i < 4,
    ensures
        memory_with_gdt(mem).subrange(0x500 + 8 * i, 0x508 + 8 * i) == le_bytes(
            gdt_entry(i) as nat,
            8,
        ),
{
    let word = le_bytes(gdt_entry(i) as nat, 8);
    lemma_le_bytes_len(gdt_entry(i) as nat, 8);
    assert forall|j: int| 0 <= j < 8 implies #[trigger] memory_with_gdt(mem)[0x500 + 8 * i + j]
        == word[j] by {
        assert((8 * i + j) / 8 == i);
        assert((8 * i + j) % 8 == j);
        assert(gdt_bytes()[8 * i + j] == word[j]);
    }
    assert(memory_with_gdt(mem).subrange(0x500 + 8 * i, 0x508 + 8 * i) =~= word);
}

} // verus!
