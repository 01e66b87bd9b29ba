//! The boot parameters ("zero page") that the kernel reads when it starts.
use vstd::prelude::*;

use crate::bytes::{
    law_le_bytes, le_bytes, lemma_le_bytes_len, lemma_le_round_trip, lemma_pow256, low_bytes,
    overlay, pow256, read_le,
};
use crate::cmdline::{cmdline_len, lemma_cmdline_text, CMDLINE_STR};
use crate::kernel::{image_byte, LOADFLAGS, SETUP_HEADER};
use crate::layout::{CMDLINE_ADDR, GUEST_MEM_SIZE};

verus! {

/// Bytes of the boot parameters.
pub const BOOT_PARAMS_SIZE: usize = 0x1000;

/// Offset past the setup header that is taken over from the kernel image.
pub const SETUP_HEADER_END: usize = 0x280;

/// Offset of the number of entries in the memory map.
pub const E820_ENTRIES: usize = 0x1E8;

/// Offset of the identifier of the boot loader.
pub const TYPE_OF_LOADER: usize = 0x210;

/// Offset of the address of the initramfs.
pub const RAMDISK_IMAGE: usize = 0x218;

/// Offset of the size of the initramfs.
pub const RAMDISK_SIZE: usize = 0x21C;

/// Offset of the address of the command line.
pub const CMD_LINE_PTR: usize = 0x228;

/// Offset of the size of the command line.
pub const CMDLINE_SIZE: usize = 0x238;

/// Offset of the memory map: a base, a size and a type.
pub const E820_TABLE: usize = 0x2D0;

/// Offset of the size in the first entry of the memory map.
pub const E820_SIZE: usize = 0x2D8;

/// Offset of the type in the first entry of the memory map.
pub const E820_TYPE: usize = 0x2E0;

/// Identifier of a boot loader without an identifier of its own.
pub const LOADER_UNDEFINED: u8 = 0xFF;

/// Load flags that are set: the kernel is loaded high, and keeps its segments.
pub const LOADED_HIGH_KEEP_SEGMENTS: u8 = 0x41;

/// Type of usable memory in the memory map.
pub const E820_RAM: u32 = 1;

/// Whether offset `i` lies in the field of `n` bytes at `at`.
pub open spec fn in_field(i: int, at: usize, n: int) -> bool {
    at <= i < at + n
}

/// Byte `i` of the boot parameters for a kernel image and an initramfs of `initrd_len`
/// bytes at `initrd_addr`.
pub open spec fn boot_params_byte(
    kernel: Seq<u8>,
    initrd_addr: nat,
    initrd_len: nat,
    i: int,
) -> u8 {
    if i == E820_ENTRIES {
        1
    } else if i == TYPE_OF_LOADER {
        LOADER_UNDEFINED
    } else if i == LOADFLAGS {
        image_byte(kernel, i) | LOADED_HIGH_KEEP_SEGMENTS
    } else if in_field(i, RAMDISK_IMAGE, 4) {
        le_bytes(initrd_addr, 4)[i - RAMDISK_IMAGE]
    } else if in_field(i, RAMDISK_SIZE, 4) {
        le_bytes(initrd_len, 4)[i - RAMDISK_SIZE]
    } else if in_field(i, CMD_LINE_PTR, 4) {
        le_bytes(CMDLINE_ADDR as nat, 4)[i - CMD_LINE_PTR]
    } else if in_field(i, CMDLINE_SIZE, 4) {
        le_bytes(CMDLINE_STR@.len(), 4)[i - CMDLINE_SIZE]
    } else if in_field(i, E820_SIZE, 8) {
        le_bytes(GUEST_MEM_SIZE as nat, 8)[i - E820_SIZE]
    } else if in_field(i, E820_TYPE, 4) {
        le_bytes(E820_RAM as nat, 4)[i - E820_TYPE]
    } else if SETUP_HEADER <= i < SETUP_HEADER_END {
        image_byte(kernel, i)
    } else {
        0
    }
}

/// The boot parameters for a kernel image and an initramfs of `initrd_len` bytes at
/// `initrd_addr`: the setup header of the image with what the boot loader has to fill in,
/// and a memory map of one entry for all of guest memory.
pub open spec fn boot_params(kernel: Seq<u8>, initrd_addr: nat, initrd_len: nat) -> Seq<u8> {
    Seq::new(
        BOOT_PARAMS_SIZE as nat,
        |i: int| boot_params_byte(kernel, initrd_addr, initrd_len, i),
    )
}

/// Copies `data` to offset `at`.
fn put(page: &mut [u8; 0x1000], at: usize, data: &Vec<u8>)
    requires
        at + data@.len() <= BOOT_PARAMS_SIZE,
    ensures
        final(page)@ == overlay(old(page)@, at as int, data@),
{
    let mut i: usize = 0;
    while i < data.len()
        invariant
            i <= data@.len(),
            at + data@.len() <= BOOT_PARAMS_SIZE,
            page@ == overlay(old(page)@, at as int, data@.take(i as int)),
        decreases data@.len() - i,
    {
        page[at + i] = data[i];
        i = i + 1;
        assert(page@ =~= overlay(old(page)@, at as int, data@.take(i as int)));
    }
    assert(data@.take(i as int) =~= data@);
}

/// Builds the boot parameters for a kernel image and an initramfs of `initrd_len` bytes at
/// `initrd_addr`.
pub fn build_boot_params(kernel: &[u8], initrd_addr: u64, initrd_len: usize) -> (page: [u8; 0x1000])
    ensures
        page@ == boot_params(kernel@, initrd_addr as nat, initrd_len as nat),
{
    let mut page: [u8; 0x1000] = [0u8; 0x1000];
    let mut i: usize = SETUP_HEADER;
    while i < SETUP_HEADER_END && i < kernel.len()
        invariant
            SETUP_HEADER <= i <= SETUP_HEADER_END,
            i <= kernel@.len() || i == SETUP_HEADER,
            page@.len() == BOOT_PARAMS_SIZE,
            forall|k: int|
                0 <= k < BOOT_PARAMS_SIZE ==> #[trigger] page@[k] == (if SETUP_HEADER <= k < i {
                    kernel@[k]
                } else {
                    0
                }),
        decreases SETUP_HEADER_END - i,
    {
        page[i] = kernel[i];
        i = i + 1;
    }
    page[TYPE_OF_LOADER] = LOADER_UNDEFINED;
    let loadflags: u8 = page[LOADFLAGS];
    page[LOADFLAGS] = loadflags | LOADED_HIGH_KEEP_SEGMENTS;
    page[E820_ENTRIES] = 1;
    proof {
        lemma_le_bytes_len(initrd_addr as nat, 4);
        lemma_le_bytes_len(initrd_len as nat, 4);
        lemma_le_bytes_len(CMDLINE_ADDR as nat, 4);
        lemma_le_bytes_len(CMDLINE_STR@.len(), 4);
        lemma_le_bytes_len(0, 8);
        lemma_le_bytes_len(GUEST_MEM_SIZE as nat, 8);
        lemma_le_bytes_len(E820_RAM as nat, 4);
        lemma_zero_bytes(8);
    }
    put(&mut page, RAMDISK_IMAGE, &low_bytes(initrd_addr, 4));
    put(&mut page, RAMDISK_SIZE, &low_bytes(initrd_len as u64, 4));
    put(&mut page, CMD_LINE_PTR, &low_bytes(CMDLINE_ADDR, 4));
    put(&mut page, CMDLINE_SIZE, &low_bytes(cmdline_len() as u64, 4));
    put(&mut page, E820_TABLE, &low_bytes(0, 8));
    put(&mut page, E820_SIZE, &low_bytes(GUEST_MEM_SIZE, 8));
    put(&mut page, E820_TYPE, &low_bytes(E820_RAM as u64, 4));
    assert(page@ =~= boot_params(kernel@, initrd_addr as nat, initrd_len as nat));
    page
}

/// The bytes of 0 are 0.
proof fn lemma_zero_bytes(n: nat)
    ensures
        forall|i: int| 0 <= i < n ==> #[trigger] le_bytes(0, n)[i] == 0,
    decreases n,
{
    if n > 0 {
        lemma_zero_bytes((n - 1) as nat);
        lemma_le_bytes_len(0, (n - 1) as nat);
        assert forall|i: int| 0 <= i < n implies #[trigger] le_bytes(0, n)[i] == 0 by {
            if i > 0 {
                assert(le_bytes(0, n)[i] == le_bytes(0, (n - 1) as nat)[i - 1]);
            }
        }
    }
}

/// A field that is spelled by the `n` low bytes of a number that fits reads as that number.
proof fn lemma_field(page: Seq<u8>, at: int, n: nat, value: nat)
    requires
        0 <= at,
        at + n <= page.len(),
        value < pow256(n),
        forall|i: int| at <= i < at + n ==> #[trigger] page[i] == le_bytes(value, n)[i - at],
    ensures
        read_le(page, at, n as int) == value,
{
    lemma_le_bytes_len(value, n);
    assert(page.subrange(at, at + n) =~= le_bytes(value, n));
    lemma_le_round_trip(value, n);
}

/// The kernel reads from the boot parameters where the initramfs lies and how long it is.
pub proof fn law_ramdisk_fields(kernel: Seq<u8>, initrd_addr: nat, initrd_len: nat)
    requires
        initrd_addr <= u32::MAX,
        initrd_len <= u32::MAX,
    ensures
        read_le(boot_params(kernel, initrd_addr, initrd_len), RAMDISK_IMAGE as int, 4)
            == initrd_addr,
        read_le(boot_params(kernel, initrd_addr, initrd_len), RAMDISK_SIZE as int, 4)
            == initrd_len,
{
    let page = boot_params(kernel, initrd_addr, initrd_len);
    lemma_pow256();
    lemma_field(page, RAMDISK_IMAGE as int, 4, initrd_addr);
    lemma_field(page, RAMDISK_SIZE as int, 4, initrd_len);
}

/// The kernel reads from the boot parameters where the command line lies and how long it
/// is, its terminator not counted.
pub proof fn law_command_line_fields(kernel: Seq<u8>, initrd_addr: nat, initrd_len: nat)
    ensures
        read_le(boot_params(kernel, initrd_addr, initrd_len), CMD_LINE_PTR as int, 4)
            == CMDLINE_ADDR,
        read_le(boot_params(kernel, initrd_addr, initrd_len), CMDLINE_SIZE as int, 4)
            == CMDLINE_STR@.len(),
{
    let page = boot_params(kernel, initrd_addr, initrd_len);
    lemma_pow256();
    lemma_cmdline_text();
    lemma_field(page, CMD_LINE_PTR as int, 4, CMDLINE_ADDR as nat);
    lemma_field(page, CMDLINE_SIZE as int, 4, CMDLINE_STR@.len());
}

/// The memory map is one entry of usable memory that covers all of guest memory.
pub proof fn law_memory_map(kernel: Seq<u8>, initrd_addr: nat, initrd_len: nat)
    ensures
        boot_params(kernel, initrd_addr, initrd_len)[E820_ENTRIES as int] == 1,
        read_le(boot_params(kernel, initrd_addr, initrd_len), E820_TABLE as int, 8) == 0,
        read_le(boot_params(kernel, initrd_addr, initrd_len), E820_SIZE as int, 8)
            == GUEST_MEM_SIZE,
        read_le(boot_params(kernel, initrd_addr, initrd_len), E820_TYPE as int, 4) == E820_RAM,
{
    let page = boot_params(kernel, initrd_addr, initrd_len);
    lemma_pow256();
    lemma_zero_bytes(8);
    lemma_field(page, E820_TABLE as int, 8, 0);
    lemma_field(page, E820_SIZE as int, 8, GUEST_MEM_SIZE as nat);
    lemma_field(page, E820_TYPE as int, 4, E820_RAM as nat);
}

/// The setup header is that of the kernel image, but for the identifier of the boot
/// loader, two load flags that are set, and the places of the initramfs and the command
/// line.
pub proof fn law_setup_header_is_kept(kernel: Seq<u8>, initrd_addr: nat, initrd_len: nat, i: int)
    requires
        SETUP_HEADER <= i < SETUP_HEADER_END,
    ensures
        boot_params(kernel, initrd_addr, initrd_len)[i] == image_byte(kernel, i) || {
            ||| i == TYPE_OF_LOADER
            ||| i == LOADFLAGS
            ||| in_field(i, RAMDISK_IMAGE, 4)
            ||| in_field(i, RAMDISK_SIZE, 4)
            ||| in_field(i, CMD_LINE_PTR, 4)
            ||| in_field(i, CMDLINE_SIZE, 4)
        },
        boot_params(kernel, initrd_addr, initrd_len)[LOADFLAGS as int] & !LOADED_HIGH_KEEP_SEGMENTS
            == image_byte(kernel, LOADFLAGS as int) & !LOADED_HIGH_KEEP_SEGMENTS,
        boot_params(kernel, initrd_addr, initrd_len)[LOADFLAGS as int] & LOADED_HIGH_KEEP_SEGMENTS
            == LOADED_HIGH_KEEP_SEGMENTS,
{
    let flags = image_byte(kernel, LOADFLAGS as int);
    assert((flags | 0x41u8) & !0x41u8 == flags & !0x41u8) by (bit_vector);
    assert((flags | 0x41u8) & 0x41u8 == 0x41u8) by (bit_vector);
}

/// For every kernel image, initramfs address and length, the boot parameters are one page
/// and name a boot loader, without which the kernel would take no initramfs; the kernel is
/// told that it is loaded high and keeps its segments, and its other load flags are those
/// of the image.
pub proof fn law_boot_loader_fields(kernel: Seq<u8>, initrd_addr: nat, initrd_len: nat)
    ensures
        boot_params(kernel, initrd_addr, initrd_len).len() == 4096,
        boot_params(kernel, initrd_addr, initrd_len)[0x210] == 0xFF,
        boot_params(kernel, initrd_addr, initrd_len)[0x211] & 0x01 == 0x01,
        boot_params(kernel, initrd_addr, initrd_len)[0x211] & 0x40 == 0x40,
        kernel.len() > 0x211 ==> boot_params(kernel, initrd_addr, initrd_len)[0x211] & 0xBE
            == kernel[0x211] & 0xBE,
        kernel.len() <= 0x211 ==> boot_params(kernel, initrd_addr, initrd_len)[0x211] & 0xBE == 0,
{
    let flags = image_byte(kernel, 0x211);
    assert((flags | 0x41u8) & 0x01 == 0x01 && (flags | 0x41u8) & 0x40 == 0x40) by (bit_vector);
    assert((flags | 0x41u8) & 0xBE == flags & 0xBE && 0u8 & 0xBE == 0) by (bit_vector);
}

/// The bytes at 0x218 are the address of the initramfs and those at 0x21C its length, of
/// each the four lowest, lowest first; the bytes at 0x228 are the address 0x20000 of the
/// command line and those at 0x238 its length of 36.
pub proof fn law_place_fields(kernel: Seq<u8>, initrd_addr: nat, initrd_len: nat)
    ensures
        ({
            let page = boot_params(kernel, initrd_addr, initrd_len);
            &&& page[0x218] == initrd_addr % 256
            &&& page[0x219] == initrd_addr / 0x100 % 256
            &&& page[0x21A] == initrd_addr / 0x1_0000 % 256
            &&& page[0x21B] == initrd_addr / 0x100_0000 % 256
            &&& page[0x21C] == initrd_len % 256
            &&& page[0x21D] == initrd_len / 0x100 % 256
            &&& page[0x21E] == initrd_len / 0x1_0000 % 256
            &&& page[0x21F] == initrd_len / 0x100_0000 % 256
            &&& page.subrange(0x228, 0x22C) == seq![0u8, 0, 2, 0]
            &&& page.subrange(0x238, 0x23C) == seq![36u8, 0, 0, 0]
        }),
{
    let page = boot_params(kernel, initrd_addr, initrd_len);
    lemma_cmdline_text();
    law_le_bytes(initrd_addr);
    law_le_bytes(initrd_len);
    law_le_bytes(CMDLINE_ADDR as nat);
    law_le_bytes(36);
    assert(page.subrange(0x228, 0x22C) =~= seq![0u8, 0, 2, 0]);
    assert(page.subrange(0x238, 0x23C) =~= seq![36u8, 0, 0, 0]);
}

/// The memory map is one entry: from address 0 on, 128 MB, of type 1.
pub proof fn law_memory_map_bytes(kernel: Seq<u8>, initrd_addr: nat, initrd_len: nat)
    ensures
        ({
            let page = boot_params(kernel, initrd_addr, initrd_len);
            &&& page[0x1E8] == 1
            &&& page.subrange(0x2D0, 0x2D8) == seq![0u8, 0, 0, 0, 0, 0, 0, 0]
            &&& page.subrange(0x2D8, 0x2E0) == seq![0u8, 0, 0, 8, 0, 0, 0, 0]
            &&& page.subrange(0x2E0, 0x2E4) == seq![1u8, 0, 0, 0]
        }),
{
    let page = boot_params(kernel, initrd_addr, initrd_len);
    law_le_bytes(GUEST_MEM_SIZE as nat);
    law_le_bytes(E820_RAM as nat);
    assert(page.subrange(0x2D0, 0x2D8) =~= seq![0u8, 0, 0, 0, 0, 0, 0, 0]);
    assert(page.subrange(0x2D8, 0x2E0) =~= seq![0u8, 0, 0, 8, 0, 0, 0, 0]);
    assert(page.subrange(0x2E0, 0x2E4) =~= seq![1u8, 0, 0, 0]);
}

/// Every other byte from 0x1F1 to 0x27F is that of the kernel image, or 0 where the image
/// ends before it, and every byte elsewhere that the memory map leaves is 0.
pub proof fn law_all_other_bytes(kernel: Seq<u8>, initrd_addr: nat, initrd_len: nat, i: int)
    requires
        0 <= i < 0x1000,
        i != 0x210 && i != 0x211,
        !(0x218 <= i < 0x220) && !(0x228 <= i < 0x22C) && !(0x238 <= i < 0x23C),
    ensures
        0x1F1 <= i < 0x280 && i < kernel.len() ==> boot_params(kernel, initrd_addr, initrd_len)[i]
            == kernel[i],
        0x1F1 <= i < 0x280 && i >= kernel.len() ==> boot_params(kernel, initrd_addr, initrd_len)[i]
            == 0,
        !(0x1F1 <= i < 0x280) && i != 0x1E8 && !(0x2D8 <= i < 0x2E4) ==> boot_params(
            kernel,
            initrd_addr,
            initrd_len,
        )[i] == 0,
{
}

/// Of a kernel image, the boot parameters depend on nothing but the bytes from 0x1F1 to
/// 0x27F: images of any two lengths past these that agree there have the same ones.
pub proof fn law_what_boot_params_depend_on(
    left: Seq<u8>,
    right: Seq<u8>,
    initrd_addr: nat,
    initrd_len: nat,
)
    requires
        left.len() >= 0x280,
        right.len() >= 0x280,
        left.subrange(0x1F1, 0x280) == right.subrange(0x1F1, 0x280),
    ensures
        boot_params(left, initrd_addr, initrd_len) == boot_params(right, initrd_addr, initrd_len),
{
    assert forall|i: int| 0x1F1 <= i < 0x280 implies left[i] == right[i] by {
        assert(left.subrange(0x1F1, 0x280)[i - 0x1F1] == left[i]);
        assert(right.subrange(0x1F1, 0x280)[i - 0x1F1] == right[i]);
    }
    assert(boot_params(left, initrd_addr, initrd_len) =~= boot_params(
        right,
        initrd_addr,
        initrd_len,
    ));
}

/// Initramfs images at other places or of other lengths change the eight bytes from 0x218
/// on and no others.
pub proof fn law_where_the_initramfs_shows(
    kernel: Seq<u8>,
    addr: nat,
    len: nat,
    other_addr: nat,
    other_len: nat,
    i: int,
)
    requires
        0 <= i < 0x1000,
        !(0x218 <= i < 0x220),
    ensures
        boot_params(kernel, addr, len)[i] == boot_params(kernel, other_addr, other_len)[i],
{
}

} // verus!
