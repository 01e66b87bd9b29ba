use vm_memory::{Bytes, GuestAddress, GuestMemoryError};
use vmm_demo::boot::{initrd_load_addr, BootError};
use vmm_demo::boot_params::build_boot_params;
use vmm_demo::bytes::low_bytes;
use vmm_demo::cmdline::{cmdline_len, CMDLINE_STR};
use vmm_demo::cpu::{DescriptorTable, GeneralRegisters, Segment, SystemRegisters};
use vmm_demo::kernel::KernelError;
use vmm_demo::layout::GUEST_MEM_SIZE;
use vmm_demo::memory::{memory_region, GuestRam, MemoryError};

fn image(setup_sects: u8, load: u32, payload: &[u8]) -> Vec<u8> {
    let sectors = if setup_sects == 0 { 4 } else { setup_sects as usize };
    let mut image = vec![0xEEu8; (sectors + 1) * 512];
    image[0x1F1] = setup_sects;
    image[0x202..0x206].copy_from_slice(b"HdrS");
    image[0x206..0x208].copy_from_slice(&0x020Fu16.to_le_bytes());
    image[0x210] = 0;
    image[0x211] = 0x81;
    image[0x214..0x218].copy_from_slice(&load.to_le_bytes());
    image.extend_from_slice(payload);
    image
}

fn read(ram: &GuestRam, addr: u64, len: usize) -> Vec<u8> {
    let mut buf = vec![0u8; len];
    ram.mapping().read_slice(&mut buf, GuestAddress(addr)).unwrap();
    buf
}

fn read_u64(ram: &GuestRam, addr: u64) -> u64 {
    u64::from_le_bytes(read(ram, addr, 8).try_into().unwrap())
}

#[test]
fn bytes_come_lowest_first() {
    assert_eq!(low_bytes(0x1122_3344_5566_7788, 8), 0x1122_3344_5566_7788u64.to_le_bytes());
    assert_eq!(low_bytes(0x1122_3344_5566_7788, 4), [0x88, 0x77, 0x66, 0x55]);
    assert!(low_bytes(1, 0).is_empty());
}

#[test]
fn written_bytes_are_read_back() {
    let mut ram = GuestRam::new().unwrap();
    ram.write_slice(&[1, 2, 3], 0x1234).unwrap();
    ram.write_u64(0x0102_0304_0506_0708, 0x1237).unwrap();
    assert_eq!(read(&ram, 0x1233, 13), [0, 1, 2, 3, 8, 7, 6, 5, 4, 3, 2, 1, 0]);
}

#[test]
fn writes_past_the_end_fail() {
    let mut ram = GuestRam::new().unwrap();
    assert!(ram.write_slice(&[1, 2], GUEST_MEM_SIZE - 2).is_ok());
    assert!(matches!(
        ram.write_slice(&[7, 8, 9], GUEST_MEM_SIZE - 2),
        Err(MemoryError::NotStored(GuestMemoryError::PartialBuffer { expected: 3, completed: 2 }))
    ));
    assert_eq!(read(&ram, GUEST_MEM_SIZE - 2, 2), [7, 8]);
    assert!(ram.write_slice(&[1], GUEST_MEM_SIZE).is_err());
    assert!(ram.write_slice(&[1], u64::MAX).is_err());
    assert!(ram.write_slice(&[], u64::MAX).is_ok());
    assert!(ram.write_u64(1, GUEST_MEM_SIZE - 8).is_ok());
    assert!(ram.write_u64(u64::MAX, GUEST_MEM_SIZE - 7).is_err());
}

#[test]
fn memory_region_covers_all_memory() {
    let region = memory_region(0x7F00_0000_1000);
    assert_eq!((region.slot, region.flags, region.guest_phys_addr), (0, 0, 0));
    assert_eq!(region.memory_size, 128 << 20);
    assert_eq!(region.userspace_addr, 0x7F00_0000_1000);
}

#[test]
fn kernel_is_loaded_where_it_asks() {
    let mut ram = GuestRam::new().unwrap();
    let kernel = ram.load_kernel(&image(1, 0x10_0000, &[1, 2, 3, 4])).unwrap();
    assert_eq!(kernel.kernel_load, 0x10_0000);
    assert_eq!(kernel.kernel_end, 0x10_0004);
    assert_eq!(read(&ram, 0xF_FFFF, 6), [0, 1, 2, 3, 4, 0]);
}

#[test]
fn no_setup_sectors_means_four() {
    let mut ram = GuestRam::new().unwrap();
    let kernel = ram.load_kernel(&image(0, 0x20_0000, &[5; 600])).unwrap();
    assert_eq!(kernel.kernel_end, 0x20_0000 + 600);
    assert_eq!(read(&ram, 0x20_0000, 600), [5; 600]);
}

#[test]
fn images_of_another_kind_are_refused() {
    let mut ram = GuestRam::new().unwrap();
    let mut no_magic = image(1, 0x10_0000, &[1]);
    no_magic[0x202] = b'h';
    let mut old = image(1, 0x10_0000, &[1]);
    old[0x206..0x208].copy_from_slice(&0x01FFu16.to_le_bytes());
    let mut low = image(1, 0x10_0000, &[1]);
    low[0x211] = 0x80;
    for image in [no_magic, old, low, vec![], vec![0; 0x1F0], vec![0; 0x204]] {
        assert!(matches!(ram.load_kernel(&image), Err(KernelError::InvalidImage)));
    }
    assert_eq!(read(&ram, 0x10_0000, 1), [0]);
}

#[test]
fn an_empty_kernel_fits_anywhere() {
    let mut ram = GuestRam::new().unwrap();
    let kernel = ram.load_kernel(&image(1, 0xFFFF_FFFF, &[])).unwrap();
    assert_eq!((kernel.kernel_load, kernel.kernel_end), (0xFFFF_FFFF, 0xFFFF_FFFF));
}

#[test]
fn truncated_images_are_refused() {
    let mut ram = GuestRam::new().unwrap();
    let mut image = image(4, 0x10_0000, &[]);
    assert_eq!(ram.load_kernel(&image).unwrap().kernel_end, 0x10_0000);
    image.pop();
    assert!(matches!(ram.load_kernel(&image), Err(KernelError::Truncated)));
}

#[test]
fn kernels_that_do_not_fit_are_refused() {
    let mut ram = GuestRam::new().unwrap();
    let end = GUEST_MEM_SIZE as u32;
    assert!(ram.load_kernel(&image(1, end - 2, &[1, 2])).is_ok());
    assert!(matches!(
        ram.load_kernel(&image(1, end - 2, &[3, 4, 5])),
        Err(KernelError::DoesNotFit)
    ));
    assert_eq!(read(&ram, GUEST_MEM_SIZE - 2, 2), [3, 4]);
    assert!(matches!(
        ram.load_kernel(&image(1, 0xFFFF_FFFF, &[1])),
        Err(KernelError::DoesNotFit)
    ));
}

#[test]
fn command_line_is_stored_with_a_terminator() {
    let mut ram = GuestRam::new().unwrap();
    ram.write_slice(&[0xFF; 64], 0x20000).unwrap();
    ram.load_command_line().unwrap();
    assert_eq!(CMDLINE_STR, "console=ttyS0 reboot=t panic=1 quiet");
    assert_eq!(cmdline_len(), 36);
    assert_eq!(read(&ram, 0x20000, 38), b"console=ttyS0 reboot=t panic=1 quiet\0\xFF");
}

#[test]
fn initramfs_goes_to_the_end_of_memory() {
    assert_eq!(initrd_load_addr(0), Some(0x0800_0000));
    assert_eq!(initrd_load_addr(1), Some(0x07FF_F000));
    assert_eq!(initrd_load_addr(0x1000), Some(0x07FF_F000));
    assert_eq!(initrd_load_addr(0x1001), Some(0x07FF_E000));
    assert_eq!(initrd_load_addr(GUEST_MEM_SIZE), Some(0));
    assert_eq!(initrd_load_addr(GUEST_MEM_SIZE + 1), None);
    assert_eq!(initrd_load_addr(u64::MAX), None);
    let mut ram = GuestRam::new().unwrap();
    assert_eq!(ram.load_initrd(b"070701").unwrap(), 0x07FF_F000);
    assert_eq!(read(&ram, 0x07FF_F000, 7), b"070701\0");
    assert_eq!(ram.load_initrd(b"").unwrap(), 0x0800_0000);
}

#[test]
fn boot_params_are_filled_in() {
    let kernel = image(1, 0x10_0000, &[0xCC; 64]);
    let page = build_boot_params(&kernel, 0x07AB_C000, 0x54_3210);
    let mut expected = vec![0u8; 4096];
    expected[0x1F1..0x280].copy_from_slice(&kernel[0x1F1..0x280]);
    expected[0x1E8] = 1;
    expected[0x210] = 0xFF;
    expected[0x211] = 0xC1;
    expected[0x218..0x21C].copy_from_slice(&0x07AB_C000u32.to_le_bytes());
    expected[0x21C..0x220].copy_from_slice(&0x54_3210u32.to_le_bytes());
    expected[0x228..0x22C].copy_from_slice(&0x20000u32.to_le_bytes());
    expected[0x238..0x23C].copy_from_slice(&36u32.to_le_bytes());
    expected[0x2D8..0x2E0].copy_from_slice(&0x0800_0000u64.to_le_bytes());
    expected[0x2E0] = 1;
    assert_eq!(page.to_vec(), expected);
}

#[test]
fn boot_params_of_a_short_image_end_in_zeros() {
    let page = build_boot_params(&[0xAB; 0x200], 0, 0);
    assert_eq!(page[0x1F0], 0);
    assert_eq!(page[0x1F1], 0xAB);
    assert_eq!(page[0x1FF], 0xAB);
    assert_eq!(page[0x200], 0);
    assert_eq!(page[0x211], 0x41);
    let page = build_boot_params(&[], 0, 0);
    assert_eq!(page[0x1F1], 0);
}

#[test]
fn page_tables_map_the_first_gigabyte_to_itself() {
    let mut ram = GuestRam::new().unwrap();
    ram.write_page_tables().unwrap();
    assert_eq!(read_u64(&ram, 0x9000), 0xA003);
    assert_eq!(read_u64(&ram, 0x9008), 0);
    assert_eq!(read_u64(&ram, 0xA000), 0xB003);
    assert_eq!(read_u64(&ram, 0xA008), 0);
    for i in 0..512u64 {
        assert_eq!(read_u64(&ram, 0xB000 + i * 8), (i << 21) | 0x83);
    }
    assert_eq!(read_u64(&ram, 0xC000), 0);
}

#[test]
fn gdt_holds_code_and_data() {
    let mut ram = GuestRam::new().unwrap();
    ram.write_slice(&[0xFF; 48], 0x4F8).unwrap();
    ram.write_gdt().unwrap();
    assert_eq!(read_u64(&ram, 0x4F8), u64::MAX);
    assert_eq!(read_u64(&ram, 0x500), 0);
    assert_eq!(read_u64(&ram, 0x508), 0x00AF_9A00_0000_FFFF);
    assert_eq!(read_u64(&ram, 0x510), 0x00CF_9200_0000_FFFF);
    assert_eq!(read_u64(&ram, 0x518), 0);
    assert_eq!(read_u64(&ram, 0x520), u64::MAX);
}

#[test]
fn prepared_memory_leads_the_kernel_to_all_it_needs() {
    let mut ram = GuestRam::new().unwrap();
    let kernel = image(1, 0x10_0000, &[0x90; 0x300]);
    let loaded = ram.load_kernel(&kernel).unwrap();
    let initrd = vec![0x5Au8; 0x2345];
    let addr = ram.prepare_boot(&kernel, &initrd).unwrap();
    assert_eq!(addr, 0x07FF_D000);
    let regs = GeneralRegisters::kernel_entry(loaded.kernel_load);
    assert_eq!(read(&ram, regs.rip, 0x101), [vec![0x90; 0x100], vec![0]].concat());
    let params = build_boot_params(&kernel, addr, initrd.len());
    assert_eq!(read(&ram, regs.rsi, 4096), params.to_vec());
    let ramdisk = u32::from_le_bytes(read(&ram, regs.rsi + 0x218, 4).try_into().unwrap());
    assert_eq!(read(&ram, ramdisk as u64, initrd.len()), initrd);
    let text = u32::from_le_bytes(read(&ram, regs.rsi + 0x228, 4).try_into().unwrap());
    assert_eq!(read(&ram, text as u64, 37), b"console=ttyS0 reboot=t panic=1 quiet\0");
    assert_eq!(read_u64(&ram, 0x9000), 0xA003);
    assert_eq!(read_u64(&ram, 0x508), 0x00AF_9A00_0000_FFFF);
}

#[test]
fn tables_cover_an_initramfs_that_fills_memory() {
    let mut ram = GuestRam::new().unwrap();
    let initrd = vec![0x11u8; GUEST_MEM_SIZE as usize];
    assert_eq!(ram.prepare_boot(&[], &initrd).unwrap(), 0);
    assert_eq!(read_u64(&ram, 0x9000), 0xA003);
    assert_eq!(read_u64(&ram, 0x9008), 0x1111_1111_1111_1111);
    assert_eq!(read(&ram, 0x20000, 2), [0x11, 0x11]);
}

#[test]
fn initramfs_larger_than_memory_is_refused() {
    let mut ram = GuestRam::new().unwrap();
    let initrd = vec![0x11u8; GUEST_MEM_SIZE as usize + 1];
    assert!(matches!(ram.load_initrd(&initrd), Err(BootError::InitrdTooLarge)));
    assert_eq!(read_u64(&ram, 0), 0);
    assert!(matches!(ram.prepare_boot(&[], &initrd), Err(BootError::InitrdTooLarge)));
    assert_eq!(read(&ram, 0x20000, 7), b"console");
    assert_eq!(read_u64(&ram, 0x9000), 0);
}

fn unset() -> Segment {
    Segment {
        base: 7,
        limit: 7,
        selector: 7,
        type_: 7,
        present: 7,
        dpl: 7,
        db: 7,
        s: 7,
        l: 7,
        g: 7,
        avl: 7,
        unusable: 7,
    }
}

#[test]
fn system_registers_enter_long_mode() {
    let table = DescriptorTable { base: 3, limit: 3 };
    let mut regs = SystemRegisters {
        cs: unset(),
        ds: unset(),
        es: unset(),
        fs: unset(),
        gs: unset(),
        ss: unset(),
        tr: unset(),
        ldt: unset(),
        gdt: table,
        idt: table,
        cr0: 1,
        cr2: 2,
        cr3: 3,
        cr4: 4,
        cr8: 8,
        efer: 9,
        apic_base: 10,
        interrupt_bitmap: [11; 4],
    };
    regs.enter_long_mode();
    let data = Segment {
        base: 0,
        limit: 0xFFFF_FFFF,
        selector: 0x10,
        type_: 3,
        present: 1,
        dpl: 0,
        db: 1,
        s: 1,
        l: 0,
        g: 1,
        avl: 0,
        unusable: 0,
    };
    assert_eq!(regs.cs, Segment { selector: 0x08, type_: 11, db: 0, l: 1, ..data });
    for segment in [regs.ds, regs.es, regs.fs, regs.gs, regs.ss] {
        assert_eq!(segment, data);
    }
    assert_eq!((regs.tr, regs.ldt, regs.idt), (unset(), unset(), table));
    assert_eq!(regs.gdt, DescriptorTable { base: 0x500, limit: 31 });
    assert_eq!((regs.cr0, regs.cr3, regs.cr4), (0x8005_0033, 0x9000, 0x20));
    assert_eq!((regs.efer, regs.cr2, regs.cr8, regs.apic_base), (0xD00, 2, 8, 10));
    assert_eq!(regs.interrupt_bitmap, [11; 4]);
}

#[test]
fn general_registers_point_at_the_kernel() {
    let regs = GeneralRegisters::kernel_entry(0x10_0000);
    assert_eq!((regs.rip, regs.rsi, regs.rflags), (0x10_0200, 0x7000, 0x2));
    let rest = [
        regs.rax, regs.rbx, regs.rcx, regs.rdx, regs.rdi, regs.rsp, regs.rbp, regs.r8, regs.r9,
        regs.r10, regs.r11, regs.r12, regs.r13, regs.r14, regs.r15,
    ];
    assert_eq!(rest, [0; 15]);
}
