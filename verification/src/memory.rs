//! Guest physical memory, as the `vm-memory` crate maps it into this process.
use vm_memory::mmap::FromRangesError;
use vm_memory::{Bytes, GuestAddress, GuestMemoryError, GuestMemoryMmap};
use vstd::prelude::*;

use crate::bytes::{le_bytes, overlay};
use crate::layout::GUEST_MEM_SIZE;

verus! {

/// `vm_memory::GuestRegionCollection`, of which `GuestMemoryMmap` is an instance; its
/// values are opaque.
#[verifier::external_type_specification]
#[verifier::external_body]
#[verifier::reject_recursive_types(R)]
pub struct ExGuestRegionCollection<R>(vm_memory::GuestRegionCollection<R>);

/// `vm_memory::GuestRegionMmap`, the regions of a `GuestMemoryMmap`; its values are
/// opaque.
#[verifier::external_type_specification]
#[verifier::external_body]
#[verifier::reject_recursive_types(B)]
pub struct ExGuestRegionMmap<B>(vm_memory::GuestRegionMmap<B>);

/// `vm_memory::GuestMemoryError`, the error of a write; its values are opaque.
#[verifier::external_type_specification]
#[verifier::external_body]
pub struct ExGuestMemoryError(vm_memory::GuestMemoryError);

/// `vm_memory::mmap::FromRangesError`, the error of mapping memory; its values are opaque.
#[verifier::external_type_specification]
#[verifier::external_body]
pub struct ExFromRangesError(vm_memory::mmap::FromRangesError);

/// The bytes that guest memory holds, from guest address 0 on.
pub uninterp spec fn ram_bytes(mem: GuestMemoryMmap<()>) -> Seq<u8>;

/// Whether guest memory is a single region of at least one byte that starts at guest
/// address 0 and is mapped for reading and writing, as `GuestMemoryMmap::from_ranges` maps
/// it.
pub uninterp spec fn ram_is_flat(mem: GuestMemoryMmap<()>) -> bool;

/// Whether `len` bytes can be stored at `addr` in `size` bytes of memory; no bytes can be
/// stored anywhere.
pub open spec fn fits(size: nat, addr: int, len: nat) -> bool {
    len == 0 || addr + len <= size
}

/// Calls `GuestMemoryMmap::from_ranges` for one region of `size` bytes at guest address 0.
/// If the operating system grants the mapping, memory is that one region. Not claimed:
/// when the mapping is granted, and what the fresh memory holds; the operating system
/// decides both.
#[verifier::external_body]
fn map_region(size: usize) -> (result: Result<GuestMemoryMmap<()>, FromRangesError>)
    requires
        size > 0,
    ensures
        result matches Ok(mem) ==> ram_is_flat(mem) && ram_bytes(mem).len() == size,
{
    GuestMemoryMmap::<()>::from_ranges(&[(GuestAddress(0), size)])
}

/// Calls `Bytes::write_slice` on guest memory. It succeeds if and only if `buf` is empty
/// or lies inside memory as a whole. What of `buf` lies inside memory is stored, also when
/// the call fails; nothing else changes.
#[verifier::external_body]
fn write_bytes(mem: &mut GuestMemoryMmap<()>, buf: &[u8], addr: u64) -> (result: Result<
    (),
    GuestMemoryError,
>)
    requires
        ram_is_flat(*old(mem)),
    ensures
        ram_is_flat(*final(mem)),
        ram_bytes(*final(mem)) == overlay(ram_bytes(*old(mem)), addr as int, buf@),
        result is Ok <==> fits(ram_bytes(*old(mem)).len(), addr as int, buf@.len()),
{
    mem.write_slice(buf, GuestAddress(addr))
}

/// Calls `Bytes::write_obj` on guest memory for a `u64`, which stores the eight bytes that
/// the number has in the memory of this machine. `linux_loader` has its bzImage loader on
/// x86 alone, so this crate builds there alone, and the lowest byte comes first. It
/// succeeds if and only if the eight bytes lie inside memory.
#[verifier::external_body]
fn write_number(mem: &mut GuestMemoryMmap<()>, value: u64, addr: u64) -> (result: Result<
    (),
    GuestMemoryError,
>)
    requires
        ram_is_flat(*old(mem)),
    ensures
        ram_is_flat(*final(mem)),
        ram_bytes(*final(mem)) == overlay(
            ram_bytes(*old(mem)),
            addr as int,
            le_bytes(value as nat, 8),
        ),
        result is Ok <==> fits(ram_bytes(*old(mem)).len(), addr as int, 8),
{
    mem.write_obj(value, GuestAddress(addr))
}

/// Why guest memory could not be had or written.
#[derive(Debug)]
pub enum MemoryError {
    /// The operating system did not grant the mapping.
    NotMapped(FromRangesError),
    /// Not all of what was to be stored lies inside memory.
    NotStored(GuestMemoryError),
}

/// A stretch of guest memory, as a virtual machine is told of it.
#[derive(Clone, Copy, Debug, PartialEq, Eq, Structural)]
pub struct MemoryRegion {
    pub slot: u32,
    pub flags: u32,
    pub guest_phys_addr: u64,
    pub memory_size: u64,
    pub userspace_addr: u64,
}

/// All of guest memory as one region, which this process has mapped at `host_addr`.
pub open spec fn region_at(host_addr: u64) -> MemoryRegion {
    MemoryRegion {
        slot: 0,
        flags: 0,
        guest_phys_addr: 0,
        memory_size: GUEST_MEM_SIZE,
        userspace_addr: host_addr,
    }
}

/// All of guest memory as one region, which this process has mapped at `host_addr`.
pub fn memory_region(host_addr: u64) -> (region: MemoryRegion)
    ensures
        region == region_at(host_addr),
{
    MemoryRegion {
        slot: 0,
        flags: 0,
        guest_phys_addr: 0,
        memory_size: GUEST_MEM_SIZE,
        userspace_addr: host_addr,
    }
}

/// The memory of the guest before it runs.
pub struct GuestRam {
    pub(crate) mem: GuestMemoryMmap<()>,
}

impl View for GuestRam {
    type V = Seq<u8>;

    closed spec fn view(&self) -> Seq<u8> {
        ram_bytes(self.mem)
    }
}

impl GuestRam {
    /// Whether memory is one region from guest address 0 on that can be read and written.
    pub closed spec fn is_flat(&self) -> bool {
        ram_is_flat(self.mem)
    }

    /// Memory is one region of the guest's size, from guest address 0 on.
    pub open spec fn wf(&self) -> bool {
        self.is_flat() && self@.len() == GUEST_MEM_SIZE
    }

    /// Maps the memory of a guest. Whether that succeeds is for the operating system to
    /// say.
    pub fn new() -> (result: Result<GuestRam, MemoryError>)
        ensures
            match result {
                Ok(ram) => ram.wf(),
                Err(error) => error is NotMapped,
            },
    {
        match map_region(GUEST_MEM_SIZE as usize) {
            Ok(mem) => Ok(GuestRam { mem }),
            Err(error) => Err(MemoryError::NotMapped(error)),
        }
    }

    /// The mapping behind the memory, for reading it and for handing it to a virtual
    /// machine. Nothing may be written through it, nor through a clone of it, which shares
    /// the same pages: the view of this memory would no longer be what it holds. The same
    /// comes about once the guest runs, so the view speaks of memory before that.
    pub fn mapping(&self) -> (mem: &GuestMemoryMmap<()>)
        ensures
            ram_bytes(*mem) == self@,
            ram_is_flat(*mem) == self.is_flat(),
    {
        &self.mem
    }

    /// Stores `buf` at `addr`.
    pub fn write_slice(&mut self, buf: &[u8], addr: u64) -> (result: Result<(), MemoryError>)
        requires
            old(self).wf(),
        ensures
            final(self).wf(),
            final(self)@ == overlay(old(self)@, addr as int, buf@),
            result is Ok <==> fits(GUEST_MEM_SIZE as nat, addr as int, buf@.len()),
            result matches Err(error) ==> error is NotStored,
    {
        match write_bytes(&mut self.mem, buf, addr) {
            Ok(()) => Ok(()),
            Err(error) => Err(MemoryError::NotStored(error)),
        }
    }

    /// Stores `value` at `addr`, lowest byte first.
    pub fn write_u64(&mut self, value: u64, addr: u64) -> (result: Result<(), MemoryError>)
        requires
            old(self).wf(),
        ensures
            final(self).wf(),
            final(self)@ == overlay(old(self)@, addr as int, le_bytes(value as nat, 8)),
            result is Ok <==> fits(GUEST_MEM_SIZE as nat, addr as int, 8),
            result matches Err(error) ==> error is NotStored,
    {
        match write_number(&mut self.mem, value, addr) {
            Ok(()) => Ok(()),
            Err(error) => Err(MemoryError::NotStored(error)),
        }
    }
}

/// Bytes can be stored if and only if there are none, or the last of them lies inside
/// memory.
pub proof fn law_fits(size: nat, addr: int, len: nat)
    ensures
        fits(size, addr, 0),
        len > 0 ==> (fits(size, addr, len) <==> addr + len - 1 < size),
{
}

/// The virtual machine is told of all 128 MB of guest memory, from guest address 0 on, in
/// slot 0 without flags, at whatever address this process has mapped them.
pub proof fn law_region(host_addr: u64, other: u64)
    ensures
        region_at(host_addr).userspace_addr == host_addr,
        region_at(host_addr).guest_phys_addr == 0,
        region_at(host_addr).memory_size == 0x0800_0000,
        region_at(host_addr).slot == 0,
        region_at(host_addr).flags == 0,
        region_at(host_addr) == region_at(other) <==> host_addr == other,
{
}

} // verus!
