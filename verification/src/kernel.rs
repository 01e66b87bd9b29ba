//! Loading a bzImage kernel into guest memory.
use linux_loader::loader::bzimage::{BzImage, Error as BzImageError};
use linux_loader::loader::{Error as LoaderError, KernelLoader};
use std::io::Cursor;
use vstd::prelude::*;

use crate::bytes::{law_le_value, le_value, overlay};
use crate::layout::GUEST_MEM_SIZE;
use crate::memory::{fits, GuestRam};

verus! {

/// `linux_loader::loader::Error`; its values are opaque.
#[verifier::external_type_specification]
#[verifier::external_body]
pub struct ExLoaderError(linux_loader::loader::Error);

/// Offset of the setup header in a kernel image.
pub const SETUP_HEADER: usize = 0x1F1;

/// Offset at which the boot protocol keeps the number of setup sectors.
pub const SETUP_SECTS: usize = 0x1F1;

/// Offset of the magic number of the boot protocol.
pub const HEADER_MAGIC: usize = 0x202;

/// Offset of the version of the boot protocol.
pub const HEADER_VERSION: usize = 0x206;

/// Offset of the load flags.
pub const LOADFLAGS: usize = 0x211;

/// Offset of the address at which the kernel asks to be loaded.
pub const CODE32_START: usize = 0x214;

/// The letters `HdrS`, lowest first.
pub const HDRS_MAGIC: u32 = 0x5372_6448;

/// Byte `at` of a kernel image, 0 past its end.
pub open spec fn image_byte(image: Seq<u8>, at: int) -> u8 {
    if 0 <= at < image.len() {
        image[at]
    } else {
        0
    }
}

/// The number in the `n` bytes of a kernel image from `at` on, lowest byte first.
pub open spec fn image_field(image: Seq<u8>, at: int, n: nat) -> nat {
    le_value(Seq::new(n, |k: int| image_byte(image, at + k)))
}

/// Whether an image is a bzImage: the magic number, boot protocol 2.00 or later, and the
/// load flag for high memory.
pub open spec fn is_bzimage(image: Seq<u8>) -> bool {
    &&& image_field(image, HEADER_MAGIC as int, 4) == HDRS_MAGIC
    &&& image_field(image, HEADER_VERSION as int, 2) >= 0x200
    &&& image_byte(image, LOADFLAGS as int) % 2 == 1
}

/// Bytes in front of the protected-mode kernel: the boot sector and the setup sectors,
/// which are four where the image says none.
pub open spec fn setup_size(image: Seq<u8>) -> int {
    let sectors = image_byte(image, SETUP_SECTS as int);
    512 * (1 + if sectors == 0 {
        4
    } else {
        sectors as int
    })
}

/// The protected-mode kernel inside an image.
pub open spec fn payload(image: Seq<u8>) -> Seq<u8> {
    image.skip(setup_size(image))
}

/// The guest address at which an image asks to be loaded.
pub open spec fn load_address(image: Seq<u8>) -> nat {
    image_field(image, CODE32_START as int, 4)
}

/// Whether the loader gets as far as storing the kernel.
pub open spec fn is_loadable(image: Seq<u8>) -> bool {
    is_bzimage(image) && setup_size(image) <= image.len()
}

/// What loading an image into `size` bytes of memory returns.
pub open spec fn load_outcome(size: nat, image: Seq<u8>) -> Result<LoadedKernel, KernelError> {
    if !is_bzimage(image) {
        Err(KernelError::InvalidImage)
    } else if setup_size(image) > image.len() {
        Err(KernelError::Truncated)
    } else if fits(size, load_address(image) as int, payload(image).len()) {
        Ok(
            LoadedKernel {
                kernel_load: load_address(image) as u64,
                kernel_end: (load_address(image) + payload(image).len()) as u64,
            },
        )
    } else {
        Err(KernelError::DoesNotFit)
    }
}

/// What memory holds after an image was loaded, or as much of it as fits.
pub open spec fn memory_with_kernel(mem: Seq<u8>, image: Seq<u8>) -> Seq<u8> {
    if is_loadable(image) {
        overlay(mem, load_address(image) as int, payload(image))
    } else {
        mem
    }
}

/// Where a kernel lies in guest memory.
#[derive(Clone, Copy, Debug, PartialEq, Eq, Structural)]
pub struct LoadedKernel {
    /// Guest address of its first byte.
    pub kernel_load: u64,
    /// Guest address past its last byte.
    pub kernel_end: u64,
}

/// Why a kernel was not loaded.
#[derive(Debug)]
pub enum KernelError {
    /// The image is not a bzImage.
    InvalidImage,
    /// The image ends inside its setup sectors.
    Truncated,
    /// The kernel does not lie inside guest memory as a whole.
    DoesNotFit,
    /// The loader gave up for another reason.
    Loader(LoaderError),
}

/// Calls `BzImage::load` on an image in memory, with neither a load address nor a start of
/// high memory given. An image that is no bzImage, or that ends before its setup sectors
/// do, is refused with memory untouched. Any other image has its payload stored at the
/// address that its header asks for, as far as that lies inside memory; the call succeeds
/// if and only if all of it does. The loader's other errors do not come: an image in memory
/// can be read and sought without fail.
#[verifier::external_body]
fn load_bzimage(ram: &mut GuestRam, image: &[u8]) -> (result: Result<LoadedKernel, KernelError>)
    requires
        old(ram).is_flat(),
    ensures
        final(ram).is_flat(),
        final(ram)@ == memory_with_kernel(old(ram)@, image@),
        result == load_outcome(old(ram)@.len(), image@),
{
    match BzImage::load(&ram.mem, None, &mut Cursor::new(image), None) {
        Ok(kernel) => Ok(
            LoadedKernel { kernel_load: kernel.kernel_load.0, kernel_end: kernel.kernel_end },
        ),
        Err(LoaderError::Bzimage(BzImageError::InvalidBzImage)) => Err(KernelError::InvalidImage),
        Err(LoaderError::Bzimage(BzImageError::Underflow)) => Err(KernelError::Truncated),
        Err(LoaderError::Bzimage(BzImageError::ReadBzImageCompressedKernel)) => Err(
            KernelError::DoesNotFit,
        ),
        Err(error) => Err(KernelError::Loader(error)),
    }
}

impl GuestRam {
    /// Loads the bzImage `image` at the address that it asks for.
    pub fn load_kernel(&mut self, image: &[u8]) -> (result: Result<LoadedKernel, KernelError>)
        requires
            old(self).wf(),
        ensures
            final(self).wf(),
            final(self)@ == memory_with_kernel(old(self)@, image@),
            result == load_outcome(GUEST_MEM_SIZE as nat, image@),
    {
        load_bzimage(self, image)
    }
}

/// A kernel image that holds a whole setup header is loaded if and only if the letters
/// `HdrS` stand at 0x202, the boot protocol at 0x206 is 2.00 or later, bit 0 of the byte at
/// 0x211 is set, the image reaches to the end of its setup sectors (four where the byte at
/// 0x1F1 is 0) and the rest of it lies inside memory from the address at 0x214 on. It is
/// then loaded there, as long as that rest is.
pub proof fn law_what_is_loaded(size: nat, image: Seq<u8>)
    requires
        image.len() >= 0x218,
    ensures
        ({
            let sectors = image[0x1F1] as int;
            let start = if sectors == 0 {
                0xA00
            } else {
                512 * sectors + 512
            };
            let rest = image.len() - start;
            let addr = image[0x214] + 0x100 * image[0x215] + 0x1_0000 * image[0x216] + 0x100_0000
                * image[0x217];
            let bzimage = {
                &&& image[0x202] == 0x48
                &&& image[0x203] == 0x64
                &&& image[0x204] == 0x72
                &&& image[0x205] == 0x53
                &&& image[0x207] >= 2
                &&& image[0x211] & 0x01 != 0
            };
            match load_outcome(size, image) {
                Ok(loaded) => {
                    &&& bzimage && rest >= 0 && (rest == 0 || addr + rest <= size)
                    &&& loaded.kernel_load == addr
                    &&& addr + rest <= u64::MAX ==> loaded.kernel_end - loaded.kernel_load == rest
                },
                Err(KernelError::InvalidImage) => !bzimage,
                Err(KernelError::Truncated) => bzimage && rest < 0,
                Err(KernelError::DoesNotFit) => bzimage && rest > 0 && addr + rest > size,
                Err(KernelError::Loader(_)) => false,
            }
        }),
{
    let flags = image[0x211];
    assert(flags & 0x01 != 0 <==> flags % 2 == 1) by (bit_vector);
    lemma_header_fields(image);
}

/// The numbers in the setup header of an image that holds all of it.
proof fn lemma_header_fields(image: Seq<u8>)
    requires
        image.len() >= 0x218,
    ensures
        image_field(image, 0x202, 4) == HDRS_MAGIC <==> image[0x202] == 0x48 && image[0x203] == 0x64
            && image[0x204] == 0x72 && image[0x205] == 0x53,
        image_field(image, 0x206, 2) == image[0x206] + 0x100 * image[0x207],
        image_field(image, 0x214, 4) == image[0x214] + 0x100 * image[0x215] + 0x1_0000
            * image[0x216] + 0x100_0000 * image[0x217],
{
    law_le_value(Seq::new(4, |k: int| image_byte(image, 0x202 + k)));
    law_le_value(Seq::new(2, |k: int| image_byte(image, 0x206 + k)));
    law_le_value(Seq::new(4, |k: int| image_byte(image, 0x214 + k)));
}

/// An image that does not even hold a setup header is never loaded.
pub proof fn law_short_images_are_refused(size: nat, image: Seq<u8>, mem: Seq<u8>)
    requires
        image.len() < 0x218,
    ensures
        load_outcome(size, image) is Err,
        memory_with_kernel(mem, image) == mem,
{
}

/// Loading changes those bytes of memory that the rest of the image, from the end of its
/// setup sectors on, covers, and no others, also where not all of that rest fits; an image
/// that is refused for what it is changes nothing.
pub proof fn law_what_loading_changes(mem: Seq<u8>, image: Seq<u8>, i: int)
    requires
        image.len() >= 0x218,
        0 <= i < mem.len(),
    ensures
        ({
            let sectors = image[0x1F1] as int;
            let start = if sectors == 0 {
                0xA00
            } else {
                512 * sectors + 512
            };
            let addr = image[0x214] + 0x100 * image[0x215] + 0x1_0000 * image[0x216] + 0x100_0000
                * image[0x217];
            let covered = addr <= i && i - addr + start < image.len();
            let after = memory_with_kernel(mem, image);
            &&& after.len() == mem.len()
            &&& match load_outcome(mem.len(), image) {
                Ok(_) | Err(KernelError::DoesNotFit) => after[i] == if covered {
                    image[i - addr + start]
                } else {
                    mem[i]
                },
                _ => after == mem,
            }
        }),
{
    lemma_header_fields(image);
}

} // verus!
