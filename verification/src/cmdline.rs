//! The kernel command line.
use linux_loader::cmdline::{Cmdline, Error as CmdlineError};
use linux_loader::loader::Error as LoaderError;
use vm_memory::GuestAddress;
use vstd::prelude::*;

use crate::bytes::overlay;
use crate::layout::{CMDLINE_ADDR, GUEST_MEM_SIZE};
use crate::memory::GuestRam;

verus! {

/// `linux_loader::cmdline::Cmdline`, which builds a command line; its values are opaque.
#[verifier::external_type_specification]
#[verifier::external_body]
pub struct ExCmdline(linux_loader::cmdline::Cmdline);

/// `linux_loader::cmdline::Error`; its values are opaque.
#[verifier::external_type_specification]
#[verifier::external_body]
pub struct ExCmdlineError(linux_loader::cmdline::Error);

/// What the kernel is told on its command line.
pub const CMDLINE_STR: &'static str = "console=ttyS0 reboot=t panic=1 quiet";

/// Room for the command line, its terminator counted.
pub const CMDLINE_CAPACITY: usize = 256;

/// The boot arguments that a command line holds. A command line that was built otherwise
/// than here may hold any characters.
pub uninterp spec fn boot_args(cmdline: Cmdline) -> Seq<char>;

/// The arguments for init that a command line holds.
pub uninterp spec fn init_args(cmdline: Cmdline) -> Seq<char>;

/// The room that a command line was made with.
pub uninterp spec fn capacity(cmdline: Cmdline) -> nat;

/// Whether a text is printable ASCII.
pub open spec fn is_printable(text: Seq<char>) -> bool {
    forall|i: int| 0 <= i < text.len() ==> ' ' <= #[trigger] text[i] <= '~'
}

/// A text without the spaces at its two ends.
pub open spec fn trim_spaces(text: Seq<char>) -> Seq<char>
    decreases text.len(),
{
    if text.len() > 0 && text[0] == ' ' {
        trim_spaces(text.drop_first())
    } else if text.len() > 0 && text.last() == ' ' {
        trim_spaces(text.drop_last())
    } else {
        text
    }
}

/// Boot arguments followed by one more.
pub open spec fn joined(args: Seq<char>, arg: Seq<char>) -> Seq<char> {
    if args.len() == 0 {
        arg
    } else {
        args.push(' ') + arg
    }
}

/// The bytes of an ASCII text, with a terminating zero.
pub open spec fn c_string(text: Seq<char>) -> Seq<u8> {
    Seq::new(text.len(), |i: int| text[i] as u8).push(0)
}

/// Calls `Cmdline::new`, which refuses a capacity of 0 and otherwise makes an empty
/// command line.
#[verifier::external_body]
fn new_cmdline(room: usize) -> (result: Result<Cmdline, CmdlineError>)
    ensures
        result is Ok <==> room > 0,
        result matches Ok(cmdline) ==> {
            &&& boot_args(cmdline) == Seq::<char>::empty()
            &&& init_args(cmdline) == Seq::<char>::empty()
            &&& capacity(cmdline) == room
        },
{
    Cmdline::new(room)
}

/// Calls `Cmdline::insert_str` with a printable text on a command line with printable boot
/// arguments, each of whose characters is one byte, and without arguments for init. The
/// text is trimmed and goes behind the boot arguments, after a space where there are any.
/// The call fails, with the command line unchanged, if and only if the result and its
/// terminator would not fit.
#[verifier::external_body]
fn insert_text(cmdline: &mut Cmdline, text: &str) -> (result: Result<(), CmdlineError>)
    requires
        is_printable(text@),
        is_printable(boot_args(*old(cmdline))),
        init_args(*old(cmdline)).len() == 0,
    ensures
        result is Ok <==> joined(boot_args(*old(cmdline)), trim_spaces(text@)).len() + 1
            <= capacity(*old(cmdline)),
        boot_args(*final(cmdline)) == (if result is Ok {
            joined(boot_args(*old(cmdline)), trim_spaces(text@))
        } else {
            boot_args(*old(cmdline))
        }),
        init_args(*final(cmdline)) == init_args(*old(cmdline)),
        capacity(*final(cmdline)) == capacity(*old(cmdline)),
{
    cmdline.insert_str(text)
}

/// Calls `load_cmdline` with a command line with printable boot arguments, so that no zero
/// stands among them, and without arguments for init. The boot arguments and a terminating
/// zero are stored at `addr` if they lie inside memory as a whole; otherwise the call fails
/// and memory is unchanged.
#[verifier::external_body]
fn store_cmdline(ram: &mut GuestRam, addr: u64, cmdline: &Cmdline) -> (result: Result<
    (),
    LoaderError,
>)
    requires
        old(ram).wf(),
        is_printable(boot_args(*cmdline)),
        init_args(*cmdline).len() == 0,
    ensures
        final(ram).wf(),
        result is Ok <==> addr + c_string(boot_args(*cmdline)).len() <= GUEST_MEM_SIZE,
        final(ram)@ == (if result is Ok {
            overlay(old(ram)@, addr as int, c_string(boot_args(*cmdline)))
        } else {
            old(ram)@
        }),
{
    linux_loader::loader::load_cmdline(&ram.mem, GuestAddress(addr), cmdline)
}

/// Why the command line was not stored.
#[derive(Debug)]
pub enum CommandLineError {
    /// It could not be built.
    Build(CmdlineError),
    /// It could not be stored.
    Load(LoaderError),
}

/// The command line is 36 printable characters, with a space at neither end, and as many
/// bytes.
pub proof fn lemma_cmdline_text()
    ensures
        CMDLINE_STR@.len() == 36,
        is_printable(CMDLINE_STR@),
        trim_spaces(CMDLINE_STR@) == CMDLINE_STR@,
        vstd::utf8::encode_utf8(CMDLINE_STR@).len() == 36,
{
    reveal_strlit("console=ttyS0 reboot=t panic=1 quiet");
    assert(vstd::utf8::is_ascii_chars(CMDLINE_STR@));
    vstd::utf8::is_ascii_chars_encode_utf8(CMDLINE_STR@);
}

impl GuestRam {
    /// Stores the command line, with its terminator, where the boot parameters point.
    pub fn load_command_line(&mut self) -> (result: Result<(), CommandLineError>)
        requires
            old(self).wf(),
        ensures
            result is Ok,
            final(self).wf(),
            final(self)@ == overlay(old(self)@, CMDLINE_ADDR as int, c_string(CMDLINE_STR@)),
    {
        proof {
            lemma_cmdline_text();
        }
        let mut cmdline = match new_cmdline(CMDLINE_CAPACITY) {
            Ok(cmdline) => cmdline,
            Err(error) => return Err(CommandLineError::Build(error)),
        };
        match insert_text(&mut cmdline, CMDLINE_STR) {
            Ok(()) => (),
            Err(error) => return Err(CommandLineError::Build(error)),
        }
        match store_cmdline(self, CMDLINE_ADDR, &cmdline) {
            Ok(()) => Ok(()),
            Err(error) => Err(CommandLineError::Load(error)),
        }
    }
}

/// Bytes of the command line, its terminator not counted.
pub fn cmdline_len() -> (len: u32)
    ensures
        len == CMDLINE_STR@.len(),
{
    proof {
        lemma_cmdline_text();
    }
    CMDLINE_STR.len() as u32
}

/// The bytes of a printable text are its characters, each as one byte, and a zero behind them;
/// two texts have the same bytes only if they are the same.
pub proof fn law_c_string(text: Seq<char>, other: Seq<char>)
    requires
        forall|i: int| 0 <= i < text.len() ==> ' ' <= #[trigger] text[i] <= '~',
        forall|i: int| 0 <= i < other.len() ==> ' ' <= #[trigger] other[i] <= '~',
    ensures
        c_string(text).len() == text.len() + 1,
        c_string(text)[text.len() as int] == 0,
        forall|i: int|
            0 <= i < text.len() ==> #[trigger] c_string(text)[i] as int == text[i] as int,
        c_string(text) == c_string(other) ==> text == other,
{
    if c_string(text) == c_string(other) {
        assert(c_string(other).len() == other.len() + 1);
        assert forall|i: int| 0 <= i < text.len() implies text[i] == other[i] by {
            assert(c_string(text)[i] == c_string(other)[i]);
        }
        assert(text =~= other);
    }
}

} // verus!
