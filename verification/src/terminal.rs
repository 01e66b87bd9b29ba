//! The terminal settings under which key presses reach the guest at once.
use vstd::prelude::*;

verus! {

/// Local flag: input is handed over line by line.
pub const ICANON: u32 = 0x2;

/// Local flag: input is echoed.
pub const ECHO: u32 = 0x8;

/// Local flag: some keys send a signal.
pub const ISIG: u32 = 0x1;

/// Input flag: a carriage return is turned into a newline.
pub const ICRNL: u32 = 0x100;

/// Place of the least number of bytes that a read waits for.
pub const VMIN: usize = 6;

/// Place of the time that a read waits.
pub const VTIME: usize = 5;

/// File status flag: reads do not block.
pub const O_NONBLOCK: i32 = 0x800;

/// Reads `libc::ICANON`, which is this number on Linux on x86.
#[verifier::external_body]
fn libc_icanon() -> (flag: u32)
    ensures
        flag == ICANON,
{
    libc::ICANON
}

/// Reads `libc::ECHO`, which is this number on Linux on x86.
#[verifier::external_body]
fn libc_echo() -> (flag: u32)
    ensures
        flag == ECHO,
{
    libc::ECHO
}

/// Reads `libc::ICRNL`, which is this number on Linux on x86.
#[verifier::external_body]
fn libc_icrnl() -> (flag: u32)
    ensures
        flag == ICRNL,
{
    libc::ICRNL
}

/// Reads `libc::VMIN`, which is this number on Linux on x86.
#[verifier::external_body]
fn libc_vmin() -> (place: usize)
    ensures
        place == VMIN,
{
    libc::VMIN
}

/// Reads `libc::VTIME`, which is this number on Linux on x86.
#[verifier::external_body]
fn libc_vtime() -> (place: usize)
    ensures
        place == VTIME,
{
    libc::VTIME
}

/// Reads `libc::O_NONBLOCK`, which is this number on Linux on x86.
#[verifier::external_body]
fn libc_o_nonblock() -> (flag: i32)
    ensures
        flag == O_NONBLOCK,
{
    libc::O_NONBLOCK
}

/// The terminal attributes that raw mode is about.
#[derive(Clone, Copy, Debug, PartialEq, Eq)]
pub struct TerminalAttributes {
    pub c_iflag: u32,
    pub c_lflag: u32,
    pub c_cc: [u8; 32],
}

impl TerminalAttributes {
    /// Whether `raw` is `cooked` in raw mode: no line editing, no echo, carriage returns
    /// left alone, and reads that return at once; all else as before.
    pub open spec fn is_raw_of(raw: TerminalAttributes, cooked: TerminalAttributes) -> bool {
        &&& raw.c_lflag == cooked.c_lflag & !(ICANON | ECHO)
        &&& raw.c_iflag == cooked.c_iflag & !ICRNL
        &&& raw.c_cc@ == cooked.c_cc@.update(VMIN as int, 0).update(VTIME as int, 0)
    }

    /// The attributes for raw mode. Signal keys keep working.
    pub fn raw_mode(&self) -> (raw: TerminalAttributes)
        ensures
            TerminalAttributes::is_raw_of(raw, *self),
    {
        let mut raw = *self;
        raw.c_lflag = raw.c_lflag & !(libc_icanon() | libc_echo());
        raw.c_iflag = raw.c_iflag & !libc_icrnl();
        raw.c_cc[libc_vmin()] = 0;
        raw.c_cc[libc_vtime()] = 0;
        raw
    }
}

/// File status flags with non-blocking reads.
pub open spec fn with_nonblocking(flags: i32) -> i32 {
    flags | O_NONBLOCK
}

/// How many bytes a read that returned `n` has delivered.
pub open spec fn delivered_bytes(n: int) -> int {
    if n > 0 {
        n
    } else {
        0
    }
}

/// File status flags with non-blocking reads.
pub fn nonblocking(flags: i32) -> (result: i32)
    ensures
        result == with_nonblocking(flags),
{
    flags | libc_o_nonblock()
}

/// How many bytes a read that returned `n` has delivered: none at the end of input, where
/// nothing was there to read, or on an error.
pub fn bytes_available(n: isize) -> (count: usize)
    ensures
        count == delivered_bytes(n as int),
{
    if n > 0 {
        n as usize
    } else {
        0
    }
}

/// In raw mode, lines are not edited, input is not echoed and carriage returns are left
/// alone; the signal keys, and every other flag, are as before.
pub proof fn law_raw_mode_flags(raw: TerminalAttributes, cooked: TerminalAttributes)
    requires
        TerminalAttributes::is_raw_of(raw, cooked),
    ensures
        raw.c_lflag & ICANON == 0,
        raw.c_lflag & ECHO == 0,
        raw.c_iflag & ICRNL == 0,
        raw.c_lflag & ISIG == cooked.c_lflag & ISIG,
        raw.c_lflag | ICANON | ECHO == cooked.c_lflag | ICANON | ECHO,
        raw.c_iflag | ICRNL == cooked.c_iflag | ICRNL,
{
    let l = cooked.c_lflag;
    let i = cooked.c_iflag;
    assert((l & !(0x2u32 | 0x8)) & 0x2 == 0 && (l & !(0x2u32 | 0x8)) & 0x8 == 0) by (bit_vector);
    assert((l & !(0x2u32 | 0x8)) & 0x1 == l & 0x1) by (bit_vector);
    assert((l & !(0x2u32 | 0x8)) | 0x2 | 0x8 == l | 0x2 | 0x8) by (bit_vector);
    assert((i & !0x100u32) & 0x100 == 0 && (i & !0x100u32) | 0x100 == i | 0x100) by (bit_vector);
}

/// Raw mode of a terminal in raw mode changes nothing.
pub proof fn law_raw_mode_is_idempotent(
    twice: TerminalAttributes,
    raw: TerminalAttributes,
    cooked: TerminalAttributes,
)
    requires
        TerminalAttributes::is_raw_of(raw, cooked),
        TerminalAttributes::is_raw_of(twice, raw),
    ensures
        twice.c_lflag == raw.c_lflag,
        twice.c_iflag == raw.c_iflag,
        twice.c_cc@ == raw.c_cc@,
{
    let l = cooked.c_lflag;
    let i = cooked.c_iflag;
    assert((l & !(0x2u32 | 0x8)) & !(0x2u32 | 0x8) == l & !(0x2u32 | 0x8)) by (bit_vector);
    assert((i & !0x100u32) & !0x100u32 == i & !0x100u32) by (bit_vector);
    assert(twice.c_cc@ =~= raw.c_cc@);
}

/// In raw mode, bits 1 and 3 of the local flags and bit 8 of the input flags are clear and
/// all others as before; the control characters in places 5 and 6 are 0 and all others as
/// before.
pub proof fn law_raw_mode_bits(raw: TerminalAttributes, cooked: TerminalAttributes)
    requires
        TerminalAttributes::is_raw_of(raw, cooked),
    ensures
        raw.c_lflag & 0xA == 0,
        raw.c_lflag & 0xFFFF_FFF5 == cooked.c_lflag & 0xFFFF_FFF5,
        raw.c_iflag & 0x100 == 0,
        raw.c_iflag & 0xFFFF_FEFF == cooked.c_iflag & 0xFFFF_FEFF,
        raw.c_cc@[5] == 0,
        raw.c_cc@[6] == 0,
        forall|k: int|
            0 <= k < 32 && k != 5 && k != 6 ==> #[trigger] raw.c_cc@[k] == cooked.c_cc@[k],
{
    let l = cooked.c_lflag;
    let i = cooked.c_iflag;
    assert((l & !(0x2u32 | 0x8)) & 0xA == 0 && (l & !(0x2u32 | 0x8)) & 0xFFFF_FFF5 == l
        & 0xFFFF_FFF5) by (bit_vector);
    assert((i & !0x100u32) & 0x100 == 0 && (i & !0x100u32) & 0xFFFF_FEFF == i & 0xFFFF_FEFF)
        by (bit_vector);
}

/// Bit 11 of the file status flags is set, and all others are as before.
pub proof fn law_nonblocking(flags: i32)
    ensures
        with_nonblocking(flags) & 0x800 == 0x800,
        with_nonblocking(flags) & !0x800 == flags & !0x800,
        with_nonblocking(with_nonblocking(flags)) == with_nonblocking(flags),
{
    assert((flags | 0x800) & 0x800 == 0x800 && (flags | 0x800) & !0x800 == flags & !0x800)
        by (bit_vector);
    assert((flags | 0x800) | 0x800 == flags | 0x800) by (bit_vector);
}

/// A read delivers as many bytes as it says, and none where it says none or fails.
pub proof fn law_delivered_bytes(n: int)
    ensures
        n >= 0 ==> delivered_bytes(n) == n,
        n <= 0 ==> delivered_bytes(n) == 0,
{
}

} // verus!
