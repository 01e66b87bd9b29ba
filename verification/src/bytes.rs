//! Byte sequences: little-endian numbers, and one sequence laid over another.
use vstd::prelude::*;

verus! {

/// `mem` with `data` laid over it from `at` on; what of `data` would lie past the end of
/// `mem` is dropped.
pub open spec fn overlay(mem: Seq<u8>, at: int, data: Seq<u8>) -> Seq<u8> {
    Seq::new(
        mem.len(),
        |i: int|
            if at <= i < at + data.len() {
                data[i - at]
            } else {
                mem[i]
            },
    )
}

/// The `n` low bytes of `value`, lowest first.
pub open spec fn le_bytes(value: nat, n: nat) -> Seq<u8>
    decreases n,
{
    if n == 0 {
        Seq::empty()
    } else {
        seq![(value % 256) as u8] + le_bytes(value / 256, (n - 1) as nat)
    }
}

/// The number that `bytes` spell, lowest byte first.
pub open spec fn le_value(bytes: Seq<u8>) -> nat
    decreases bytes.len(),
{
    if bytes.len() == 0 {
        0
    } else {
        bytes[0] as nat + 256 * le_value(bytes.drop_first())
    }
}

/// The number in the `n` bytes of `mem` from `at` on, lowest byte first.
pub open spec fn read_le(mem: Seq<u8>, at: int, n: int) -> nat {
    le_value(mem.subrange(at, at + n))
}

/// One more than the largest number that `n` bytes can spell.
pub open spec fn pow256(n: nat) -> nat
    decreases n,
{
    if n == 0 {
        1
    } else {
        256 * pow256((n - 1) as nat)
    }
}

/// `n` bytes are `n` bytes long.
pub proof fn lemma_le_bytes_len(value: nat, n: nat)
    ensures
        le_bytes(value, n).len() == n,
    decreases n,
{
    if n > 0 {
        lemma_le_bytes_len(value / 256, (n - 1) as nat);
    }
}

/// A number that fits in `n` bytes is spelled by its `n` low bytes.
pub proof fn lemma_le_round_trip(value: nat, n: nat)
    requires
        value < pow256(n),
    ensures
        le_value(le_bytes(value, n)) == value,
    decreases n,
{
    if n > 0 {
        let rest = le_bytes(value / 256, (n - 1) as nat);
        lemma_le_round_trip(value / 256, (n - 1) as nat);
        assert(le_bytes(value, n).drop_first() =~= rest);
    }
}

/// Zeros spell 0.
pub proof fn lemma_zeros_value(bytes: Seq<u8>)
    requires
        forall|i: int| 0 <= i < bytes.len() ==> #[trigger] bytes[i] == 0,
    ensures
        le_value(bytes) == 0,
    decreases bytes.len(),
{
    if bytes.len() > 0 {
        lemma_zeros_value(bytes.drop_first());
    }
}

/// What four and eight bytes can spell.
pub proof fn lemma_pow256()
    ensures
        pow256(4) == 0x1_0000_0000,
        pow256(8) == 0x1_0000_0000_0000_0000,
{
    reveal_with_fuel(pow256, 9);
}

/// A read gives back what was laid down, if all of it lies inside the memory.
pub proof fn law_overlay_read(mem: Seq<u8>, at: int, data: Seq<u8>)
    requires
        0 <= at,
        at + data.len() <= mem.len(),
    ensures
        overlay(mem, at, data).subrange(at, at + data.len()) == data,
{
    assert(overlay(mem, at, data).subrange(at, at + data.len()) =~= data);
}

/// A range that the laid down bytes do not touch keeps its bytes.
pub proof fn law_overlay_frame(mem: Seq<u8>, at: int, data: Seq<u8>, from: int, to: int)
    requires
        0 <= from <= to <= mem.len(),
        to <= at || at + data.len() <= from,
    ensures
        overlay(mem, at, data).subrange(from, to) == mem.subrange(from, to),
{
    assert(overlay(mem, at, data).subrange(from, to) =~= mem.subrange(from, to));
}

/// The `n` low bytes of `value`, lowest first.
pub fn low_bytes(value: u64, n: usize) -> (bytes: Vec<u8>)
    ensures
        bytes@ == le_bytes(value as nat, n as nat),
{
    let mut bytes: Vec<u8> = Vec::new();
    let mut rest: u64 = value;
    let mut i: usize = 0;
    assert(bytes@ + le_bytes(rest as nat, n as nat) =~= le_bytes(value as nat, n as nat));
    while i < n
        invariant
            i <= n,
            bytes@ + le_bytes(rest as nat, (n - i) as nat) == le_bytes(value as nat, n as nat),
        decreases n - i,
    {
        proof {
            let low = (rest as nat % 256) as u8;
            let high = le_bytes(rest as nat / 256, (n - i - 1) as nat);
            assert(bytes@ + (seq![low] + high) =~= bytes@.push(low) + high);
        }
        bytes.push((rest % 256) as u8);
        rest = rest / 256;
        i = i + 1;
    }
    assert(bytes@ + le_bytes(rest as nat, 0) =~= bytes@);
    bytes
}

/// Laying bytes down changes the bytes that they cover to themselves, and no others.
pub proof fn law_overlay_byte(mem: Seq<u8>, at: int, data: Seq<u8>, i: int)
    requires
        0 <= i < mem.len(),
    ensures
        overlay(mem, at, data).len() == mem.len(),
        at <= i < at + data.len() ==> overlay(mem, at, data)[i] == data[i - at],
        i < at || at + data.len() <= i ==> overlay(mem, at, data)[i] == mem[i],
{
}

/// The low bytes of a number are its digits to base 256, the lowest first.
pub proof fn law_le_bytes(value: nat)
    ensures
        le_bytes(value, 4) == seq![
            (value % 256) as u8,
            (value / 0x100 % 256) as u8,
            (value / 0x1_0000 % 256) as u8,
            (value / 0x100_0000 % 256) as u8,
        ],
        le_bytes(value, 8) == seq![
            (value % 256) as u8,
            (value / 0x100 % 256) as u8,
            (value / 0x1_0000 % 256) as u8,
            (value / 0x100_0000 % 256) as u8,
            (value / 0x1_0000_0000 % 256) as u8,
            (value / 0x100_0000_0000 % 256) as u8,
            (value / 0x1_0000_0000_0000 % 256) as u8,
            (value / 0x100_0000_0000_0000 % 256) as u8,
        ],
{
    reveal_with_fuel(le_bytes, 9);
    assert(value / 256 / 256 == value / 0x1_0000);
    assert(value / 256 / 256 / 256 == value / 0x100_0000);
    assert(value / 256 / 256 / 256 / 256 == value / 0x1_0000_0000);
    assert(value / 256 / 256 / 256 / 256 / 256 == value / 0x100_0000_0000);
    assert(value / 256 / 256 / 256 / 256 / 256 / 256 == value / 0x1_0000_0000_0000);
    assert(value / 256 / 256 / 256 / 256 / 256 / 256 / 256 == value / 0x100_0000_0000_0000);
    assert(le_bytes(value, 4) =~= seq![
        (value % 256) as u8,
        (value / 0x100 % 256) as u8,
        (value / 0x1_0000 % 256) as u8,
        (value / 0x100_0000 % 256) as u8,
    ]);
    assert(le_bytes(value, 8) =~= seq![
        (value % 256) as u8,
        (value / 0x100 % 256) as u8,
        (value / 0x1_0000 % 256) as u8,
        (value / 0x100_0000 % 256) as u8,
        (value / 0x1_0000_0000 % 256) as u8,
        (value / 0x100_0000_0000 % 256) as u8,
        (value / 0x1_0000_0000_0000 % 256) as u8,
        (value / 0x100_0000_0000_0000 % 256) as u8,
    ]);
}

/// One more low byte is the next digit, behind the others.
pub proof fn law_le_bytes_step(value: nat, n: nat)
    ensures
        le_bytes(value, 0) == Seq::<u8>::empty(),
        le_bytes(value, n + 1)[0] == value % 256,
        le_bytes(value, n + 1).drop_first() == le_bytes(value / 256, n),
{
    assert(le_bytes(value, n + 1).drop_first() =~= le_bytes(value / 256, n));
}

/// What two and four bytes spell.
pub proof fn law_le_value(bytes: Seq<u8>)
    ensures
        bytes.len() == 2 ==> le_value(bytes) == bytes[0] + 0x100 * bytes[1],
        bytes.len() == 4 ==> le_value(bytes) == bytes[0] + 0x100 * bytes[1] + 0x1_0000 * bytes[2]
            + 0x100_0000 * bytes[3],
{
    reveal_with_fuel(le_value, 5);
}

} // verus!
