//! Integers in little-endian byte order.

use vstd::prelude::*;

verus! {

/// The lowest `width` bytes of `x`, least significant first.
pub open spec fn le_bytes(x: nat, width: nat) -> Seq<u8>
    decreases width,
{
    if width == 0 {
        Seq::empty()
    } else {
        seq![(x % 256) as u8] + le_bytes(x / 256, (width - 1) as nat)
    }
}

/// The number that a byte sequence denotes, least significant byte first.
pub open spec fn le_value(bytes: Seq<u8>) -> nat
    decreases bytes.len(),
{
    if bytes.len() == 0 {
        0
    } else {
        bytes[0] as nat + 256 * le_value(bytes.drop_first())
    }
}

/// The number of values that `width` bytes can hold.
pub open spec fn le_range(width: nat) -> nat
    decreases width,
{
    if width == 0 {
        1
    } else {
        256 * le_range((width - 1) as nat)
    }
}

/// The sizes of the integer types, in bytes.
pub proof fn le_range_of_integers()
    ensures
        le_range(2) == 0x1_0000,
        le_range(4) == 0x1_0000_0000,
        le_range(8) == 0x1_0000_0000_0000_0000,
{
    reveal_with_fuel(le_range, 9);
}

/// An encoding has the width that was asked for.
pub proof fn le_bytes_len(x: nat, width: nat)
    ensures
        le_bytes(x, width).len() == width,
    decreases width,
{
    if width > 0 {
        le_bytes_len(x / 256, (width - 1) as nat);
    }
}

/// Reading an encoding gives back the number, if the width can hold it.
pub proof fn le_value_of_le_bytes(x: nat, width: nat)
    requires
        x < le_range(width),
    ensures
        le_value(le_bytes(x, width)) == x,
    decreases width,
{
    if width > 0 {
        let rest = le_bytes(x / 256, (width - 1) as nat);
        le_value_of_le_bytes(x / 256, (width - 1) as nat);
        assert(le_bytes(x, width).drop_first() =~= rest);
        assert(le_bytes(x, width)[0] == (x % 256) as u8);
    }
}

/// A byte sequence denotes a number that fits in its width, and is that number's encoding.
pub proof fn le_bytes_of_le_value(bytes: Seq<u8>)
    ensures
        le_value(bytes) < le_range(bytes.len()),
        le_bytes(le_value(bytes), bytes.len()) == bytes,
    decreases bytes.len(),
{
    if bytes.len() > 0 {
        let rest = bytes.drop_first();
        le_bytes_of_le_value(rest);
        let x = le_value(bytes);
        assert(x % 256 == bytes[0] as nat);
        assert(x / 256 == le_value(rest));
        assert(seq![bytes[0]] + rest =~= bytes);
    }
}

/// Appends the lowest `width` bytes of a number.
pub fn append_le(out: &mut Vec<u8>, number: u64, width: usize)
    ensures
        final(out)@ == old(out)@ + le_bytes(number as nat, width as nat),
{
    let mut rest: u64 = number;
    let mut left: usize = width;
    assert(out@ + le_bytes(rest as nat, left as nat) =~= old(out)@ + le_bytes(
        number as nat,
        width as nat,
    ));
    while left > 0
        invariant
            out@ + le_bytes(rest as nat, left as nat) == old(out)@ + le_bytes(
                number as nat,
                width as nat,
            ),
        decreases left,
    {
        let ghost before = out@;
        out.push((rest % 256) as u8);
        assert(out@ + le_bytes((rest / 256) as nat, (left - 1) as nat) =~= before + le_bytes(
            rest as nat,
            left as nat,
        ));
        rest = rest / 256;
        left = left - 1;
    }
    assert(out@ =~= out@ + le_bytes(rest as nat, 0));
}

/// Reads a number of at most eight bytes.
pub fn read_le(bytes: &[u8]) -> (number: u64)
    requires
        bytes@.len() <= 8,
    ensures
        number == le_value(bytes@),
{
    let mut value: u64 = 0;
    let mut i: usize = bytes.len();
    proof {
        assert(bytes@.skip(i as int) =~= Seq::<u8>::empty());
        reveal_with_fuel(le_range, 9);
    }
    while i > 0
        invariant
            i <= bytes@.len() <= 8,
            value == le_value(bytes@.skip(i as int)),
        decreases i,
    {
        i = i - 1;
        let ghost tail = bytes@.skip(i as int);
        proof {
            assert(tail.drop_first() =~= bytes@.skip(i + 1));
            assert(tail[0] == bytes@[i as int]);
            le_bytes_of_le_value(tail);
            reveal_with_fuel(le_range, 9);
            assert(le_value(tail) < 0x1_0000_0000_0000_0000);
        }
        value = bytes[i] as u64 + 256 * value;
    }
    assert(bytes@.skip(0) =~= bytes@);
    value
}

/// The bytes of a number count from the lowest on: what follows some bytes counts as often as
/// there are values of those bytes.
pub proof fn lower_bytes_come_first(low: Seq<u8>, high: Seq<u8>, byte: u8)
    ensures
        le_value(low + high) == le_value(low) + le_range(low.len()) * le_value(high),
        le_value(seq![byte]) == byte,
        le_range(low.len() + 1) == 256 * le_range(low.len()),
        le_range(0) == 1,
    decreases low.len(),
{
    assert(seq![byte].drop_first() =~= Seq::<u8>::empty());
    assert(le_value(seq![byte].drop_first()) == 0);
    if low.len() == 0 {
        assert(low + high =~= high);
        let value = le_value(high) as int;
        let range = le_range(low.len()) as int;
        assert(range * value == value) by (nonlinear_arith)
            requires
                range == 1,
        ;
    } else {
        let rest = low.drop_first();
        lower_bytes_come_first(rest, high, byte);
        assert((low + high).drop_first() =~= rest + high);
        let range = le_range(rest.len()) as int;
        let value = le_value(high) as int;
        assert(256 * (range * value) == (256 * range) * value) by (nonlinear_arith);
    }
}

} // verus!
