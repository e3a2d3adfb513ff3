//! The wire format: an unsigned number written in base 256, least significant
//! byte first.
//!
//! Every primitive is put on the wire as the digits of its bit pattern. The
//! order of the digits is fixed: it does not follow the byte order of the
//! machine that runs the code. On a little-endian machine the bytes on the
//! wire are the bytes of the value in memory.

use vstd::arithmetic::div_mod::lemma_div_denominator;
use vstd::prelude::*;

verus! {

/// The number of values that `width` bytes can tell apart: 256 to the power
/// `width`.
pub open spec fn radix(width: nat) -> nat
    decreases width,
{
    if width == 0 {
        1
    } else {
        256 * radix((width - 1) as nat)
    }
}

/// The `width` lowest digits of `value` in base 256, least significant first.
pub open spec fn le_bytes(value: nat, width: nat) -> Seq<u8>
    decreases width,
{
    if width == 0 {
        Seq::empty()
    } else {
        seq![(value % 256) as u8] + le_bytes(value / 256, (width - 1) as nat)
    }
}

/// The number whose digits in base 256 are `bytes`, least significant first.
pub open spec fn le_value(bytes: Seq<u8>) -> nat
    decreases bytes.len(),
{
    if bytes.len() == 0 {
        0
    } else {
        bytes[0] as nat + 256 * le_value(bytes.drop_first())
    }
}

/// The radix of each width up to eight bytes, written out.
pub proof fn lemma_radix_values()
    ensures
        radix(0) == 1,
        radix(1) == 0x100,
        radix(2) == 0x1_0000,
        radix(3) == 0x100_0000,
        radix(4) == 0x1_0000_0000,
        radix(5) == 0x100_0000_0000,
        radix(6) == 0x1_0000_0000_0000,
        radix(7) == 0x100_0000_0000_0000,
        radix(8) == 0x1_0000_0000_0000_0000,
{
    reveal_with_fuel(radix, 9);
}

/// A wider field holds at least as many values.
pub proof fn lemma_radix_monotonic(narrow: nat, wide: nat)
    requires
        narrow <= wide,
    ensures
        1 <= radix(narrow) <= radix(wide),
    decreases wide,
{
    if wide == 0 {
    } else if narrow == wide {
        lemma_radix_monotonic((narrow - 1) as nat, (wide - 1) as nat);
    } else {
        lemma_radix_monotonic(narrow, (wide - 1) as nat);
    }
}

/// An encoding is exactly as long as the width it was made for.
pub proof fn lemma_le_bytes_len(value: nat, width: nat)
    ensures
        le_bytes(value, width).len() == width,
    decreases width,
{
    if width > 0 {
        lemma_le_bytes_len(value / 256, (width - 1) as nat);
    }
}

/// The byte at `index` is the digit of `value` that counts `radix(index)`: the
/// least significant digit comes first.
pub proof fn lemma_le_bytes_index(value: nat, width: nat, index: nat)
    requires
        index < width,
    ensures
        le_bytes(value, width)[index as int] == ((value / radix(index)) % 256) as u8,
    decreases width,
{
    let rest = le_bytes(value / 256, (width - 1) as nat);
    lemma_le_bytes_len(value / 256, (width - 1) as nat);
    if index == 0 {
        assert(le_bytes(value, width)[0] == (value % 256) as u8);
    } else {
        let before: nat = (index - 1) as nat;
        lemma_le_bytes_index(value / 256, (width - 1) as nat, before);
        lemma_radix_monotonic(0, before);
        lemma_div_denominator(value as int, 256, radix(before) as int);
        assert(le_bytes(value, width)[index as int] == rest[before as int]);
        assert((value / 256) / radix(before) == value / radix(index));
    }
}

/// A byte string spells a number below the radix of its length.
pub proof fn lemma_le_value_bound(bytes: Seq<u8>)
    ensures
        le_value(bytes) < radix(bytes.len()),
    decreases bytes.len(),
{
    if bytes.len() > 0 {
        lemma_le_value_bound(bytes.drop_first());
    }
}

/// Reading back the digits of a number that fits in `width` bytes gives the
/// number.
pub proof fn lemma_value_of_bytes(value: nat, width: nat)
    requires
        value < radix(width),
    ensures
        le_value(le_bytes(value, width)) == value,
    decreases width,
{
    if width > 0 {
        let rest = le_bytes(value / 256, (width - 1) as nat);
        lemma_le_bytes_len(value / 256, (width - 1) as nat);
        lemma_value_of_bytes(value / 256, (width - 1) as nat);
        assert(le_bytes(value, width).drop_first() =~= rest);
    }
}

/// Overwrites the first `width` bytes of `sink` with the `width` lowest digits
/// of `value`, and leaves every later byte as it was.
pub(crate) fn store_le(value: u64, width: usize, sink: &mut [u8])
    requires
        width <= old(sink)@.len(),
    ensures
        final(sink)@.len() == old(sink)@.len(),
        final(sink)@.take(width as int) == le_bytes(value as nat, width as nat),
        final(sink)@.skip(width as int) == old(sink)@.skip(width as int),
{
    let mut rest: u64 = value;
    let mut done: usize = 0;
    while done < width
        invariant
            done <= width <= sink@.len(),
            sink@.len() == old(sink)@.len(),
            sink@.skip(width as int) == old(sink)@.skip(width as int),
            sink@.take(done as int) + le_bytes(rest as nat, (width - done) as nat) == le_bytes(
                value as nat,
                width as nat,
            ),
        decreases width - done,
    {
        let ghost before = sink@;
        sink[done] = (rest % 256) as u8;
        proof {
            let tail = le_bytes((rest / 256) as nat, (width - done - 1) as nat);
            assert(sink@.take(done + 1) =~= before.take(done as int).push((rest % 256) as u8));
            assert(sink@.take(done + 1) + tail =~= before.take(done as int) + le_bytes(
                rest as nat,
                (width - done) as nat,
            ));
            assert(sink@.skip(width as int) =~= before.skip(width as int));
        }
        rest = rest / 256;
        done = done + 1;
    }
    proof {
        assert(sink@.take(width as int) =~= sink@.take(width as int) + Seq::<u8>::empty());
    }
}

/// The number that the first `width` bytes of `source` spell.
pub(crate) fn load_le(source: &[u8], width: usize) -> (value: u64)
    requires
        width <= 8,
        width <= source@.len(),
    ensures
        value == le_value(source@.take(width as int)),
        value < radix(width as nat),
{
    let ghost field = source@.take(width as int);
    let mut value: u64 = 0;
    let mut left: usize = width;
    while left > 0
        invariant
            left <= width <= 8,
            width <= source@.len(),
            field == source@.take(width as int),
            value == le_value(field.skip(left as int)),
        decreases left,
    {
        proof {
            let upper = field.skip(left as int);
            let grown = field.skip(left - 1);
            lemma_le_value_bound(upper);
            lemma_radix_monotonic(upper.len(), 7);
            lemma_radix_values();
            assert(grown.drop_first() =~= upper);
            assert(grown[0] == source@[left - 1]);
        }
        left = left - 1;
        value = value * 256 + source[left] as u64;
    }
    proof {
        assert(field.skip(0) =~= field);
        lemma_le_value_bound(field);
    }
    value
}

} // verus!
