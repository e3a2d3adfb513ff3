//! What holds of the two codecs taken together.

use crate::primitive::{decoding, encoding, Primitive};
use crate::wire::{
    le_bytes, le_value, lemma_le_bytes_index, lemma_le_bytes_len, lemma_value_of_bytes, radix,
};
use vstd::prelude::*;

verus! {

/// The widths of the primitive types, in bytes.
pub proof fn law_widths()
    ensures
        u8::spec_width() == 1,
        i8::spec_width() == 1,
        bool::spec_width() == 1,
        u16::spec_width() == 2,
        i16::spec_width() == 2,
        u32::spec_width() == 4,
        i32::spec_width() == 4,
        u64::spec_width() == 8,
        i64::spec_width() == 8,
{
}

/// An encoding is exactly as long as its type is wide: no codec sends or
/// takes more bytes than that, or fewer.
pub proof fn law_exact_width<T: Primitive>(value: T)
    ensures
        encoding(value).len() == T::spec_width(),
{
    lemma_le_bytes_len(value.spec_bits(), T::spec_width());
}

/// The byte order of the wire: the byte at `index` of an encoding is the
/// digit of the bit pattern that counts 256 to the power `index`. The least
/// significant byte is sent first, whatever machine runs the code.
pub proof fn law_byte_order<T: Primitive>(value: T, index: nat)
    requires
        index < T::spec_width(),
    ensures
        encoding(value)[index as int] == ((value.spec_bits() / radix(index)) % 256) as u8,
{
    lemma_le_bytes_index(value.spec_bits(), T::spec_width(), index);
}

/// Decoding an encoding gives back the value that was encoded, bit for bit.
/// This holds of either codec: both write `encoding(value)` and both read
/// with `decoding`.
pub proof fn law_round_trip<T: Primitive>(value: T)
    ensures
        decoding::<T>(encoding(value)) == value,
{
    value.lemma_bits();
    lemma_value_of_bytes(value.spec_bits(), T::spec_width());
}

/// The round trip through a buffer or a field that is longer than the value
/// is wide: whatever follows the encoding, decoding looks at the encoding
/// alone.
pub proof fn law_round_trip_in_buffer<T: Primitive>(value: T, rest: Seq<u8>)
    ensures
        decoding::<T>((encoding(value) + rest).take(T::spec_width() as int)) == value,
{
    law_exact_width(value);
    law_round_trip(value);
    assert((encoding(value) + rest).take(T::spec_width() as int) =~= encoding(value));
}

/// A `bool` is one byte on the wire: `true` is 1 and `false` is 0. Read back,
/// the byte 1 is `true` and every other byte is `false`.
pub proof fn law_bool_mapping(byte: u8)
    ensures
        encoding(true) == seq![1u8],
        encoding(false) == seq![0u8],
        decoding::<bool>(seq![byte]) == (byte == 1),
{
    reveal_with_fuel(le_bytes, 2);
    reveal_with_fuel(le_value, 2);
    assert(encoding(true) =~= seq![1u8]);
    assert(encoding(false) =~= seq![0u8]);
}

} // verus!
