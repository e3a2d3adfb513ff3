//! The direct-buffer codec: a primitive is copied to or from the front of a
//! byte slice that the caller owns, after a check of the slice's length.
//!
//! One routine decodes and one encodes, whatever the type. [`BinaryRead`] and
//! [`BinaryWrite`] offer them as methods of every primitive.

use crate::primitive::{decoding, encoding, Primitive};
use crate::wire::{lemma_le_bytes_len, load_le, store_le};
use vstd::prelude::*;

verus! {

/// Decodes `value` from the first bytes of `source` and returns how many bytes
/// that took, which is the width of the type; what follows them in `source` is
/// not looked at. A `source` shorter than the width is refused with `Err(0)`,
/// and `value` stays as it was.
pub fn decode_slice<T: Primitive>(value: &mut T, source: &[u8]) -> (res: Result<u32, u32>)
    ensures
        source@.len() >= T::spec_width() ==> res == Ok::<u32, u32>(T::spec_width() as u32)
            && *final(value) == decoding::<T>(source@.take(T::spec_width() as int)),
        source@.len() < T::spec_width() ==> res == Err::<u32, u32>(0) && *final(value) == *old(
            value,
        ),
{
    let width: usize = T::width();
    if source.len() < width {
        Err(0)
    } else {
        *value = T::from_bits(load_le(source, width));
        Ok(width as u32)
    }
}

/// Encodes `value` into the first bytes of `sink` and returns how many bytes
/// that took, which is the width of the type; what follows them in `sink`
/// stays as it was. A `sink` shorter than the width is refused with `Err(0)`,
/// and nothing is written.
pub fn encode_slice<T: Primitive>(value: &T, sink: &mut [u8]) -> (res: Result<u32, u32>)
    ensures
        final(sink)@.len() == old(sink)@.len(),
        old(sink)@.len() >= T::spec_width() ==> res == Ok::<u32, u32>(T::spec_width() as u32)
            && final(sink)@ == encoding(*value) + old(sink)@.skip(T::spec_width() as int),
        old(sink)@.len() < T::spec_width() ==> res == Err::<u32, u32>(0) && final(sink)@ == old(
            sink,
        )@,
{
    let width: usize = T::width();
    if sink.len() < width {
        Err(0)
    } else {
        store_le(value.to_bits(), width, sink);
        proof {
            lemma_le_bytes_len(value.spec_bits(), T::spec_width());
            assert(sink@ =~= sink@.take(width as int) + sink@.skip(width as int));
        }
        Ok(width as u32)
    }
}

/// Decoding from a byte slice.
pub trait BinaryRead: Primitive {
    /// Decodes the value from the first bytes of `source`, as [`decode_slice`]
    /// does.
    fn binary_read(&mut self, source: &[u8]) -> (res: Result<u32, u32>)
        ensures
            source@.len() >= Self::spec_width() ==> res == Ok::<u32, u32>(
                Self::spec_width() as u32,
            ) && *final(self) == decoding::<Self>(source@.take(Self::spec_width() as int)),
            source@.len() < Self::spec_width() ==> res == Err::<u32, u32>(0) && *final(self)
                == *old(self),
    ;
}

/// Encoding into a byte slice.
pub trait BinaryWrite: Primitive {
    /// Encodes the value into the first bytes of `sink`, as [`encode_slice`]
    /// does.
    fn binary_write(&self, sink: &mut [u8]) -> (res: Result<u32, u32>)
        ensures
            final(sink)@.len() == old(sink)@.len(),
            old(sink)@.len() >= Self::spec_width() ==> res == Ok::<u32, u32>(
                Self::spec_width() as u32,
            ) && final(sink)@ == encoding(*self) + old(sink)@.skip(Self::spec_width() as int),
            old(sink)@.len() < Self::spec_width() ==> res == Err::<u32, u32>(0) && final(sink)@
                == old(sink)@,
    ;
}

impl<T: Primitive> BinaryRead for T {
    fn binary_read(&mut self, source: &[u8]) -> (res: Result<u32, u32>) {
        decode_slice(self, source)
    }
}

impl<T: Primitive> BinaryWrite for T {
    fn binary_write(&self, sink: &mut [u8]) -> (res: Result<u32, u32>) {
        encode_slice(self, sink)
    }
}

} // verus!
