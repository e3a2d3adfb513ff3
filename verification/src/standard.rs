//! The stream codec, without the stream: the caller moves the bytes, and the
//! codec says which bytes to send and what the bytes that came stand for.
//!
//! To decode, the caller reads exactly `T::width()` bytes from its stream into
//! the front of a field of eight bytes, which is room for the widest
//! primitive, and hands over what the read gave: the field, or the error. To
//! encode, the caller takes the bytes that the codec appends to `sink` and
//! writes all of them to its stream. One routine decodes and one encodes,
//! whatever the type.
//! [`StandardRead`] and [`StandardWrite`] offer them as methods of every
//! primitive.

use crate::primitive::{decoding, encoding, Primitive};
use crate::wire::{lemma_le_bytes_len, load_le, store_le};
use vstd::prelude::*;

verus! {

/// Finishes the decoding of `value` from a stream. `source` is what an exact
/// read of `T::width()` bytes gave: the field whose front the read filled, or
/// the error that the read ended with. The first `T::width()` bytes of the
/// field become the value, and the rest of the field is not looked at. An
/// error is passed on as it is, and `value` stays as it was.
pub fn decode_stream<T: Primitive, E>(value: &mut T, source: Result<[u8; 8], E>) -> (res: Result<
    (),
    E,
>)
    ensures
        source matches Ok(field) ==> res is Ok && *final(value) == decoding::<T>(
            field@.take(T::spec_width() as int),
        ),
        source matches Err(error) ==> res == Err::<(), E>(error) && *final(value) == *old(value),
{
    match source {
        Ok(field) => {
            *value = T::from_bits(load_le(field.as_slice(), T::width()));
            Ok(())
        },
        Err(error) => Err(error),
    }
}

/// Appends to `sink` the bytes that stand for `value`: what an exact write has
/// to send to the stream, `T::width()` bytes.
pub fn encode_stream<T: Primitive>(value: &T, sink: &mut Vec<u8>)
    ensures
        final(sink)@ == old(sink)@ + encoding(*value),
        final(sink)@.len() == old(sink)@.len() + T::spec_width(),
{
    let width: usize = T::width();
    let mut field = [0u8; 8];
    store_le(value.to_bits(), width, &mut field);
    sink.extend_from_slice(&field[0..width]);
    proof {
        lemma_le_bytes_len(value.spec_bits(), T::spec_width());
        assert(field@.subrange(0, width as int) =~= field@.take(width as int));
    }
}

/// Decoding from what an exact read gave.
pub trait StandardRead: Primitive {
    /// Finishes the decoding of the value from a stream, as [`decode_stream`]
    /// does.
    fn standard_read<E>(&mut self, source: Result<[u8; 8], E>) -> (res: Result<(), E>)
        ensures
            source matches Ok(field) ==> res is Ok && *final(self) == decoding::<Self>(
                field@.take(Self::spec_width() as int),
            ),
            source matches Err(error) ==> res == Err::<(), E>(error) && *final(self) == *old(
                self,
            ),
    ;
}

/// Encoding for an exact write.
pub trait StandardWrite: Primitive {
    /// Appends to `sink` the bytes that stand for the value, as
    /// [`encode_stream`] does.
    fn standard_write(&self, sink: &mut Vec<u8>)
        ensures
            final(sink)@ == old(sink)@ + encoding(*self),
            final(sink)@.len() == old(sink)@.len() + Self::spec_width(),
    ;
}

impl<T: Primitive> StandardRead for T {
    fn standard_read<E>(&mut self, source: Result<[u8; 8], E>) -> (res: Result<(), E>) {
        decode_stream(self, source)
    }
}

impl<T: Primitive> StandardWrite for T {
    fn standard_write(&self, sink: &mut Vec<u8>) {
        encode_stream(self, sink)
    }
}

} // verus!
