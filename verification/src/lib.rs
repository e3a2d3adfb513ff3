//! Byte-level encoding of fixed-width primitive values: the integers of 8, 16,
//! 32 and 64 bits, signed and unsigned, and `bool`.
//!
//! Two codecs share one wire format. [`BinaryRead`] and [`BinaryWrite`] copy a
//! value from or to the front of a byte slice, after a check of the slice's
//! length. [`StandardRead`] and [`StandardWrite`] serve a byte stream: they
//! take what an exact read gave and say what an exact write has to send, and
//! leave the reading and the sending to the caller. Neither codec needs the
//! other, and neither keeps anything between two calls.
//!
//! The wire format is the value's bit pattern in little-endian byte order, on
//! every machine. On a little-endian machine this is the value as it lies in
//! memory. On a big-endian machine the bytes of a value in memory are in the
//! opposite order to its bytes on the wire.
//!
//! A floating-point number goes on the wire as its bit pattern, an unsigned
//! integer of the same width, so that every NaN and both zeros come back as
//! they went.
//!
//! [`wire`] defines the format, [`primitive`] the types and their bit
//! patterns, [`binary`] and [`standard`] the codecs, and [`laws`] states what
//! holds of them together.

pub mod binary;
pub mod laws;
pub mod primitive;
pub mod standard;
pub mod wire;

pub use binary::{BinaryRead, BinaryWrite};
pub use primitive::Primitive;
pub use standard::{StandardRead, StandardWrite};
