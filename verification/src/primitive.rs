//! The primitive types and their bit patterns.
//!
//! A primitive goes on the wire as its bit pattern: an unsigned integer as
//! itself, a signed integer in two's complement, a `bool` as 1 or 0. The bit
//! pattern of a floating-point number is an unsigned integer of the same
//! width, and is encoded as one.

use crate::wire::{le_bytes, le_value, lemma_radix_values, radix};
use vstd::prelude::*;

verus! {

/// A fixed-width value that goes on the wire as its bit pattern.
pub trait Primitive: Sized + Copy {
    /// The number of bytes that a value of the type takes on the wire.
    spec fn spec_width() -> nat;

    /// The value's bit pattern, read as an unsigned number. A signed integer
    /// is in two's complement; `true` is 1 and `false` is 0.
    spec fn spec_bits(self) -> nat;

    /// The value that the bit pattern `bits` stands for. Of a pattern that is
    /// wider than the type, only the low bits count. As a `bool`, the pattern
    /// 1 is `true` and every other pattern of one byte is `false`.
    spec fn spec_from_bits(bits: nat) -> Self;

    /// The width is between one and eight bytes, a bit pattern fits in the
    /// width, and a value is found again from its bit pattern.
    proof fn lemma_bits(self)
        ensures
            1 <= Self::spec_width() <= 8,
            self.spec_bits() < radix(Self::spec_width()),
            Self::spec_from_bits(self.spec_bits()) == self,
    ;

    /// The number of bytes that a value of the type takes on the wire.
    fn width() -> (width: usize)
        ensures
            width == Self::spec_width(),
            1 <= width <= 8,
    ;

    /// The value's bit pattern.
    fn to_bits(self) -> (bits: u64)
        ensures
            bits == self.spec_bits(),
    ;

    /// The value that the bit pattern `bits` stands for.
    fn from_bits(bits: u64) -> (value: Self)
        ensures
            value == Self::spec_from_bits(bits as nat),
    ;
}

/// The bytes that stand for `value` on the wire: the digits of its bit
/// pattern in base 256, least significant first.
pub open spec fn encoding<T: Primitive>(value: T) -> Seq<u8> {
    le_bytes(value.spec_bits(), T::spec_width())
}

/// The value that `bytes` stand for: the one whose bit pattern they spell.
pub open spec fn decoding<T: Primitive>(bytes: Seq<u8>) -> T {
    T::spec_from_bits(le_value(bytes))
}

impl Primitive for u8 {
    open spec fn spec_width() -> nat {
        1
    }

    open spec fn spec_bits(self) -> nat {
        self as nat
    }

    open spec fn spec_from_bits(bits: nat) -> Self {
        (bits % 0x100) as u8
    }

    proof fn lemma_bits(self) {
        lemma_radix_values();
    }

    fn width() -> (width: usize) {
        1
    }

    fn to_bits(self) -> (bits: u64) {
        self as u64
    }

    fn from_bits(bits: u64) -> (value: Self) {
        (bits % 0x100) as u8
    }
}

impl Primitive for i8 {
    open spec fn spec_width() -> nat {
        1
    }

    open spec fn spec_bits(self) -> nat {
        if self >= 0 {
            self as nat
        } else {
            (self + 0x100) as nat
        }
    }

    open spec fn spec_from_bits(bits: nat) -> Self {
        let low: nat = bits % 0x100;
        if low < 0x80 {
            low as i8
        } else {
            (low - 0x100) as i8
        }
    }

    proof fn lemma_bits(self) {
        lemma_radix_values();
    }

    fn width() -> (width: usize) {
        1
    }

    fn to_bits(self) -> (bits: u64) {
        let bits: u8 = self as u8;
        assert(bits as i64 == if self >= 0 {
            self as i64
        } else {
            (self as i64 + 0x100) as i64
        }) by (bit_vector)
            requires
                bits == self as u8,
        ;
        bits as u64
    }

    fn from_bits(bits: u64) -> (value: Self) {
        let low: u8 = (bits % 0x100) as u8;
        let value: i8 = low as i8;
        assert(value as i64 == if low < 0x80 {
            low as i64
        } else {
            (low as i64 - 0x100) as i64
        }) by (bit_vector)
            requires
                value == low as i8,
        ;
        value
    }
}

impl Primitive for u16 {
    open spec fn spec_width() -> nat {
        2
    }

    open spec fn spec_bits(self) -> nat {
        self as nat
    }

    open spec fn spec_from_bits(bits: nat) -> Self {
        (bits % 0x1_0000) as u16
    }

    proof fn lemma_bits(self) {
        lemma_radix_values();
    }

    fn width() -> (width: usize) {
        2
    }

    fn to_bits(self) -> (bits: u64) {
        self as u64
    }

    fn from_bits(bits: u64) -> (value: Self) {
        (bits % 0x1_0000) as u16
    }
}

impl Primitive for i16 {
    open spec fn spec_width() -> nat {
        2
    }

    open spec fn spec_bits(self) -> nat {
        if self >= 0 {
            self as nat
        } else {
            (self + 0x1_0000) as nat
        }
    }

    open spec fn spec_from_bits(bits: nat) -> Self {
        let low: nat = bits % 0x1_0000;
        if low < 0x8000 {
            low as i16
        } else {
            (low - 0x1_0000) as i16
        }
    }

    proof fn lemma_bits(self) {
        lemma_radix_values();
    }

    fn width() -> (width: usize) {
        2
    }

    fn to_bits(self) -> (bits: u64) {
        let bits: u16 = self as u16;
        assert(bits as i64 == if self >= 0 {
            self as i64
        } else {
            (self as i64 + 0x1_0000) as i64
        }) by (bit_vector)
            requires
                bits == self as u16,
        ;
        bits as u64
    }

    fn from_bits(bits: u64) -> (value: Self) {
        let low: u16 = (bits % 0x1_0000) as u16;
        let value: i16 = low as i16;
        assert(value as i64 == if low < 0x8000 {
            low as i64
        } else {
            (low as i64 - 0x1_0000) as i64
        }) by (bit_vector)
            requires
                value == low as i16,
        ;
        value
    }
}

impl Primitive for u32 {
    open spec fn spec_width() -> nat {
        4
    }

    open spec fn spec_bits(self) -> nat {
        self as nat
    }

    open spec fn spec_from_bits(bits: nat) -> Self {
        (bits % 0x1_0000_0000) as u32
    }

    proof fn lemma_bits(self) {
        lemma_radix_values();
    }

    fn width() -> (width: usize) {
        4
    }

    fn to_bits(self) -> (bits: u64) {
        self as u64
    }

    fn from_bits(bits: u64) -> (value: Self) {
        (bits % 0x1_0000_0000) as u32
    }
}

impl Primitive for i32 {
    open spec fn spec_width() -> nat {
        4
    }

    open spec fn spec_bits(self) -> nat {
        if self >= 0 {
            self as nat
        } else {
            (self + 0x1_0000_0000) as nat
        }
    }

    open spec fn spec_from_bits(bits: nat) -> Self {
        let low: nat = bits % 0x1_0000_0000;
        if low < 0x8000_0000 {
            low as i32
        } else {
            (low - 0x1_0000_0000) as i32
        }
    }

    proof fn lemma_bits(self) {
        lemma_radix_values();
    }

    fn width() -> (width: usize) {
        4
    }

    fn to_bits(self) -> (bits: u64) {
        let bits: u32 = self as u32;
        assert(bits as i64 == if self >= 0 {
            self as i64
        } else {
            (self as i64 + 0x1_0000_0000) as i64
        }) by (bit_vector)
            requires
                bits == self as u32,
        ;
        bits as u64
    }

    fn from_bits(bits: u64) -> (value: Self) {
        let low: u32 = (bits % 0x1_0000_0000) as u32;
        let value: i32 = low as i32;
        assert(value as i64 == if low < 0x8000_0000 {
            low as i64
        } else {
            (low as i64 - 0x1_0000_0000) as i64
        }) by (bit_vector)
            requires
                value == low as i32,
        ;
        value
    }
}

impl Primitive for u64 {
    open spec fn spec_width() -> nat {
        8
    }

    open spec fn spec_bits(self) -> nat {
        self as nat
    }

    open spec fn spec_from_bits(bits: nat) -> Self {
        (bits % 0x1_0000_0000_0000_0000) as u64
    }

    proof fn lemma_bits(self) {
        lemma_radix_values();
    }

    fn width() -> (width: usize) {
        8
    }

    fn to_bits(self) -> (bits: u64) {
        self
    }

    fn from_bits(bits: u64) -> (value: Self) {
        bits
    }
}

impl Primitive for i64 {
    open spec fn spec_width() -> nat {
        8
    }

    open spec fn spec_bits(self) -> nat {
        if self >= 0 {
            self as nat
        } else {
            (self + 0x1_0000_0000_0000_0000) as nat
        }
    }

    open spec fn spec_from_bits(bits: nat) -> Self {
        let low: nat = bits % 0x1_0000_0000_0000_0000;
        if low < 0x8000_0000_0000_0000 {
            low as i64
        } else {
            (low - 0x1_0000_0000_0000_0000) as i64
        }
    }

    proof fn lemma_bits(self) {
        lemma_radix_values();
    }

    fn width() -> (width: usize) {
        8
    }

    fn to_bits(self) -> (bits: u64) {
        let bits: u64 = self as u64;
        assert(bits as i128 == if self >= 0 {
            self as i128
        } else {
            (self as i128 + 0x1_0000_0000_0000_0000) as i128
        }) by (bit_vector)
            requires
                bits == self as u64,
        ;
        bits
    }

    fn from_bits(bits: u64) -> (value: Self) {
        let value: i64 = bits as i64;
        assert(value as i128 == if bits < 0x8000_0000_0000_0000 {
            bits as i128
        } else {
            (bits as i128 - 0x1_0000_0000_0000_0000) as i128
        }) by (bit_vector)
            requires
                value == bits as i64,
        ;
        value
    }
}

impl Primitive for bool {
    open spec fn spec_width() -> nat {
        1
    }

    open spec fn spec_bits(self) -> nat {
        if self {
            1
        } else {
            0
        }
    }

    open spec fn spec_from_bits(bits: nat) -> Self {
        bits % 0x100 == 1
    }

    proof fn lemma_bits(self) {
        lemma_radix_values();
    }

    fn width() -> (width: usize) {
        1
    }

    fn to_bits(self) -> (bits: u64) {
        if self {
            1
        } else {
            0
        }
    }

    fn from_bits(bits: u64) -> (value: Self) {
        bits % 0x100 == 1
    }
}

} // verus!
