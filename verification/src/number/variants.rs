//! Refinements of `Number`: integers, signed integers, unsigned integers.

use super::{bounded_abs_diff, magnitude, Number};
use core::hash::Hash;
use vstd::prelude::*;

verus! {

/// The value that a 64-bit unsigned integer holds after `v` is cut down to
/// its low 64 bits.
pub open spec fn low_bits_u64(v: int) -> int {
    v % 0x1_0000_0000_0000_0000
}

/// The value that a 64-bit signed integer holds after `v` is cut down to its
/// low 64 bits, read in two's complement.
pub open spec fn low_bits_i64(v: int) -> int {
    if low_bits_u64(v) < 0x8000_0000_0000_0000 {
        low_bits_u64(v)
    } else {
        low_bits_u64(v) - 0x1_0000_0000_0000_0000
    }
}

/// Integer numbers: totally ordered, comparable for equality, hashable.
pub trait Int: Number + Hash + Eq + Ord {}

/// Signed integer numbers.
pub trait IInt: Number + Hash + Eq + Ord {
    /// A signed type reaches one further below zero than above it.
    proof fn lemma_signed()
        ensures
            Self::lowest() == -Self::highest() - 1,
    ;
}

/// Unsigned integer numbers.
pub trait UInt: Number + Hash + Eq + Ord {
    /// An unsigned type starts at zero.
    proof fn lemma_unsigned()
        ensures
            Self::lowest() == 0,
    ;

    /// The number as an `i64`: the same value wherever an `i64` can hold it,
    /// and the low 64 bits in two's complement otherwise.
    fn as_i64(self) -> (r: i64)
        ensures
            r == low_bits_i64(self.value()),
            self.value() <= i64::MAX ==> r == self.value(),
    ;

    /// The number as a `u64`: the same value wherever a `u64` can hold it,
    /// and the low 64 bits otherwise.
    fn as_u64(self) -> (r: u64)
        ensures
            r == low_bits_u64(self.value()),
            self.value() <= u64::MAX ==> r == self.value(),
    ;
}

/// The absolute difference of two unsigned numbers is exact: it is
/// `|a - b|` for every pair of operands, without saturation.
pub proof fn lemma_unsigned_abs_diff_exact<T: UInt>(a: T, b: T)
    ensures
        bounded_abs_diff(a.value(), b.value(), T::highest()) == magnitude(a.value() - b.value()),
{
    T::lemma_unsigned();
    a.lemma_in_range();
    b.lemma_in_range();
}

impl Int for u8 {}

impl Int for i8 {}

impl Int for u16 {}

impl Int for i16 {}

impl Int for u32 {}

impl Int for i32 {}

impl Int for u64 {}

impl Int for i64 {}

impl Int for u128 {}

impl Int for i128 {}

impl Int for usize {}

impl Int for isize {}

impl IInt for i8 {
    proof fn lemma_signed() {
    }
}

impl IInt for i16 {
    proof fn lemma_signed() {
    }
}

impl IInt for i32 {
    proof fn lemma_signed() {
    }
}

impl IInt for i64 {
    proof fn lemma_signed() {
    }
}

impl IInt for i128 {
    proof fn lemma_signed() {
    }
}

impl IInt for isize {
    proof fn lemma_signed() {
    }
}

impl UInt for u8 {
    proof fn lemma_unsigned() {
    }

    fn as_i64(self) -> i64 {
        self as i64
    }

    fn as_u64(self) -> u64 {
        self as u64
    }
}

impl UInt for u16 {
    proof fn lemma_unsigned() {
    }

    fn as_i64(self) -> i64 {
        self as i64
    }

    fn as_u64(self) -> u64 {
        self as u64
    }
}

impl UInt for u32 {
    proof fn lemma_unsigned() {
    }

    fn as_i64(self) -> i64 {
        self as i64
    }

    fn as_u64(self) -> u64 {
        self as u64
    }
}

impl UInt for u64 {
    proof fn lemma_unsigned() {
    }

    fn as_i64(self) -> i64 {
        assert(self < 0x8000_0000_0000_0000u64 ==> (self as i64) == self) by (bit_vector);
        assert(self >= 0x8000_0000_0000_0000u64 ==> (self as i64) == self
            - 0x1_0000_0000_0000_0000) by (bit_vector);
        #[verifier::truncate]
        (self as i64)
    }

    fn as_u64(self) -> u64 {
        self
    }
}

impl UInt for u128 {
    proof fn lemma_unsigned() {
    }

    fn as_i64(self) -> i64 {
        let low = #[verifier::truncate]
        (self as u64);
        assert(low == self % 0x1_0000_0000_0000_0000u128) by (bit_vector)
            requires
                low == self as u64,
        ;
        assert(low < 0x8000_0000_0000_0000u64 ==> (low as i64) == low) by (bit_vector);
        assert(low >= 0x8000_0000_0000_0000u64 ==> (low as i64) == low
            - 0x1_0000_0000_0000_0000) by (bit_vector);
        assert((self as i64) == (low as i64)) by (bit_vector)
            requires
                low == self as u64,
        ;
        #[verifier::truncate]
        (self as i64)
    }

    fn as_u64(self) -> u64 {
        assert((self as u64) == self % 0x1_0000_0000_0000_0000u128) by (bit_vector);
        #[verifier::truncate]
        (self as u64)
    }
}

impl UInt for usize {
    proof fn lemma_unsigned() {
    }

    fn as_i64(self) -> i64 {
        let wide = self as u64;
        assert(wide < 0x8000_0000_0000_0000u64 ==> (wide as i64) == wide) by (bit_vector);
        assert(wide >= 0x8000_0000_0000_0000u64 ==> (wide as i64) == wide
            - 0x1_0000_0000_0000_0000) by (bit_vector);
        #[verifier::truncate]
        (wide as i64)
    }

    fn as_u64(self) -> u64 {
        self as u64
    }
}

} // verus!
