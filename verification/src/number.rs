//! The numeric capabilities that every element type of a vector provides.
//!
//! [`Number`] is the base capability set: the two identities, the four
//! arithmetic operations in their checked form, and an absolute difference
//! that stays inside the type. Its contracts are stated over the mathematical
//! integer that a value stands for, so one proof about a generic kernel holds
//! for every element type.

use vstd::prelude::*;

mod signed;
mod unsigned;
pub mod variants;

verus! {

/// Absolute value of a mathematical integer.
pub open spec fn magnitude(v: int) -> int {
    if v < 0 {
        -v
    } else {
        v
    }
}

/// Quotient of `a` by a nonzero `b`, rounded toward zero.
pub open spec fn quotient(a: int, b: int) -> int {
    if (a >= 0) == (b > 0) {
        magnitude(a) / magnitude(b)
    } else {
        -(magnitude(a) / magnitude(b))
    }
}

/// Whether `v` lies between `lowest` and `highest`, both included.
pub open spec fn in_range(lowest: int, v: int, highest: int) -> bool {
    lowest <= v <= highest
}

/// The absolute difference of `a` and `b`, held down to `highest`.
pub open spec fn bounded_abs_diff(a: int, b: int, highest: int) -> int {
    if magnitude(a - b) <= highest {
        magnitude(a - b)
    } else {
        highest
    }
}

/// A scalar that can be an element of a vector.
///
/// No operation of this trait panics or wraps: where a result does not fit
/// the type, the checked operations return `None` and the absolute difference
/// saturates.
pub trait Number: Copy {
    /// The mathematical integer that `self` stands for.
    spec fn value(self) -> int;

    /// The least value of the type.
    spec fn lowest() -> int;

    /// The greatest value of the type.
    spec fn highest() -> int;

    /// The limits of the type leave room for both identities and for a
    /// value beyond them.
    proof fn lemma_limits()
        ensures
            Self::lowest() <= 0,
            2 <= Self::highest(),
    ;

    /// Every value lies within the limits of its type.
    proof fn lemma_in_range(self)
        ensures
            Self::lowest() <= self.value() <= Self::highest(),
    ;

    /// The additive identity.
    fn zero() -> (r: Self)
        ensures
            r.value() == 0,
    ;

    /// The multiplicative identity.
    fn one() -> (r: Self)
        ensures
            r.value() == 1,
    ;

    /// `|self - other|`, computed without leaving the type: an unsigned
    /// operand pair never underflows, and a signed pair whose difference is
    /// wider than the type yields the greatest value.
    fn abs_diff(self, other: Self) -> (r: Self)
        ensures
            r.value() == bounded_abs_diff(self.value(), other.value(), Self::highest()),
    ;

    /// `self + other`, or `None` exactly where the sum is not representable.
    fn checked_add(self, other: Self) -> (r: Option<Self>)
        ensures
            match r {
                Some(s) => s.value() == self.value() + other.value(),
                None => !in_range(Self::lowest(), self.value() + other.value(), Self::highest()),
            },
    ;

    /// `self - other`, or `None` exactly where the difference is not
    /// representable.
    fn checked_sub(self, other: Self) -> (r: Option<Self>)
        ensures
            match r {
                Some(d) => d.value() == self.value() - other.value(),
                None => !in_range(Self::lowest(), self.value() - other.value(), Self::highest()),
            },
    ;

    /// `self * other`, or `None` exactly where the product is not
    /// representable.
    fn checked_mul(self, other: Self) -> (r: Option<Self>)
        ensures
            match r {
                Some(p) => p.value() == self.value() * other.value(),
                None => !in_range(Self::lowest(), self.value() * other.value(), Self::highest()),
            },
    ;

    /// `self / other` rounded toward zero, or `None` exactly where the
    /// divisor is zero or the quotient is not representable.
    fn checked_div(self, other: Self) -> (r: Option<Self>)
        ensures
            match r {
                Some(q) => other.value() != 0 && q.value() == quotient(
                    self.value(),
                    other.value(),
                ),
                None => other.value() == 0 || !in_range(
                    Self::lowest(),
                    quotient(self.value(), other.value()),
                    Self::highest(),
                ),
            },
    ;
}

} // verus!
