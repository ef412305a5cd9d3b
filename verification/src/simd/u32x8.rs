//! Eight lanes of `u32`.

use super::{lane_sum, lemma_chunk_extends, lemma_lane_sum_add, lemma_prefix_sum_bounds, prefix_sum};
use crate::number::{magnitude, Number};
use crate::vectors::laws::lemma_sq_distance_nonnegative;
use crate::vectors::{
    euclidean_sq, euclidean_sq_spec, lemma_sq_distance_split, lemma_sq_distance_upto_monotonic,
    lemma_sq_term_bounds, outcome, sq_distance_upto, sq_term, values, DistanceError,
};
use vstd::prelude::*;

verus! {

/// A vector of eight `u32` lanes.
#[derive(Clone, Copy, Debug, PartialEq, Eq, Structural)]
pub struct U32x8(pub u32, pub u32, pub u32, pub u32, pub u32, pub u32, pub u32, pub u32);

impl View for U32x8 {
    type V = Seq<u32>;

    /// The lanes, from the first to the last.
    open spec fn view(&self) -> Seq<u32> {
        seq![self.0, self.1, self.2, self.3, self.4, self.5, self.6, self.7]
    }
}

impl U32x8 {
    /// Each lane of the view is the field of the same position, and the
    /// horizontal sum is the sum of the fields.
    pub proof fn lemma_lanes(self)
        ensures
            self@.len() == 8,
            self@[0] == self.0,
            self@[1] == self.1,
            self@[2] == self.2,
            self@[3] == self.3,
            self@[4] == self.4,
            self@[5] == self.5,
            self@[6] == self.6,
            self@[7] == self.7,
            lane_sum(self@) == self.0 + self.1 + self.2 + self.3 + self.4 + self.5 + self.6 + self.7,
    {
        reveal_with_fuel(prefix_sum, 9);
    }

    /// A lane vector of the eight given lanes.
    pub fn new(x0: u32, x1: u32, x2: u32, x3: u32, x4: u32, x5: u32, x6: u32, x7: u32) -> (r: Self)
        ensures
            r@ == seq![x0, x1, x2, x3, x4, x5, x6, x7],
    {
        U32x8(x0, x1, x2, x3, x4, x5, x6, x7)
    }

    /// The number of lanes.
    pub fn lanes() -> (n: usize)
        ensures
            n == 8,
    {
        8
    }

    /// A lane vector with `value` in every lane.
    pub fn splat(value: u32) -> (r: Self)
        ensures
            r@.len() == 8,
            forall|i: int| 0 <= i < 8 ==> #[trigger] r@[i] == value,
    {
        U32x8(value, value, value, value, value, value, value, value)
    }

    /// A lane vector of the first eight elements of `slice`; what follows
    /// them is ignored.
    pub fn from_slice(slice: &[u32]) -> (r: Self)
        requires
            slice.len() >= 8,
        ensures
            r@ == slice@.take(8),
    {
        U32x8(slice[0], slice[1], slice[2], slice[3], slice[4], slice[5], slice[6], slice[7])
    }

    /// The sum of all lanes, added from the first lane to the last.
    pub fn horizontal_add(self) -> (r: u32)
        requires
            lane_sum(self@) <= u32::MAX,
        ensures
            r == lane_sum(self@),
    {
        proof {
            self.lemma_lanes();
        }
        self.0 + self.1 + self.2 + self.3 + self.4 + self.5 + self.6 + self.7
    }

    /// The sum of all lanes, or `None` exactly where it does not fit a `u32`.
    pub fn checked_horizontal_add(self) -> (r: Option<u32>)
        ensures
            match r {
                Some(s) => s == lane_sum(self@),
                None => lane_sum(self@) > u32::MAX,
            },
    {
        proof {
            self.lemma_lanes();
        }
        let wide: u64 = self.0 as u64 + self.1 as u64 + self.2 as u64 + self.3 as u64
            + self.4 as u64 + self.5 as u64 + self.6 as u64 + self.7 as u64;
        if wide > u32::MAX as u64 {
            None
        } else {
            Some(wide as u32)
        }
    }

    /// Lane-wise sum.
    pub fn add(self, rhs: Self) -> (r: Self)
        requires
            forall|i: int| 0 <= i < 8 ==> (#[trigger] self@[i]) + rhs@[i] <= u32::MAX,
        ensures
            forall|i: int| 0 <= i < 8 ==> #[trigger] r@[i] == self@[i] + rhs@[i],
    {
        proof {
            self.lemma_lanes();
            rhs.lemma_lanes();
        }
        U32x8(
            self.0 + rhs.0, self.1 + rhs.1, self.2 + rhs.2, self.3 + rhs.3, self.4 + rhs.4,
            self.5 + rhs.5, self.6 + rhs.6, self.7 + rhs.7,
        )
    }

    /// Lane-wise difference.
    pub fn sub(self, rhs: Self) -> (r: Self)
        requires
            forall|i: int| 0 <= i < 8 ==> (#[trigger] self@[i]) >= rhs@[i],
        ensures
            forall|i: int| 0 <= i < 8 ==> #[trigger] r@[i] == self@[i] - rhs@[i],
    {
        proof {
            self.lemma_lanes();
            rhs.lemma_lanes();
        }
        U32x8(
            self.0 - rhs.0, self.1 - rhs.1, self.2 - rhs.2, self.3 - rhs.3, self.4 - rhs.4,
            self.5 - rhs.5, self.6 - rhs.6, self.7 - rhs.7,
        )
    }

    /// Lane-wise product.
    pub fn mul(self, rhs: Self) -> (r: Self)
        requires
            forall|i: int| 0 <= i < 8 ==> (#[trigger] self@[i]) * rhs@[i] <= u32::MAX,
        ensures
            forall|i: int| 0 <= i < 8 ==> #[trigger] r@[i] == self@[i] * rhs@[i],
    {
        proof {
            self.lemma_lanes();
            rhs.lemma_lanes();
        }
        U32x8(
            self.0 * rhs.0, self.1 * rhs.1, self.2 * rhs.2, self.3 * rhs.3, self.4 * rhs.4,
            self.5 * rhs.5, self.6 * rhs.6, self.7 * rhs.7,
        )
    }

    /// Lane-wise quotient.
    pub fn div(self, rhs: Self) -> (r: Self)
        requires
            forall|i: int| 0 <= i < 8 ==> #[trigger] rhs@[i] != 0,
        ensures
            forall|i: int| 0 <= i < 8 ==> #[trigger] r@[i] == self@[i] / rhs@[i],
    {
        proof {
            self.lemma_lanes();
            rhs.lemma_lanes();
        }
        U32x8(
            self.0 / rhs.0, self.1 / rhs.1, self.2 / rhs.2, self.3 / rhs.3, self.4 / rhs.4,
            self.5 / rhs.5, self.6 / rhs.6, self.7 / rhs.7,
        )
    }

    /// Lane-wise sum, in place.
    pub fn add_assign(&mut self, rhs: Self)
        requires
            forall|i: int| 0 <= i < 8 ==> (#[trigger] old(self)@[i]) + rhs@[i] <= u32::MAX,
        ensures
            forall|i: int| 0 <= i < 8 ==> #[trigger] final(self)@[i] == old(self)@[i] + rhs@[i],
    {
        *self = self.add(rhs);
    }

    /// Lane-wise difference, in place.
    pub fn sub_assign(&mut self, rhs: Self)
        requires
            forall|i: int| 0 <= i < 8 ==> (#[trigger] old(self)@[i]) >= rhs@[i],
        ensures
            forall|i: int| 0 <= i < 8 ==> #[trigger] final(self)@[i] == old(self)@[i] - rhs@[i],
    {
        *self = self.sub(rhs);
    }

    /// Lane-wise product, in place.
    pub fn mul_assign(&mut self, rhs: Self)
        requires
            forall|i: int| 0 <= i < 8 ==> (#[trigger] old(self)@[i]) * rhs@[i] <= u32::MAX,
        ensures
            forall|i: int| 0 <= i < 8 ==> #[trigger] final(self)@[i] == old(self)@[i] * rhs@[i],
    {
        *self = self.mul(rhs);
    }

    /// Lane-wise quotient, in place.
    pub fn div_assign(&mut self, rhs: Self)
        requires
            forall|i: int| 0 <= i < 8 ==> #[trigger] rhs@[i] != 0,
        ensures
            forall|i: int| 0 <= i < 8 ==> #[trigger] final(self)@[i] == old(self)@[i] / rhs@[i],
    {
        *self = self.div(rhs);
    }

    /// Lane-wise absolute difference.
    pub fn abs_diff(self, rhs: Self) -> (r: Self)
        ensures
            forall|i: int| 0 <= i < 8 ==> #[trigger] r@[i] == magnitude(self@[i] - rhs@[i]),
    {
        proof {
            self.lemma_lanes();
            rhs.lemma_lanes();
        }
        U32x8(
            Number::abs_diff(self.0, rhs.0), Number::abs_diff(self.1, rhs.1),
            Number::abs_diff(self.2, rhs.2), Number::abs_diff(self.3, rhs.3),
            Number::abs_diff(self.4, rhs.4), Number::abs_diff(self.5, rhs.5),
            Number::abs_diff(self.6, rhs.6), Number::abs_diff(self.7, rhs.7),
        )
    }

    /// Lane-wise sum, or `None` exactly where the sum of some lane does not
    /// fit a `u32`.
    pub fn checked_add(self, rhs: Self) -> (r: Option<Self>)
        ensures
            match r {
                Some(s) => forall|i: int| 0 <= i < 8 ==> #[trigger] s@[i] == self@[i] + rhs@[i],
                None => exists|i: int| 0 <= i < 8 && (#[trigger] self@[i]) + rhs@[i] > u32::MAX,
            },
    {
        proof {
            self.lemma_lanes();
            rhs.lemma_lanes();
        }
        Some(
            U32x8(
                self.0.checked_add(rhs.0)?, self.1.checked_add(rhs.1)?, self.2.checked_add(rhs.2)?,
                self.3.checked_add(rhs.3)?, self.4.checked_add(rhs.4)?, self.5.checked_add(rhs.5)?,
                self.6.checked_add(rhs.6)?, self.7.checked_add(rhs.7)?,
            ),
        )
    }

    /// Lane-wise product, or `None` exactly where the product of some lane
    /// does not fit a `u32`.
    pub fn checked_mul(self, rhs: Self) -> (r: Option<Self>)
        ensures
            match r {
                Some(p) => forall|i: int| 0 <= i < 8 ==> #[trigger] p@[i] == self@[i] * rhs@[i],
                None => exists|i: int| 0 <= i < 8 && (#[trigger] self@[i]) * rhs@[i] > u32::MAX,
            },
    {
        proof {
            self.lemma_lanes();
            rhs.lemma_lanes();
        }
        Some(
            U32x8(
                self.0.checked_mul(rhs.0)?, self.1.checked_mul(rhs.1)?, self.2.checked_mul(rhs.2)?,
                self.3.checked_mul(rhs.3)?, self.4.checked_mul(rhs.4)?, self.5.checked_mul(rhs.5)?,
                self.6.checked_mul(rhs.6)?, self.7.checked_mul(rhs.7)?,
            ),
        )
    }

    /// Squared Euclidean distance of two vectors, taken eight coordinates at
    /// a time.
    ///
    /// The full chunks go through the lanes, what is left over goes through
    /// the element-by-element kernel, and the two partial sums are added.
    /// The result is that of the element-by-element kernel on the same
    /// input, the errors included.
    pub fn euclidean_sq(x: &[u32], y: &[u32]) -> (r: Result<u32, DistanceError>)
        ensures
            outcome(r) == euclidean_sq_spec(values(x@), values(y@), u32::highest()),
    {
        if x.len() != y.len() {
            return Err(DistanceError::DimensionMismatch);
        }
        if x.len() == 0 {
            return Err(DistanceError::EmptyInput);
        }
        let ghost xs = values(x@);
        let ghost ys = values(y@);
        let n = x.len();
        let full = n - n % 8;
        let mut acc = U32x8::splat(0);
        let mut i: usize = 0;
        proof {
            acc.lemma_lanes();
        }
        while i < full
            invariant
                n == x.len() == y.len(),
                xs == values(x@),
                ys == values(y@),
                i <= full <= n,
                i % 8 == 0,
                full % 8 == 0,
                lane_sum(acc@) == sq_distance_upto(xs, ys, i as nat),
            decreases full - i,
        {
            let a = U32x8::from_slice(&x[i..n]);
            let b = U32x8::from_slice(&y[i..n]);
            let gap = a.abs_diff(b);
            proof {
                assert forall|j: int| 0 <= j < 8 implies (#[trigger] gap@[j]) * gap@[j] == sq_term(
                    xs[i + j],
                    ys[i + j],
                ) by {
                    assert(a@[j] == x@[i + j]);
                    assert(b@[j] == y@[i + j]);
                    lemma_sq_term_bounds(xs[i + j], ys[i + j]);
                }
            }
            let squares = match gap.checked_mul(gap) {
                Some(s) => s,
                None => {
                    proof {
                        let j = choose|j: int|
                            0 <= j < 8 && (#[trigger] gap@[j]) * gap@[j] > u32::MAX;
                        lemma_sq_distance_upto_monotonic(xs, ys, (i + j) as nat, (i + j + 1) as nat);
                        lemma_sq_distance_upto_monotonic(xs, ys, (i + j + 1) as nat, n as nat);
                    }
                    return Err(DistanceError::Overflow);
                },
            };
            proof {
                assert forall|j: int| 0 <= j < 8 implies #[trigger] squares@[j] == sq_term(
                    xs[i + j],
                    ys[i + j],
                ) by {
                    assert(squares@[j] == gap@[j] * gap@[j]);
                }
                squares.lemma_lanes();
                acc.lemma_lanes();
                lemma_chunk_extends(xs, ys, i as nat, squares@);
                lemma_sq_distance_upto_monotonic(xs, ys, (i + 8) as nat, n as nat);
            }
            let sums = match acc.checked_add(squares) {
                Some(s) => s,
                None => {
                    proof {
                        let j = choose|j: int|
                            0 <= j < 8 && (#[trigger] acc@[j]) + squares@[j] > u32::MAX;
                        lemma_prefix_sum_bounds(acc@, j, 8);
                        lemma_prefix_sum_bounds(squares@, j, 8);
                    }
                    return Err(DistanceError::Overflow);
                },
            };
            proof {
                sums.lemma_lanes();
                lemma_lane_sum_add(acc@, squares@, sums@);
            }
            acc = sums;
            i += 8;
        }
        proof {
            lemma_sq_distance_upto_monotonic(xs, ys, i as nat, n as nat);
        }
        let head = match acc.checked_horizontal_add() {
            Some(h) => h,
            None => {
                return Err(DistanceError::Overflow);
            },
        };
        if i == n {
            return Ok(head);
        }
        proof {
            lemma_sq_distance_split(xs, ys, i as nat);
            assert(values(x@.subrange(i as int, n as int)) =~= xs.subrange(i as int, n as int));
            assert(values(y@.subrange(i as int, n as int)) =~= ys.subrange(i as int, n as int));
            lemma_sq_distance_nonnegative(
                xs.subrange(i as int, n as int),
                ys.subrange(i as int, n as int),
            );
        }
        match euclidean_sq(&x[i..n], &y[i..n]) {
            Ok(tail) => match head.checked_add(tail) {
                Some(d) => Ok(d),
                None => Err(DistanceError::Overflow),
            },
            Err(e) => Err(e),
        }
    }
}

} // verus!
