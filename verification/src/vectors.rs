//! Element-by-element distance kernels.

use crate::number::{bounded_abs_diff, magnitude, Number};
use vstd::prelude::*;

pub mod laws;
pub mod utils;

verus! {

/// Why a pair of vectors has no distance.
#[derive(Clone, Copy, Debug, PartialEq, Eq, Structural)]
pub enum DistanceError {
    /// The two vectors differ in length.
    DimensionMismatch,
    /// The two vectors have no elements.
    EmptyInput,
    /// The distance is greater than the result type can hold.
    Overflow,
}

/// The integers that the elements of `s` stand for.
pub open spec fn values<T: Number>(s: Seq<T>) -> Seq<int> {
    Seq::new(s.len(), |i: int| s[i].value())
}

/// The square of the difference of two coordinates.
pub open spec fn sq_term(a: int, b: int) -> int {
    (a - b) * (a - b)
}

/// The squared Euclidean distance over the first `n` coordinates, summed from
/// the first coordinate on.
pub open spec fn sq_distance_upto(x: Seq<int>, y: Seq<int>, n: nat) -> int
    decreases n,
{
    if n == 0 {
        0
    } else {
        sq_distance_upto(x, y, (n - 1) as nat) + sq_term(x[n - 1], y[n - 1])
    }
}

/// The squared Euclidean distance of `x` and `y`: the sum of
/// `(x[i] - y[i])^2` over every coordinate of `x`.
pub open spec fn sq_distance(x: Seq<int>, y: Seq<int>) -> int {
    sq_distance_upto(x, y, x.len())
}

/// What a squared-distance kernel owes on `x` and `y` when its result type
/// holds no more than `highest`.
pub open spec fn euclidean_sq_spec(x: Seq<int>, y: Seq<int>, highest: int) -> Result<
    int,
    DistanceError,
> {
    if x.len() != y.len() {
        Err(DistanceError::DimensionMismatch)
    } else if x.len() == 0 {
        Err(DistanceError::EmptyInput)
    } else if sq_distance(x, y) > highest {
        Err(DistanceError::Overflow)
    } else {
        Ok(sq_distance(x, y))
    }
}

/// The result of a kernel with its distance read as an integer.
pub open spec fn outcome<T: Number>(r: Result<T, DistanceError>) -> Result<int, DistanceError> {
    match r {
        Ok(d) => Ok(d.value()),
        Err(e) => Err(e),
    }
}

/// A squared difference is the square of the absolute difference, and is
/// never below the absolute difference.
pub proof fn lemma_sq_term_bounds(a: int, b: int)
    ensures
        sq_term(a, b) == magnitude(a - b) * magnitude(a - b),
        sq_term(a, b) >= magnitude(a - b),
        sq_term(a, b) >= 0,
{
    let d = a - b;
    assert(d * d == (-d) * (-d)) by (nonlinear_arith);
    assert(d * d >= d && d * d >= -d && d * d >= 0) by (nonlinear_arith);
}

/// Partial sums of squared differences never decrease, and start at zero.
pub proof fn lemma_sq_distance_upto_monotonic(x: Seq<int>, y: Seq<int>, i: nat, n: nat)
    requires
        i <= n,
    ensures
        0 <= sq_distance_upto(x, y, i) <= sq_distance_upto(x, y, n),
    decreases n,
{
    if n == 0 {
    } else if i == n {
        lemma_sq_distance_upto_monotonic(x, y, (i - 1) as nat, (n - 1) as nat);
        lemma_sq_term_bounds(x[n - 1], y[n - 1]);
    } else {
        lemma_sq_distance_upto_monotonic(x, y, i, (n - 1) as nat);
        lemma_sq_term_bounds(x[n - 1], y[n - 1]);
    }
}

/// The squared distance splits at any coordinate: it is the squared distance
/// over the coordinates before `mid` plus the squared distance of what
/// follows them.
pub proof fn lemma_sq_distance_split(x: Seq<int>, y: Seq<int>, mid: nat)
    requires
        mid <= x.len(),
        x.len() == y.len(),
    ensures
        sq_distance(x, y) == sq_distance_upto(x, y, mid) + sq_distance(
            x.subrange(mid as int, x.len() as int),
            y.subrange(mid as int, y.len() as int),
        ),
{
    lemma_sq_distance_upto_split(x, y, mid, (x.len() - mid) as nat);
}

proof fn lemma_sq_distance_upto_split(x: Seq<int>, y: Seq<int>, mid: nat, k: nat)
    requires
        mid + k <= x.len(),
        x.len() == y.len(),
    ensures
        sq_distance_upto(x, y, mid + k) == sq_distance_upto(x, y, mid) + sq_distance_upto(
            x.subrange(mid as int, x.len() as int),
            y.subrange(mid as int, y.len() as int),
            k,
        ),
    decreases k,
{
    if k > 0 {
        lemma_sq_distance_upto_split(x, y, mid, (k - 1) as nat);
    }
}

/// Squared Euclidean distance of two vectors, `sum((x[i] - y[i])^2)`.
///
/// Returns `DimensionMismatch` where the lengths differ, `EmptyInput` where
/// both vectors are empty, `Overflow` where the distance does not fit `T`,
/// and the distance in every other case.
pub fn euclidean_sq<T: Number>(x: &[T], y: &[T]) -> (r: Result<T, DistanceError>)
    ensures
        outcome(r) == euclidean_sq_spec(values(x@), values(y@), T::highest()),
{
    if x.len() != y.len() {
        return Err(DistanceError::DimensionMismatch);
    }
    if x.len() == 0 {
        return Err(DistanceError::EmptyInput);
    }
    let ghost xs = values(x@);
    let ghost ys = values(y@);
    let n = x.len();
    let mut sum = T::zero();
    let mut i: usize = 0;
    while i < n
        invariant
            n == x.len() == y.len(),
            xs == values(x@),
            ys == values(y@),
            i <= n,
            sum.value() == sq_distance_upto(xs, ys, i as nat),
        decreases n - i,
    {
        let gap = x[i].abs_diff(y[i]);
        let ghost term = sq_term(xs[i as int], ys[i as int]);
        proof {
            T::lemma_limits();
            lemma_sq_distance_upto_monotonic(xs, ys, i as nat, (i + 1) as nat);
            lemma_sq_distance_upto_monotonic(xs, ys, (i + 1) as nat, n as nat);
            lemma_saturated_square(xs[i as int], ys[i as int], T::highest());
            assert(gap.value() == bounded_abs_diff(xs[i as int], ys[i as int], T::highest()));
        }
        let square = match gap.checked_mul(gap) {
            Some(s) => s,
            None => {
                assert(term > T::highest());
                return Err(DistanceError::Overflow);
            },
        };
        proof {
            square.lemma_in_range();
            assert(square.value() == term);
        }
        sum = match sum.checked_add(square) {
            Some(s) => s,
            None => {
                return Err(DistanceError::Overflow);
            },
        };
        i += 1;
    }
    proof {
        sum.lemma_in_range();
    }
    Ok(sum)
}

/// The square of an absolute difference held down to `highest` is the squared
/// difference itself where that fits below `highest`, and is above `highest`
/// exactly where the squared difference is.
proof fn lemma_saturated_square(a: int, b: int, highest: int)
    requires
        2 <= highest,
    ensures
        ({
            let gap = bounded_abs_diff(a, b, highest);
            &&& 0 <= gap
            &&& 0 <= gap * gap
            &&& gap * gap <= highest ==> gap * gap == sq_term(a, b)
            &&& gap * gap > highest ==> sq_term(a, b) > highest
        }),
{
    let gap = bounded_abs_diff(a, b, highest);
    lemma_sq_term_bounds(a, b);
    assert(0 <= gap * gap) by (nonlinear_arith);
    if magnitude(a - b) > highest {
        assert(highest < highest * highest) by (nonlinear_arith)
            requires
                2 <= highest,
        ;
    }
}

} // verus!
