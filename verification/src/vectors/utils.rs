//! Helpers shared by the distance kernels.

use super::DistanceError;
use crate::number::{bounded_abs_diff, Number};
use vstd::prelude::*;

verus! {

/// The absolute differences between the corresponding elements of two
/// vectors, in order.
///
/// Returns `DimensionMismatch` where the lengths differ and `EmptyInput`
/// where both vectors are empty.
pub fn abs_diff_iter<T: Number>(x: &[T], y: &[T]) -> (r: Result<Vec<T>, DistanceError>)
    ensures
        x.len() != y.len() <==> r == Err::<Vec<T>, DistanceError>(
            DistanceError::DimensionMismatch,
        ),
        x.len() == y.len() && x.len() == 0 <==> r == Err::<Vec<T>, DistanceError>(
            DistanceError::EmptyInput,
        ),
        x.len() == y.len() && x.len() > 0 <==> r is Ok,
        r matches Ok(gaps) ==> gaps.len() == x.len() && forall|i: int|
            0 <= i < x.len() ==> (#[trigger] gaps[i]).value() == bounded_abs_diff(
                x[i].value(),
                y[i].value(),
                T::highest(),
            ),
{
    if x.len() != y.len() {
        return Err(DistanceError::DimensionMismatch);
    }
    if x.len() == 0 {
        return Err(DistanceError::EmptyInput);
    }
    let n = x.len();
    let mut gaps: Vec<T> = Vec::with_capacity(n);
    let mut i: usize = 0;
    while i < n
        invariant
            n == x.len() == y.len(),
            i <= n,
            gaps.len() == i,
            forall|j: int|
                0 <= j < i ==> (#[trigger] gaps[j]).value() == bounded_abs_diff(
                    x[j].value(),
                    y[j].value(),
                    T::highest(),
                ),
        decreases n - i,
    {
        gaps.push(x[i].abs_diff(y[i]));
        i += 1;
    }
    Ok(gaps)
}

} // verus!
