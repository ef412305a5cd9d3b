//! Fixed-width lane vectors and the kernels that work on them.
//!
//! A lane vector holds a fixed number of scalars. Its arithmetic works lane
//! by lane: lane `i` of a result depends on lane `i` of each operand and on
//! nothing else. Its horizontal reduction adds the lanes from the first to
//! the last.
//!
//! A lane kernel takes its input in chunks of one lane vector, hands what is
//! left over to the element-by-element kernel and adds the two partial
//! results. For every input it returns what the element-by-element kernel
//! returns, whatever the width.

use crate::vectors::{sq_distance_upto, sq_term};
use vstd::prelude::*;

pub mod u32x16;
pub mod u32x4;
pub mod u32x8;

verus! {

/// The sum of the first `n` lanes, added from the first lane on.
pub open spec fn prefix_sum(s: Seq<u32>, n: nat) -> int
    decreases n,
{
    if n == 0 {
        0
    } else {
        prefix_sum(s, (n - 1) as nat) + s[n - 1]
    }
}

/// The sum of all lanes, added from the first lane to the last.
pub open spec fn lane_sum(s: Seq<u32>) -> int {
    prefix_sum(s, s.len())
}

/// No lane is above a partial sum that includes it.
pub proof fn lemma_prefix_sum_bounds(s: Seq<u32>, j: int, n: nat)
    requires
        0 <= j < n <= s.len(),
    ensures
        0 <= s[j] <= prefix_sum(s, n),
    decreases n,
{
    lemma_prefix_sum_nonnegative(s, (n - 1) as nat);
    if j < n - 1 {
        lemma_prefix_sum_bounds(s, j, (n - 1) as nat);
    }
}

proof fn lemma_prefix_sum_nonnegative(s: Seq<u32>, n: nat)
    ensures
        0 <= prefix_sum(s, n),
    decreases n,
{
    if n > 0 {
        lemma_prefix_sum_nonnegative(s, (n - 1) as nat);
    }
}

/// The horizontal sum of a lane-wise sum is the sum of the horizontal sums.
pub proof fn lemma_lane_sum_add(a: Seq<u32>, b: Seq<u32>, c: Seq<u32>)
    requires
        a.len() == b.len(),
        b.len() == c.len(),
        forall|i: int| 0 <= i < c.len() ==> #[trigger] c[i] == a[i] + b[i],
    ensures
        lane_sum(c) == lane_sum(a) + lane_sum(b),
{
    lemma_prefix_sum_add(a, b, c, c.len());
}

proof fn lemma_prefix_sum_add(a: Seq<u32>, b: Seq<u32>, c: Seq<u32>, n: nat)
    requires
        n <= a.len(),
        a.len() == b.len(),
        b.len() == c.len(),
        forall|i: int| 0 <= i < c.len() ==> #[trigger] c[i] == a[i] + b[i],
    ensures
        prefix_sum(c, n) == prefix_sum(a, n) + prefix_sum(b, n),
    decreases n,
{
    if n > 0 {
        lemma_prefix_sum_add(a, b, c, (n - 1) as nat);
    }
}

/// A chunk of squared differences, summed over its lanes, carries the
/// squared distance from coordinate `from` to coordinate
/// `from + squares.len()`.
pub proof fn lemma_chunk_extends(x: Seq<int>, y: Seq<int>, from: nat, squares: Seq<u32>)
    requires
        forall|j: int|
            0 <= j < squares.len() ==> #[trigger] squares[j] == sq_term(x[from + j], y[from + j]),
    ensures
        sq_distance_upto(x, y, from + squares.len()) == sq_distance_upto(x, y, from) + lane_sum(
            squares,
        ),
{
    lemma_chunk_prefix_extends(x, y, from, squares, squares.len());
}

proof fn lemma_chunk_prefix_extends(
    x: Seq<int>,
    y: Seq<int>,
    from: nat,
    squares: Seq<u32>,
    k: nat,
)
    requires
        k <= squares.len(),
        forall|j: int|
            0 <= j < squares.len() ==> #[trigger] squares[j] == sq_term(x[from + j], y[from + j]),
    ensures
        sq_distance_upto(x, y, from + k) == sq_distance_upto(x, y, from) + prefix_sum(squares, k),
    decreases k,
{
    if k > 0 {
        lemma_chunk_prefix_extends(x, y, from, squares, (k - 1) as nat);
        assert(squares[k - 1] == sq_term(x[from + (k - 1)], y[from + (k - 1)]));
    }
}

} // verus!
