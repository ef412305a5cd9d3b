//! Laws of the squared Euclidean distance.
//!
//! The distance itself is the square root of what the kernels return, so the
//! laws are stated over squared distances, in a form without roots.

use super::{euclidean_sq_spec, sq_distance, sq_distance_upto, sq_term, DistanceError};
use vstd::prelude::*;

verus! {

/// The sum of the products `(x[i] - y[i]) * (y[i] - z[i])` over the first `n`
/// coordinates.
spec fn cross_upto(x: Seq<int>, y: Seq<int>, z: Seq<int>, n: nat) -> int
    decreases n,
{
    if n == 0 {
        0
    } else {
        cross_upto(x, y, z, (n - 1) as nat) + (x[n - 1] - y[n - 1]) * (y[n - 1] - z[n - 1])
    }
}

proof fn lemma_upto_self(x: Seq<int>, n: nat)
    ensures
        sq_distance_upto(x, x, n) == 0,
    decreases n,
{
    if n > 0 {
        lemma_upto_self(x, (n - 1) as nat);
    }
}

proof fn lemma_upto_symmetric(x: Seq<int>, y: Seq<int>, n: nat)
    ensures
        sq_distance_upto(x, y, n) == sq_distance_upto(y, x, n),
    decreases n,
{
    if n > 0 {
        lemma_upto_symmetric(x, y, (n - 1) as nat);
        let a = x[n - 1];
        let b = y[n - 1];
        assert((a - b) * (a - b) == (b - a) * (b - a)) by (nonlinear_arith);
    }
}

proof fn lemma_upto_nonnegative(x: Seq<int>, y: Seq<int>, n: nat)
    ensures
        sq_distance_upto(x, y, n) >= 0,
    decreases n,
{
    if n > 0 {
        lemma_upto_nonnegative(x, y, (n - 1) as nat);
        let d = x[n - 1] - y[n - 1];
        assert(d * d >= 0) by (nonlinear_arith);
    }
}

/// One more coordinate keeps the Cauchy-Schwarz inequality: if
/// `d^2 <= b * c` for non-negative `b` and `c`, then
/// `(d + u * v)^2 <= (b + u^2) * (c + v^2)`.
proof fn lemma_cauchy_schwarz_step(b: int, c: int, d: int, u: int, v: int)
    requires
        0 <= b,
        0 <= c,
        d * d <= b * c,
    ensures
        (d + u * v) * (d + u * v) <= (b + u * u) * (c + v * v),
{
    let rest = b * (v * v) + c * (u * u) - 2 * (d * (u * v));
    assert(rest >= 0) by {
        if b == 0 {
            assert(d == 0) by (nonlinear_arith)
                requires
                    d * d <= b * c,
                    b == 0,
            ;
            assert(c * (u * u) >= 0) by (nonlinear_arith)
                requires
                    0 <= c,
            ;
            assert(b * (v * v) == 0) by (nonlinear_arith)
                requires
                    b == 0,
            ;
            assert(d * (u * v) == 0) by (nonlinear_arith)
                requires
                    d == 0,
            ;
        } else {
            let p = b * v - d * u;
            let q = b * c - d * d;
            let bv = b * v;
            let du = d * u;
            assert(p * p == bv * bv - 2 * (bv * du) + du * du) by (nonlinear_arith)
                requires
                    p == bv - du,
            ;
            assert(bv * bv == b * (b * (v * v))) by (nonlinear_arith)
                requires
                    bv == b * v,
            ;
            assert(bv * du == b * (d * (u * v))) by (nonlinear_arith)
                requires
                    bv == b * v,
                    du == d * u,
            ;
            assert(du * du == (d * d) * (u * u)) by (nonlinear_arith)
                requires
                    du == d * u,
            ;
            assert(q * (u * u) == b * (c * (u * u)) - (d * d) * (u * u)) by (nonlinear_arith)
                requires
                    q == b * c - d * d,
            ;
            assert(b * rest == b * (b * (v * v)) + b * (c * (u * u)) - 2 * (b * (d * (u * v))))
                by (nonlinear_arith)
                requires
                    rest == b * (v * v) + c * (u * u) - 2 * (d * (u * v)),
            ;
            assert(b * rest == p * p + q * (u * u));
            assert(p * p + q * (u * u) >= 0) by (nonlinear_arith)
                requires
                    q >= 0,
            ;
            assert(rest >= 0) by (nonlinear_arith)
                requires
                    b > 0,
                    b * rest >= 0,
            ;
        }
    }
    assert((b + u * u) * (c + v * v) - (d + u * v) * (d + u * v) == rest + (b * c - d * d))
        by (nonlinear_arith)
        requires
            rest == b * (v * v) + c * (u * u) - 2 * (d * (u * v)),
    ;
}

/// Over the first `n` coordinates, the squared distance from `x` to `z`
/// exceeds the sum of the squared distances by way of `y` by twice the cross
/// sum, and the square of the cross sum is at most the product of the two
/// squared distances (Cauchy-Schwarz).
proof fn lemma_upto_triangle(x: Seq<int>, y: Seq<int>, z: Seq<int>, n: nat)
    ensures
        sq_distance_upto(x, z, n) == sq_distance_upto(x, y, n) + sq_distance_upto(y, z, n) + 2
            * cross_upto(x, y, z, n),
        cross_upto(x, y, z, n) * cross_upto(x, y, z, n) <= sq_distance_upto(x, y, n)
            * sq_distance_upto(y, z, n),
    decreases n,
{
    if n == 0 {
        assert(0int * 0int <= 0int * 0int);
    } else {
        let m = (n - 1) as nat;
        lemma_upto_triangle(x, y, z, m);
        lemma_upto_nonnegative(x, y, m);
        lemma_upto_nonnegative(y, z, m);
        let u = x[n - 1] - y[n - 1];
        let v = y[n - 1] - z[n - 1];
        let w = x[n - 1] - z[n - 1];
        assert(w * w == u * u + v * v + 2 * (u * v)) by (nonlinear_arith)
            requires
                w == u + v,
        ;
        lemma_cauchy_schwarz_step(
            sq_distance_upto(x, y, m),
            sq_distance_upto(y, z, m),
            cross_upto(x, y, z, m),
            u,
            v,
        );
    }
}

/// The squared distance of a vector from itself is zero.
pub proof fn lemma_sq_distance_self(x: Seq<int>)
    ensures
        sq_distance(x, x) == 0,
{
    lemma_upto_self(x, x.len());
}

/// The squared distance is never negative.
pub proof fn lemma_sq_distance_nonnegative(x: Seq<int>, y: Seq<int>)
    ensures
        sq_distance(x, y) >= 0,
{
    lemma_upto_nonnegative(x, y, x.len());
}

/// The squared distance does not depend on the order of its operands.
pub proof fn lemma_sq_distance_symmetric(x: Seq<int>, y: Seq<int>)
    requires
        x.len() == y.len(),
    ensures
        sq_distance(x, y) == sq_distance(y, x),
{
    lemma_upto_symmetric(x, y, x.len());
}

/// The triangle inequality, free of square roots.
///
/// With `a`, `b`, `c` the squared distances from `x` to `z`, from `x` to
/// `y` and from `y` to `z`, the law `(a - b - c)^2 <= 4 * b * c` says of
/// their non-negative roots that `sqrt(a) <= sqrt(b) + sqrt(c)`, and also
/// that `sqrt(a)` is at least the difference of the other two.
pub proof fn lemma_triangle_inequality(x: Seq<int>, y: Seq<int>, z: Seq<int>)
    requires
        x.len() == y.len(),
        y.len() == z.len(),
    ensures
        ({
            let a = sq_distance(x, z);
            let b = sq_distance(x, y);
            let c = sq_distance(y, z);
            (a - b - c) * (a - b - c) <= 4 * (b * c)
        }),
{
    lemma_upto_triangle(x, y, z, x.len());
    let a = sq_distance(x, z);
    let b = sq_distance(x, y);
    let c = sq_distance(y, z);
    let d = cross_upto(x, y, z, x.len());
    assert((a - b - c) * (a - b - c) == 4 * (d * d)) by (nonlinear_arith)
        requires
            a - b - c == 2 * d,
    ;
}

/// A kernel applied to a non-empty vector and itself returns zero, whatever
/// the result type.
pub proof fn lemma_euclidean_sq_self(x: Seq<int>, highest: int)
    requires
        x.len() > 0,
        0 <= highest,
    ensures
        euclidean_sq_spec(x, x, highest) == Ok::<int, DistanceError>(0),
{
    lemma_sq_distance_self(x);
}

/// A kernel returns the same distance, or the same error, for its operands in
/// either order.
pub proof fn lemma_euclidean_sq_symmetric(x: Seq<int>, y: Seq<int>, highest: int)
    ensures
        euclidean_sq_spec(x, y, highest) == euclidean_sq_spec(y, x, highest),
{
    if x.len() == y.len() {
        lemma_sq_distance_symmetric(x, y);
    }
}

/// A kernel never returns a negative distance.
pub proof fn lemma_euclidean_sq_nonnegative(x: Seq<int>, y: Seq<int>, highest: int)
    ensures
        euclidean_sq_spec(x, y, highest) matches Ok(d) ==> d >= 0,
{
    lemma_sq_distance_nonnegative(x, y);
}

} // verus!
