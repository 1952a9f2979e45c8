//! Small arithmetic lemmas used by the lane scheduler's exact rational
//! comparisons.

use vstd::prelude::*;

verus! {

/// Multiplying both sides of `x <= y` by a nonnegative factor keeps the order.
pub proof fn lemma_mul_mono_right(a: int, x: int, y: int)
    requires
        a >= 0,
        x <= y,
    ensures
        a * x <= a * y,
{
    assert(a * x <= a * y) by (nonlinear_arith)
        requires
            a >= 0,
            x <= y,
    ;
}

/// A product of bounded factors is bounded.
pub proof fn lemma_abs_mul_le(a: int, b: int, ma: int, mb: int)
    requires
        -ma <= a <= ma,
        -mb <= b <= mb,
        0 <= ma,
        0 <= mb,
    ensures
        -(ma * mb) <= a * b <= ma * mb,
{
    assert(-(ma * mb) <= a * b <= ma * mb) by (nonlinear_arith)
        requires
            -ma <= a <= ma,
            -mb <= b <= mb,
            0 <= ma,
            0 <= mb,
    ;
}

/// A nonnegative number does not grow when divided.
pub proof fn lemma_div_le(x: int, d: int)
    requires
        x >= 0,
        d >= 1,
    ensures
        0 <= x / d <= x,
{
    assert(0 <= x / d <= x) by (nonlinear_arith)
        requires
            x >= 0,
            d >= 1,
    ;
}

} // verus!
