use vstd::arithmetic::div_mod::{lemma_fundamental_div_mod, lemma_mod_pos_bound};
use vstd::prelude::*;

verus! {

/// `a / b` rounded to the nearest integer, halves rounded up.
pub open spec fn round_div(a: int, b: int) -> int {
    (2 * a + b) / (2 * b)
}

/// A quotient stays at or below `k` when the dividend is below `(k + 1) * y`.
pub proof fn lemma_div_le(x: int, y: int, k: int)
    requires
        0 <= x,
        0 < y,
        x < (k + 1) * y,
    ensures
        x / y <= k,
{
    lemma_fundamental_div_mod(x, y);
    lemma_mod_pos_bound(x, y);
    let q = x / y;
    let r = x % y;
    assert(q <= k) by (nonlinear_arith)
        requires
            x == y * q + r,
            0 <= r,
            0 < y,
            x < (k + 1) * y,
    ;
}

/// Rounding `a / b` never exceeds `k` when `a <= k * b`.
pub proof fn lemma_round_div_le(a: int, b: int, k: int)
    requires
        0 <= a,
        0 < b,
        0 <= k,
        a <= k * b,
    ensures
        0 <= round_div(a, b) <= k,
{
    assert(2 * a + b < (k + 1) * (2 * b)) by (nonlinear_arith)
        requires
            a <= k * b,
            0 < b,
    ;
    lemma_div_le(2 * a + b, 2 * b, k);
    assert(0 <= (2 * a + b) / (2 * b)) by (nonlinear_arith)
        requires
            0 <= a,
            0 < b,
    ;
}

/// A product of bounded non-negative factors is bounded by the product of the bounds.
pub proof fn lemma_mul_le(a: int, b: int, c: int, d: int)
    requires
        0 <= a <= c,
        0 <= b <= d,
    ensures
        0 <= a * b <= c * d,
{
    assert(0 <= a * b <= c * d) by (nonlinear_arith)
        requires
            0 <= a <= c,
            0 <= b <= d,
    ;
}

} // verus!
