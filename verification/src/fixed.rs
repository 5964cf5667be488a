//! The fixed-point format shared by every plane quantity: 32 fractional
//! bits, so that the integer `r` stands for the real number `r / 2^32`.

use vstd::prelude::*;

verus! {

/// The fixed-point number 1.0, which is `2^32`.
pub const ONE: i64 = 4294967296;

/// The quotient of `a` by a positive `b`, rounded toward zero.
pub open spec fn trunc_div(a: int, b: int) -> int {
    if a >= 0 {
        a / b
    } else {
        -((-a) / b)
    }
}

/// 1.0 in the scale of a product of two fixed-point numbers.
pub const ONE_SQUARED: i128 = 18446744073709551616;

/// Rounding toward zero: the quotient times the divisor lies between 0 and
/// the dividend, less than one divisor away from the dividend.
pub proof fn lemma_trunc_div_rounds(a: int, b: int)
    requires
        b > 0,
    ensures
        a >= 0 ==> a - b < trunc_div(a, b) * b <= a && trunc_div(a, b) >= 0,
        a <= 0 ==> a <= trunc_div(a, b) * b < a + b && trunc_div(a, b) <= 0,
{
    let m = if a >= 0 { a } else { -a };
    assert(m - b < (m / b) * b <= m && m / b >= 0) by (nonlinear_arith)
        requires
            m >= 0,
            b > 0,
    ;
    if a < 0 {
        assert((-(m / b)) * b == -((m / b) * b)) by (nonlinear_arith);
    }
}

/// A quotient by a positive divisor is no larger in magnitude than the
/// dividend, and has its sign.
pub proof fn lemma_trunc_div_magnitude(a: int, b: int)
    requires
        b > 0,
    ensures
        a >= 0 ==> 0 <= trunc_div(a, b) <= a,
        a <= 0 ==> a <= trunc_div(a, b) <= 0,
{
    lemma_trunc_div_rounds(a, b);
    let q = trunc_div(a, b);
    assert(q >= 0 ==> q <= q * b) by (nonlinear_arith)
        requires
            b > 0,
    ;
    assert(q <= 0 ==> q * b <= q) by (nonlinear_arith)
        requires
            b > 0,
    ;
}

/// A quotient by 1.0 is no larger in magnitude than `bound / 2^32`.
pub proof fn lemma_trunc_div_one_bound(a: int, bound: int)
    requires
        -bound <= a <= bound,
    ensures
        -(bound / (ONE as int)) <= trunc_div(a, ONE as int) <= bound / (ONE as int),
{
    if a >= 0 {
        assert(a / 4294967296 <= bound / 4294967296);
    } else {
        assert((-a) / 4294967296 <= bound / 4294967296);
    }
}

/// The nearest 64-bit value to `v`.
pub open spec fn saturate(v: int) -> i64 {
    if v > i64::MAX {
        i64::MAX
    } else if v < i64::MIN {
        i64::MIN
    } else {
        v as i64
    }
}

/// Brings a wide value into the 64-bit range, keeping it where it fits and
/// taking the nearer end of the range where it does not.
pub fn saturate_wide(v: i128) -> (r: i64)
    ensures
        r == saturate(v as int),
{
    if v > i64::MAX as i128 {
        i64::MAX
    } else if v < i64::MIN as i128 {
        i64::MIN
    } else {
        v as i64
    }
}

} // verus!
