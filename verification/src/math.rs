//! Arithmetic in 128 bits that refuses instead of wrapping.

use vstd::prelude::*;
use crate::error::PoolError;

verus! {

/// Whether `x` can be held in an `i128`.
pub open spec fn fits(x: int) -> bool {
    i128::MIN <= x <= i128::MAX
}

/// Whether the computed `r` is the mathematical result `m`.
pub open spec fn is_result(r: Result<i128, PoolError>, m: Result<int, PoolError>) -> bool {
    match r {
        Ok(v) => m == Ok::<int, PoolError>(v as int),
        Err(e) => m == Err::<int, PoolError>(e),
    }
}

/// The quotient of `n` by `d`, rounded toward zero.
pub open spec fn trunc_div(n: int, d: int) -> int
    recommends
        d != 0,
{
    if n >= 0 && d > 0 {
        n / d
    } else if n < 0 && d < 0 {
        (-n) / (-d)
    } else if n < 0 {
        -((-n) / d)
    } else {
        -(n / (-d))
    }
}

/// `x * num / den`, rounded toward zero.
pub open spec fn ratio(x: int, num: int, den: int) -> int {
    trunc_div(x * num, den)
}

/// Whether `x * num / den` can be computed in 128 bits.
pub open spec fn ratio_defined(x: int, num: int, den: int) -> bool {
    den != 0 && fits(x * num) && fits(ratio(x, num, den))
}

/// `x * num / den` where it can be computed, and why not where it cannot.
pub open spec fn checked_ratio(x: int, num: int, den: int) -> Result<int, PoolError> {
    if ratio_defined(x, num, den) {
        Ok(ratio(x, num, den))
    } else {
        Err(PoolError::ArithmeticError)
    }
}

/// Computes `x * num / den`, rounded toward zero.
pub fn mul_div(x: i128, num: i128, den: i128) -> (r: Result<i128, PoolError>)
    ensures
        is_result(r, checked_ratio(x as int, num as int, den as int)),
{
    match x.checked_mul(num) {
        None => Err(PoolError::ArithmeticError),
        Some(product) => match product.checked_div(den) {
            None => Err(PoolError::ArithmeticError),
            Some(quotient) => Ok(quotient),
        },
    }
}

/// Whether `r` is the square root of `n`, rounded down.
pub open spec fn is_floor_sqrt(r: int, n: int) -> bool {
    0 <= r && r * r <= n < (r + 1) * (r + 1)
}

/// The square root of `n`, rounded down. Meaningful for `n >= 0`.
pub open spec fn floor_sqrt(n: int) -> int {
    choose|r: int| is_floor_sqrt(r, n)
}

/// At most one number is the rounded-down square root of `n`.
pub proof fn lemma_floor_sqrt_unique(r: int, s: int, n: int)
    requires
        is_floor_sqrt(r, n),
        is_floor_sqrt(s, n),
    ensures
        r == s,
{
    if r < s {
        assert((r + 1) * (r + 1) <= s * s) by (nonlinear_arith)
            requires
                0 <= r,
                r + 1 <= s,
        ;
    }
    if s < r {
        assert((s + 1) * (s + 1) <= r * r) by (nonlinear_arith)
            requires
                0 <= s,
                s + 1 <= r,
        ;
    }
}

/// Every non-negative number has a rounded-down square root, and
/// `floor_sqrt` is it.
pub proof fn lemma_floor_sqrt_exists(n: int)
    requires
        n >= 0,
    ensures
        is_floor_sqrt(floor_sqrt(n), n),
    decreases n,
{
    if n == 0 {
        assert(is_floor_sqrt(0, 0));
    } else {
        lemma_floor_sqrt_exists(n - 1);
        let r = floor_sqrt(n - 1);
        if n < (r + 1) * (r + 1) {
            assert(is_floor_sqrt(r, n));
        } else {
            assert((r + 2) * (r + 2) > (r + 1) * (r + 1)) by (nonlinear_arith)
                requires
                    0 <= r,
            ;
            assert(is_floor_sqrt(r + 1, n));
        }
    }
}

/// `num_integer::Roots::sqrt` on `i128`. The crate documents that it panics
/// on a negative number and otherwise returns the truncated square root `r`,
/// with `r * r <= n < (r + 1) * (r + 1)`; the contract repeats that and is
/// not proved here.
#[verifier::external_body]
fn roots_sqrt(n: i128) -> (r: i128)
    requires
        n >= 0,
    ensures
        is_floor_sqrt(r as int, n as int),
{
    num_integer::Roots::sqrt(&n)
}

/// The square root of `n`, rounded down.
pub fn integer_sqrt(n: i128) -> (r: i128)
    requires
        n >= 0,
    ensures
        r == floor_sqrt(n as int),
        is_floor_sqrt(r as int, n as int),
{
    let r: i128 = roots_sqrt(n);
    proof {
        lemma_floor_sqrt_exists(n as int);
        lemma_floor_sqrt_unique(r as int, floor_sqrt(n as int), n as int);
    }
    r
}

} // verus!
