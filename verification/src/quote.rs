//! The price of a trade, in both directions, and the factors of the product
//! check.

use vstd::prelude::*;
use crate::error::PoolError;
use crate::math::{fits, is_result};

verus! {

/// Of every 10000 units sold, this many count toward the price; the rest is
/// the fee, which stays in the pool.
pub const FEE_NUMERATOR: i128 = 9975;

/// The scale of the fee.
pub const FEE_DENOMINATOR: i128 = 10000;

/// What is received for selling `amount_in` into reserves `reserve_in` and
/// `reserve_out`: `amount_in * 9975 * reserve_out / (reserve_in * 10000 + amount_in * 9975)`,
/// rounded down.
pub open spec fn amount_out(amount_in: int, reserve_in: int, reserve_out: int) -> int {
    (amount_in * 9975 * reserve_out) / (reserve_in * 10000 + amount_in * 9975)
}

/// Whether the numerator and the denominator of `amount_out` fit in 128 bits.
pub open spec fn amount_out_fits(amount_in: int, reserve_in: int, reserve_out: int) -> bool {
    fits(amount_in * 9975 * reserve_out) && fits(reserve_in * 10000 + amount_in * 9975)
}

/// The quote for selling `amount_in`: refused unless the amount and both
/// reserves are positive, and unless the formula can be computed in 128 bits.
pub open spec fn sell_quote(amount_in: int, reserve_in: int, reserve_out: int) -> Result<
    int,
    PoolError,
> {
    if amount_in <= 0 || reserve_in <= 0 || reserve_out <= 0 {
        Err(PoolError::InsufficientLiquidity)
    } else if !amount_out_fits(amount_in, reserve_in, reserve_out) {
        Err(PoolError::ArithmeticError)
    } else {
        Ok(amount_out(amount_in, reserve_in, reserve_out))
    }
}

/// Quotes the amount bought for `amount_in` sold.
pub fn get_amount_out(amount_in: i128, reserve_in: i128, reserve_out: i128) -> (r: Result<
    i128,
    PoolError,
>)
    ensures
        is_result(r, sell_quote(amount_in as int, reserve_in as int, reserve_out as int)),
{
    if amount_in <= 0 || reserve_in <= 0 || reserve_out <= 0 {
        return Err(PoolError::InsufficientLiquidity);
    }
    let amount_in_with_fee: i128 = match amount_in.checked_mul(FEE_NUMERATOR) {
        Some(v) => v,
        None => {
            return Err(PoolError::ArithmeticError);
        },
    };
    let numerator: i128 = match amount_in_with_fee.checked_mul(reserve_out) {
        Some(v) => v,
        None => {
            return Err(PoolError::ArithmeticError);
        },
    };
    let scaled_reserve: i128 = match reserve_in.checked_mul(FEE_DENOMINATOR) {
        Some(v) => v,
        None => {
            return Err(PoolError::ArithmeticError);
        },
    };
    let denominator: i128 = match scaled_reserve.checked_add(amount_in_with_fee) {
        Some(v) => v,
        None => {
            return Err(PoolError::ArithmeticError);
        },
    };
    Ok(numerator / denominator)
}

/// What must be sold into reserves `reserve_sell` and `reserve_buy` to take
/// `desired_out` from the second:
/// `reserve_sell * desired_out * 10000 / ((reserve_buy - desired_out) * 9975) + 1`,
/// the quotient rounded down. The added unit rounds in the pool's favour.
pub open spec fn amount_in(desired_out: int, reserve_sell: int, reserve_buy: int) -> int {
    (reserve_sell * desired_out * 10000) / ((reserve_buy - desired_out) * 9975) + 1
}

/// Whether the numerator and the denominator of `amount_in` fit in 128 bits.
pub open spec fn amount_in_fits(desired_out: int, reserve_sell: int, reserve_buy: int) -> bool {
    fits(reserve_sell * desired_out * 10000) && fits((reserve_buy - desired_out) * 9975)
}

/// The quote for buying `desired_out`: refused where the amount is negative,
/// a reserve is not positive or the reserve cannot pay; where the whole
/// reserve is asked for (a division by zero); and where the formula cannot be
/// computed in 128 bits.
pub open spec fn buy_quote(desired_out: int, reserve_sell: int, reserve_buy: int) -> Result<
    int,
    PoolError,
> {
    if desired_out < 0 || reserve_sell <= 0 || reserve_buy <= 0 || reserve_buy < desired_out {
        Err(PoolError::InsufficientLiquidity)
    } else if reserve_buy == desired_out || !amount_in_fits(
        desired_out,
        reserve_sell,
        reserve_buy,
    ) {
        Err(PoolError::ArithmeticError)
    } else {
        Ok(amount_in(desired_out, reserve_sell, reserve_buy))
    }
}

/// Quotes the amount to sell for `desired_out` bought.
pub fn get_amount_in(desired_out: i128, reserve_sell: i128, reserve_buy: i128) -> (r: Result<
    i128,
    PoolError,
>)
    ensures
        is_result(r, buy_quote(desired_out as int, reserve_sell as int, reserve_buy as int)),
{
    if desired_out < 0 || reserve_sell <= 0 || reserve_buy <= 0 || reserve_buy < desired_out {
        return Err(PoolError::InsufficientLiquidity);
    }
    if reserve_buy == desired_out {
        return Err(PoolError::ArithmeticError);
    }
    let sold_out: i128 = match reserve_sell.checked_mul(desired_out) {
        Some(v) => v,
        None => {
            proof {
                lemma_product_grows(reserve_sell as int * desired_out as int, 10000);
            }
            return Err(PoolError::ArithmeticError);
        },
    };
    let numerator: i128 = match sold_out.checked_mul(FEE_DENOMINATOR) {
        Some(v) => v,
        None => {
            return Err(PoolError::ArithmeticError);
        },
    };
    let remaining: i128 = reserve_buy - desired_out;
    let denominator: i128 = match remaining.checked_mul(FEE_NUMERATOR) {
        Some(v) => v,
        None => {
            return Err(PoolError::ArithmeticError);
        },
    };
    let quotient: i128 = numerator / denominator;
    proof {
        lemma_quotient_bounds(numerator as int, denominator as int);
    }
    Ok(quotient + 1)
}

/// A non-negative product does not shrink when multiplied by a positive number.
proof fn lemma_product_grows(x: int, k: int)
    requires
        k >= 1,
    ensures
        x >= 0 ==> x * k >= x,
        x <= 0 ==> x * k <= x,
{
    assert(x >= 0 ==> x * k >= x) by (nonlinear_arith)
        requires
            k >= 1,
    ;
    assert(x <= 0 ==> x * k <= x) by (nonlinear_arith)
        requires
            k >= 1,
    ;
}

/// The quotient of a non-negative number by a positive one lies between zero
/// and the number.
proof fn lemma_quotient_bounds(n: int, d: int)
    requires
        n >= 0,
        d >= 1,
    ensures
        0 <= n / d <= n,
{
    assert(0 <= n / d <= n) by (nonlinear_arith)
        requires
            n >= 0,
            d >= 1,
    ;
}

/// What a change of `delta` in a balance counts for in the product check:
/// a gain counts less its fee, a loss counts in full. Scaled by 10000.
pub open spec fn fee_adjusted(delta: int) -> int {
    if delta > 0 {
        9975 * delta
    } else {
        10000 * delta
    }
}

/// One factor of the product check: the reserve, scaled by 10000, and the
/// fee-adjusted change of the balance once `out` has been paid.
pub open spec fn invariant_factor(balance: int, reserve: int, out: int) -> int {
    10000 * reserve + fee_adjusted(balance - reserve - out)
}

/// Whether every step of `invariant_factor` fits in 128 bits.
pub open spec fn invariant_factor_fits(balance: int, reserve: int, out: int) -> bool {
    &&& fits(balance - reserve)
    &&& fits(balance - reserve - out)
    &&& fits(fee_adjusted(balance - reserve - out))
    &&& fits(10000 * reserve)
    &&& fits(invariant_factor(balance, reserve, out))
}

/// The factor where it can be computed, and why not where it cannot.
pub open spec fn checked_invariant_factor(balance: int, reserve: int, out: int) -> Result<
    int,
    PoolError,
> {
    if invariant_factor_fits(balance, reserve, out) {
        Ok(invariant_factor(balance, reserve, out))
    } else {
        Err(PoolError::ArithmeticError)
    }
}

/// Computes one factor of the product check from a measured balance.
pub fn new_invariant_factor(balance: i128, reserve: i128, out: i128) -> (r: Result<
    i128,
    PoolError,
>)
    ensures
        is_result(r, checked_invariant_factor(balance as int, reserve as int, out as int)),
{
    let gross: i128 = match balance.checked_sub(reserve) {
        Some(v) => v,
        None => {
            return Err(PoolError::ArithmeticError);
        },
    };
    let delta: i128 = match gross.checked_sub(out) {
        Some(v) => v,
        None => {
            return Err(PoolError::ArithmeticError);
        },
    };
    let residue: i128 = if delta > 0 {
        FEE_NUMERATOR
    } else {
        FEE_DENOMINATOR
    };
    let adjusted: i128 = match residue.checked_mul(delta) {
        Some(v) => v,
        None => {
            return Err(PoolError::ArithmeticError);
        },
    };
    let scaled_reserve: i128 = match FEE_DENOMINATOR.checked_mul(reserve) {
        Some(v) => v,
        None => {
            return Err(PoolError::ArithmeticError);
        },
    };
    match scaled_reserve.checked_add(adjusted) {
        Some(v) => Ok(v),
        None => Err(PoolError::ArithmeticError),
    }
}

} // verus!
