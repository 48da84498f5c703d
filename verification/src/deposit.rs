//! Deposits: what to take from the depositor, and how many shares the
//! measured balances are worth.

use vstd::prelude::*;
use crate::error::PoolError;
use crate::math::{fits, floor_sqrt, integer_sqrt, mul_div, ratio, ratio_defined};
use crate::state::{mint_shares, LiquidityPool, PoolModel, MINIMUM_LIQUIDITY};

verus! {

/// The amounts a depositor hands over, given what they offer and the least
/// they accept, at the ratio of the reserves. With both reserves empty the
/// offer is taken as it stands. Otherwise all of the first asset goes in
/// with its worth of the second, if the offer covers that and it is not
/// below `min_b`; failing that, all of the second with its worth of the
/// first, if the offer covers that and `desired_a` is not below `min_a`.
pub open spec fn deposit_amounts(
    desired_a: int,
    min_a: int,
    desired_b: int,
    min_b: int,
    reserve_a: int,
    reserve_b: int,
) -> Result<(int, int), PoolError> {
    if reserve_a == 0 && reserve_b == 0 {
        Ok((desired_a, desired_b))
    } else if !ratio_defined(desired_a, reserve_b, reserve_a) {
        Err(PoolError::ArithmeticError)
    } else if ratio(desired_a, reserve_b, reserve_a) <= desired_b {
        if ratio(desired_a, reserve_b, reserve_a) < min_b {
            Err(PoolError::SlippageExceeded)
        } else {
            Ok((desired_a, ratio(desired_a, reserve_b, reserve_a)))
        }
    } else if !ratio_defined(desired_b, reserve_a, reserve_b) {
        Err(PoolError::ArithmeticError)
    } else if ratio(desired_b, reserve_a, reserve_b) > desired_a || desired_a < min_a {
        Err(PoolError::SlippageExceeded)
    } else {
        Ok((ratio(desired_b, reserve_a, reserve_b), desired_b))
    }
}

/// Computes the amounts of both assets to take from a depositor.
pub fn get_deposit_amounts(
    desired_a: i128,
    min_a: i128,
    desired_b: i128,
    min_b: i128,
    reserve_a: i128,
    reserve_b: i128,
) -> (r: Result<(i128, i128), PoolError>)
    ensures
        match r {
            Ok((amount_a, amount_b)) => deposit_amounts(
                desired_a as int,
                min_a as int,
                desired_b as int,
                min_b as int,
                reserve_a as int,
                reserve_b as int,
            ) == Ok::<(int, int), PoolError>((amount_a as int, amount_b as int)),
            Err(e) => deposit_amounts(
                desired_a as int,
                min_a as int,
                desired_b as int,
                min_b as int,
                reserve_a as int,
                reserve_b as int,
            ) == Err::<(int, int), PoolError>(e),
        },
{
    if reserve_a == 0 && reserve_b == 0 {
        return Ok((desired_a, desired_b));
    }
    let amount_b: i128 = match mul_div(desired_a, reserve_b, reserve_a) {
        Ok(v) => v,
        Err(e) => {
            return Err(e);
        },
    };
    if amount_b <= desired_b {
        if amount_b < min_b {
            return Err(PoolError::SlippageExceeded);
        }
        Ok((desired_a, amount_b))
    } else {
        let amount_a: i128 = match mul_div(desired_b, reserve_a, reserve_b) {
            Ok(v) => v,
            Err(e) => {
                return Err(e);
            },
        };
        if amount_a > desired_a || desired_a < min_a {
            return Err(PoolError::SlippageExceeded);
        }
        Ok((amount_a, desired_b))
    }
}

/// What a deposit mints: `shares` to the depositor and `locked` to the pool
/// itself.
#[derive(Clone, Copy, Debug, PartialEq, Eq, Structural)]
pub struct DepositReceipt {
    /// Shares minted to the depositor.
    pub shares: i128,
    /// Shares minted to the pool itself, which nobody can redeem.
    pub locked: i128,
}

/// The smaller of two numbers.
pub open spec fn smaller(x: int, y: int) -> int {
    if x <= y {
        x
    } else {
        y
    }
}

/// All the shares that a deposit creates, once the balances are `balance_a`
/// and `balance_b`. While shares exist, each asset's gain is held against its
/// reserve and the smaller proportion counts; the first deposit creates the
/// square root of the product of the balances.
pub open spec fn deposit_shares(pool: PoolModel, balance_a: int, balance_b: int) -> int {
    if pool.total_shares > 0 {
        smaller(
            ratio(balance_a - pool.reserve_a, pool.total_shares, pool.reserve_a),
            ratio(balance_b - pool.reserve_b, pool.total_shares, pool.reserve_b),
        )
    } else {
        floor_sqrt(balance_a * balance_b)
    }
}

/// How many of the created shares go to the pool itself: `MINIMUM_LIQUIDITY`
/// of the first deposit, none after.
pub open spec fn deposit_locked(pool: PoolModel) -> int {
    if pool.total_shares > 0 {
        0
    } else {
        MINIMUM_LIQUIDITY as int
    }
}

/// Whether the shares of a deposit can be computed in 128 bits.
pub open spec fn deposit_shares_defined(pool: PoolModel, balance_a: int, balance_b: int) -> bool {
    if pool.total_shares > 0 {
        ratio_defined(balance_a - pool.reserve_a, pool.total_shares, pool.reserve_a)
            && ratio_defined(balance_b - pool.reserve_b, pool.total_shares, pool.reserve_b)
    } else {
        fits(balance_a * balance_b)
    }
}

/// Why a deposit cannot be booked on the measured balances, if it cannot: a
/// balance is negative, the shares cannot be computed, nothing would be left
/// for the depositor, or the new supply or product does not fit.
pub open spec fn deposit_rejection(pool: PoolModel, balance_a: int, balance_b: int) -> Option<
    PoolError,
> {
    if balance_a < 0 || balance_b < 0 {
        Some(PoolError::InsufficientLiquidity)
    } else if !deposit_shares_defined(pool, balance_a, balance_b) {
        Some(PoolError::ArithmeticError)
    } else if deposit_shares(pool, balance_a, balance_b) <= deposit_locked(pool) {
        Some(PoolError::InsufficientLiquidity)
    } else if !fits(pool.total_shares + deposit_shares(pool, balance_a, balance_b)) || !fits(
        balance_a * balance_b,
    ) {
        Some(PoolError::ArithmeticError)
    } else {
        None
    }
}

/// The pool after a booked deposit: the reserves are the measured balances,
/// the supply has grown by the created shares, and the product is recorded.
pub open spec fn after_deposit(pool: PoolModel, balance_a: int, balance_b: int) -> PoolModel {
    PoolModel {
        reserve_a: balance_a,
        reserve_b: balance_b,
        total_shares: pool.total_shares + deposit_shares(pool, balance_a, balance_b),
        k_last: balance_a * balance_b,
        ..pool
    }
}

impl LiquidityPool {
    /// Books a deposit on the balances measured after the depositor's
    /// payment came in, and says how many shares to mint.
    pub fn deposit(&mut self, balance_a: i128, balance_b: i128) -> (r: Result<
        DepositReceipt,
        PoolError,
    >)
        requires
            old(self)@.ready(),
        ensures
            match r {
                Ok(receipt) => deposit_rejection(old(self)@, balance_a as int, balance_b as int)
                    .is_none() && receipt.locked == deposit_locked(old(self)@) && receipt.shares
                    == deposit_shares(old(self)@, balance_a as int, balance_b as int)
                    - deposit_locked(old(self)@) && final(self)@ == after_deposit(
                    old(self)@,
                    balance_a as int,
                    balance_b as int,
                ),
                Err(e) => deposit_rejection(old(self)@, balance_a as int, balance_b as int)
                    == Some(e) && *final(self) == *old(self),
            },
            final(self)@.ready(),
            r matches Ok(receipt) ==> receipt.shares > 0 && final(self)@.total_shares
                == old(self)@.total_shares + receipt.shares + receipt.locked,
    {
        if balance_a < 0 || balance_b < 0 {
            return Err(PoolError::InsufficientLiquidity);
        }
        let total: i128 = self.total_shares;
        let shares: i128;
        let locked: i128;
        if total > 0 {
            let shares_a: i128 = match mul_div(balance_a - self.reserve_a, total, self.reserve_a) {
                Ok(v) => v,
                Err(e) => {
                    return Err(e);
                },
            };
            let shares_b: i128 = match mul_div(balance_b - self.reserve_b, total, self.reserve_b) {
                Ok(v) => v,
                Err(e) => {
                    return Err(e);
                },
            };
            shares = if shares_a <= shares_b {
                shares_a
            } else {
                shares_b
            };
            locked = 0;
        } else {
            let product: i128 = match balance_a.checked_mul(balance_b) {
                Some(v) => v,
                None => {
                    return Err(PoolError::ArithmeticError);
                },
            };
            assert(balance_a * balance_b >= 0) by (nonlinear_arith)
                requires
                    balance_a >= 0,
                    balance_b >= 0,
            ;
            shares = integer_sqrt(product);
            locked = MINIMUM_LIQUIDITY;
        }
        if shares <= locked {
            return Err(PoolError::InsufficientLiquidity);
        }
        let with_locked: i128 = match mint_shares(total, locked) {
            Ok(v) => v,
            Err(e) => {
                return Err(e);
            },
        };
        let new_total: i128 = match mint_shares(with_locked, shares - locked) {
            Ok(v) => v,
            Err(e) => {
                return Err(e);
            },
        };
        let k: i128 = match balance_a.checked_mul(balance_b) {
            Some(v) => v,
            None => {
                return Err(PoolError::ArithmeticError);
            },
        };
        self.reserve_a = balance_a;
        self.reserve_b = balance_b;
        self.total_shares = new_total;
        self.k_last = k;
        Ok(DepositReceipt { shares: shares - locked, locked })
    }
}

} // verus!
