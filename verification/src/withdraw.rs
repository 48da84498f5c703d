//! Redemption of shares for a part of both balances.

use vstd::prelude::*;
use crate::error::PoolError;
use crate::math::{fits, mul_div, ratio, ratio_defined};
use crate::state::{burn_shares, LiquidityPool, PoolModel, MINIMUM_LIQUIDITY};

verus! {

/// Why shares cannot be redeemed, if they cannot: the amount is negative,
/// more than the owner holds or more than exist beside the locked shares; a
/// balance is negative; the amounts cannot be computed; one of them is
/// below the owner's floor; or the new product does not fit.
pub open spec fn withdraw_rejection(
    pool: PoolModel,
    share_amount: int,
    min_a: int,
    min_b: int,
    owner_shares: int,
    balance_a: int,
    balance_b: int,
) -> Option<PoolError> {
    if share_amount < 0 || share_amount > owner_shares || share_amount + MINIMUM_LIQUIDITY
        > pool.total_shares || balance_a < 0 || balance_b < 0 {
        Some(PoolError::InsufficientLiquidity)
    } else if !ratio_defined(balance_a, share_amount, pool.total_shares) || !ratio_defined(
        balance_b,
        share_amount,
        pool.total_shares,
    ) {
        Some(PoolError::ArithmeticError)
    } else if ratio(balance_a, share_amount, pool.total_shares) < min_a || ratio(
        balance_b,
        share_amount,
        pool.total_shares,
    ) < min_b {
        Some(PoolError::SlippageExceeded)
    } else if !fits(
        (balance_a - ratio(balance_a, share_amount, pool.total_shares)) * (balance_b - ratio(
            balance_b,
            share_amount,
            pool.total_shares,
        )),
    ) {
        Some(PoolError::ArithmeticError)
    } else {
        None
    }
}

/// The pool after shares were redeemed: each reserve is the measured balance
/// less the owner's part of it, the supply has shrunk by the shares, and the
/// product of the new reserves is recorded.
pub open spec fn after_withdraw(
    pool: PoolModel,
    share_amount: int,
    balance_a: int,
    balance_b: int,
) -> PoolModel {
    let reserve_a = balance_a - ratio(balance_a, share_amount, pool.total_shares);
    let reserve_b = balance_b - ratio(balance_b, share_amount, pool.total_shares);
    PoolModel {
        reserve_a,
        reserve_b,
        total_shares: pool.total_shares - share_amount,
        k_last: reserve_a * reserve_b,
        ..pool
    }
}

/// A part of a non-negative balance, in proportion `part` of `whole`, is
/// between nothing and the balance.
pub proof fn lemma_part_of_balance(balance: int, part: int, whole: int)
    requires
        balance >= 0,
        0 <= part <= whole,
        whole > 0,
    ensures
        0 <= ratio(balance, part, whole) <= balance,
{
    assert(0 <= balance * part <= balance * whole) by (nonlinear_arith)
        requires
            balance >= 0,
            0 <= part <= whole,
    ;
    assert(0 <= (balance * part) / whole <= balance) by (nonlinear_arith)
        requires
            0 <= balance * part <= balance * whole,
            whole > 0,
    ;
}

impl LiquidityPool {
    /// Redeems `share_amount` shares of an owner who holds `owner_shares`, on
    /// the measured balances, and says how much of each asset to pay. The
    /// shares locked in the pool cannot be redeemed.
    pub fn withdraw(
        &mut self,
        share_amount: i128,
        min_a: i128,
        min_b: i128,
        owner_shares: i128,
        balance_a: i128,
        balance_b: i128,
    ) -> (r: Result<(i128, i128), PoolError>)
        requires
            old(self)@.ready(),
        ensures
            match r {
                Ok((out_a, out_b)) => withdraw_rejection(
                    old(self)@,
                    share_amount as int,
                    min_a as int,
                    min_b as int,
                    owner_shares as int,
                    balance_a as int,
                    balance_b as int,
                ).is_none() && out_a == ratio(
                    balance_a as int,
                    share_amount as int,
                    old(self)@.total_shares,
                ) && out_b == ratio(balance_b as int, share_amount as int, old(self)@.total_shares)
                    && final(self)@ == after_withdraw(
                    old(self)@,
                    share_amount as int,
                    balance_a as int,
                    balance_b as int,
                ),
                Err(e) => withdraw_rejection(
                    old(self)@,
                    share_amount as int,
                    min_a as int,
                    min_b as int,
                    owner_shares as int,
                    balance_a as int,
                    balance_b as int,
                ) == Some(e) && *final(self) == *old(self),
            },
            final(self)@.ready(),
            r matches Ok((out_a, out_b)) ==> 0 <= out_a <= balance_a && 0 <= out_b <= balance_b
                && final(self)@.total_shares == old(self)@.total_shares - share_amount,
    {
        if share_amount < 0 || share_amount > owner_shares || balance_a < 0 || balance_b < 0 {
            return Err(PoolError::InsufficientLiquidity);
        }
        let total: i128 = self.total_shares;
        if total < MINIMUM_LIQUIDITY || share_amount > total - MINIMUM_LIQUIDITY {
            return Err(PoolError::InsufficientLiquidity);
        }
        let out_a: i128 = match mul_div(balance_a, share_amount, total) {
            Ok(v) => v,
            Err(e) => {
                return Err(e);
            },
        };
        let out_b: i128 = match mul_div(balance_b, share_amount, total) {
            Ok(v) => v,
            Err(e) => {
                return Err(e);
            },
        };
        if out_a < min_a || out_b < min_b {
            return Err(PoolError::SlippageExceeded);
        }
        proof {
            lemma_part_of_balance(balance_a as int, share_amount as int, total as int);
            lemma_part_of_balance(balance_b as int, share_amount as int, total as int);
        }
        let new_total: i128 = match burn_shares(total, share_amount) {
            Ok(v) => v,
            Err(e) => {
                return Err(e);
            },
        };
        let reserve_a: i128 = balance_a - out_a;
        let reserve_b: i128 = balance_b - out_b;
        let k: i128 = match reserve_a.checked_mul(reserve_b) {
            Some(v) => v,
            None => {
                return Err(PoolError::ArithmeticError);
            },
        };
        self.reserve_a = reserve_a;
        self.reserve_b = reserve_b;
        self.total_shares = new_total;
        self.k_last = k;
        Ok((out_a, out_b))
    }
}

} // verus!
