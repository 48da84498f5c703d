//! Trades: pricing on the reserves, settlement on the measured balances.

use vstd::prelude::*;
use crate::error::PoolError;
use crate::laws::{lemma_purchase_keeps_product, lemma_sale_keeps_product};
use crate::math::{fits, is_result};
use crate::quote::{
    buy_quote, get_amount_in, get_amount_out, invariant_factor, invariant_factor_fits,
    new_invariant_factor, sell_quote, FEE_DENOMINATOR,
};
use crate::state::{LiquidityPool, PoolModel};

verus! {

/// A trade that has been priced and awaits settlement: the trader hands over
/// `amount_in` of the asset sold, the balances are measured, and on a
/// successful settlement `amount_out` of the other asset is paid.
#[derive(Clone, Copy, Debug, PartialEq, Eq, Structural)]
pub struct PendingSwap {
    /// Whether the first asset is sold (and the second bought).
    pub sell_a: bool,
    /// The amount to take from the trader.
    pub amount_in: i128,
    /// The amount to pay to the trader.
    pub amount_out: i128,
}

impl PendingSwap {
    /// What the trade pays of the first asset.
    pub open spec fn out_a(self) -> int {
        if self.sell_a {
            0
        } else {
            self.amount_out as int
        }
    }

    /// What the trade pays of the second asset.
    pub open spec fn out_b(self) -> int {
        if self.sell_a {
            self.amount_out as int
        } else {
            0
        }
    }
}

/// The amount bought when `amount_in` is sold, the first asset if `sell_a`:
/// the quote on the reserves, refused if it is below `min_out`.
pub open spec fn exact_input_swap(pool: PoolModel, sell_a: bool, amount_in: int, min_out: int)
    -> Result<int, PoolError> {
    match sell_quote(amount_in, pool.reserve_of(sell_a), pool.reserve_of(!sell_a)) {
        Err(e) => Err(e),
        Ok(amount_out) => if amount_out < min_out {
            Err(PoolError::SlippageExceeded)
        } else {
            Ok(amount_out)
        },
    }
}

/// The amount to sell for `desired_out` bought, of the first asset if `buy_a`:
/// the quote on the reserves, refused if it is above `max_in`.
pub open spec fn exact_output_swap(pool: PoolModel, buy_a: bool, desired_out: int, max_in: int)
    -> Result<int, PoolError> {
    match buy_quote(desired_out, pool.reserve_of(!buy_a), pool.reserve_of(buy_a)) {
        Err(e) => Err(e),
        Ok(amount_in) => if amount_in > max_in {
            Err(PoolError::SlippageExceeded)
        } else {
            Ok(amount_in)
        },
    }
}

/// The fee-adjusted product of the reserves does not fall when the balances
/// are `balance_a` and `balance_b` and `out_a` and `out_b` are paid.
pub open spec fn product_kept(
    pool: PoolModel,
    balance_a: int,
    balance_b: int,
    out_a: int,
    out_b: int,
) -> bool {
    invariant_factor(balance_a, pool.reserve_a, out_a) * invariant_factor(
        balance_b,
        pool.reserve_b,
        out_b,
    ) >= (10000 * pool.reserve_a) * (10000 * pool.reserve_b)
}

/// Whether the product check can be computed in 128 bits.
pub open spec fn product_check_fits(
    pool: PoolModel,
    balance_a: int,
    balance_b: int,
    out_a: int,
    out_b: int,
) -> bool {
    &&& invariant_factor_fits(balance_a, pool.reserve_a, out_a)
    &&& invariant_factor_fits(balance_b, pool.reserve_b, out_b)
    &&& fits(
        invariant_factor(balance_a, pool.reserve_a, out_a) * invariant_factor(
            balance_b,
            pool.reserve_b,
            out_b,
        ),
    )
    &&& fits((10000 * pool.reserve_a) * (10000 * pool.reserve_b))
}

/// Why a trade cannot be settled on the measured balances, if it cannot: a
/// reserve is empty, a payment is negative or more than the pool holds, the
/// check cannot be computed, or the fee-adjusted product would fall.
pub open spec fn swap_rejection(
    pool: PoolModel,
    balance_a: int,
    balance_b: int,
    out_a: int,
    out_b: int,
) -> Option<PoolError> {
    if pool.reserve_a <= 0 || pool.reserve_b <= 0 || out_a < 0 || out_b < 0 || balance_a < out_a
        || balance_b < out_b {
        Some(PoolError::InsufficientLiquidity)
    } else if !product_check_fits(pool, balance_a, balance_b, out_a, out_b) {
        Some(PoolError::ArithmeticError)
    } else if !product_kept(pool, balance_a, balance_b, out_a, out_b) {
        Some(PoolError::InvariantViolation)
    } else {
        None
    }
}

/// The pool after a settled trade: each reserve is the measured balance less
/// what was paid out of it.
pub open spec fn after_swap(pool: PoolModel, balance_a: int, balance_b: int, out_a: int, out_b: int)
    -> PoolModel {
    PoolModel { reserve_a: balance_a - out_a, reserve_b: balance_b - out_b, ..pool }
}

impl LiquidityPool {
    /// Prices the sale of `x_in`, of the first asset if `swap_x_to_y`, and
    /// refuses it if less than `y_min_out` would be bought.
    pub fn swap_exact_input(&self, swap_x_to_y: bool, x_in: i128, y_min_out: i128) -> (r: Result<
        PendingSwap,
        PoolError,
    >)
        requires
            self@.ready(),
        ensures
            is_result(
                match r {
                    Ok(swap) => Ok(swap.amount_out),
                    Err(e) => Err(e),
                },
                exact_input_swap(self@, swap_x_to_y, x_in as int, y_min_out as int),
            ),
            r matches Ok(swap) ==> swap.sell_a == swap_x_to_y && swap.amount_in == x_in && 0
                <= swap.amount_out < self@.reserve_of(!swap_x_to_y),
    {
        let (reserve_x, reserve_y) = if swap_x_to_y {
            (self.reserve_a, self.reserve_b)
        } else {
            (self.reserve_b, self.reserve_a)
        };
        let amount_out: i128 = match get_amount_out(x_in, reserve_x, reserve_y) {
            Ok(v) => v,
            Err(e) => {
                return Err(e);
            },
        };
        if amount_out < y_min_out {
            return Err(PoolError::SlippageExceeded);
        }
        proof {
            lemma_sale_keeps_product(x_in as int, reserve_x as int, reserve_y as int);
        }
        Ok(PendingSwap { sell_a: swap_x_to_y, amount_in: x_in, amount_out })
    }

    /// Prices the purchase of `y_out`, of the first asset if `buy_a`, and
    /// refuses it if more than `x_max_in` would have to be sold.
    pub fn swap_exact_output(&self, buy_a: bool, y_out: i128, x_max_in: i128) -> (r: Result<
        PendingSwap,
        PoolError,
    >)
        requires
            self@.ready(),
        ensures
            is_result(
                match r {
                    Ok(swap) => Ok(swap.amount_in),
                    Err(e) => Err(e),
                },
                exact_output_swap(self@, buy_a, y_out as int, x_max_in as int),
            ),
            r matches Ok(swap) ==> swap.sell_a == !buy_a && swap.amount_out == y_out
                && swap.amount_in >= 1 && 0 <= swap.amount_out < self@.reserve_of(buy_a),
    {
        let (reserve_sell, reserve_buy) = if buy_a {
            (self.reserve_b, self.reserve_a)
        } else {
            (self.reserve_a, self.reserve_b)
        };
        let sell_amount: i128 = match get_amount_in(y_out, reserve_sell, reserve_buy) {
            Ok(v) => v,
            Err(e) => {
                return Err(e);
            },
        };
        if sell_amount > x_max_in {
            return Err(PoolError::SlippageExceeded);
        }
        proof {
            lemma_purchase_keeps_product(y_out as int, reserve_sell as int, reserve_buy as int);
        }
        Ok(PendingSwap { sell_a: !buy_a, amount_in: sell_amount, amount_out: y_out })
    }

    /// Settles a priced trade on the balances measured after the trader's
    /// payment came in. The check goes by the balances, not by the amounts
    /// named, so an asset that keeps part of a transfer cannot cheat it.
    pub fn settle_swap(&mut self, swap: &PendingSwap, balance_a: i128, balance_b: i128) -> (r:
        Result<(), PoolError>)
        requires
            old(self)@.ready(),
        ensures
            match r {
                Ok(()) => swap_rejection(
                    old(self)@,
                    balance_a as int,
                    balance_b as int,
                    swap.out_a(),
                    swap.out_b(),
                ).is_none() && final(self)@ == after_swap(
                    old(self)@,
                    balance_a as int,
                    balance_b as int,
                    swap.out_a(),
                    swap.out_b(),
                ),
                Err(e) => swap_rejection(
                    old(self)@,
                    balance_a as int,
                    balance_b as int,
                    swap.out_a(),
                    swap.out_b(),
                ) == Some(e) && *final(self) == *old(self),
            },
            final(self)@.ready(),
            r.is_ok() ==> product_kept(
                old(self)@,
                balance_a as int,
                balance_b as int,
                swap.out_a(),
                swap.out_b(),
            ),
    {
        let (out_a, out_b) = if swap.sell_a {
            (0i128, swap.amount_out)
        } else {
            (swap.amount_out, 0i128)
        };
        if self.reserve_a <= 0 || self.reserve_b <= 0 || out_a < 0 || out_b < 0 || balance_a
            < out_a || balance_b < out_b {
            return Err(PoolError::InsufficientLiquidity);
        }
        let new_inv_a: i128 = match new_invariant_factor(balance_a, self.reserve_a, out_a) {
            Ok(v) => v,
            Err(e) => {
                return Err(e);
            },
        };
        let new_inv_b: i128 = match new_invariant_factor(balance_b, self.reserve_b, out_b) {
            Ok(v) => v,
            Err(e) => {
                return Err(e);
            },
        };
        let old_inv_a: i128 = match FEE_DENOMINATOR.checked_mul(self.reserve_a) {
            Some(v) => v,
            None => {
                return Err(PoolError::ArithmeticError);
            },
        };
        let old_inv_b: i128 = match FEE_DENOMINATOR.checked_mul(self.reserve_b) {
            Some(v) => v,
            None => {
                return Err(PoolError::ArithmeticError);
            },
        };
        let new_product: i128 = match new_inv_a.checked_mul(new_inv_b) {
            Some(v) => v,
            None => {
                return Err(PoolError::ArithmeticError);
            },
        };
        let old_product: i128 = match old_inv_a.checked_mul(old_inv_b) {
            Some(v) => v,
            None => {
                return Err(PoolError::ArithmeticError);
            },
        };
        if new_product < old_product {
            return Err(PoolError::InvariantViolation);
        }
        self.reserve_a = balance_a - out_a;
        self.reserve_b = balance_b - out_b;
        Ok(())
    }
}

} // verus!
