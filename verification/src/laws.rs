//! What holds of the operations together: trades never lower the product of
//! the reserves, quotes always settle, and neither deposits nor redemptions
//! lower what a share is worth.

use vstd::prelude::*;
use crate::deposit::{
    after_deposit, deposit_amounts, deposit_locked, deposit_rejection, deposit_shares,
};
use crate::error::PoolError;
use crate::math::ratio;
use crate::quote::{amount_in, amount_out, invariant_factor};
use crate::state::{PoolModel, MINIMUM_LIQUIDITY};
use crate::swap::{
    after_swap, exact_input_swap, exact_output_swap, product_kept, swap_rejection,
};
use crate::withdraw::{after_withdraw, lemma_part_of_balance, withdraw_rejection};

verus! {

/// A quotient times its positive divisor is at most the dividend, and the
/// next multiple of the divisor is above it.
proof fn lemma_quotient_brackets(n: int, d: int)
    requires
        d > 0,
    ensures
        (n / d) * d <= n < (n / d + 1) * d,
{
    assert((n / d) * d <= n < (n / d + 1) * d) by (nonlinear_arith)
        requires
            d > 0,
    ;
}

/// A sale at the quoted price keeps the fee-adjusted product: when the
/// reserves are `reserve_in` and `reserve_out`, the trader's `sold` arrives in
/// full and the quote `amount_out(sold, reserve_in, reserve_out)` is paid,
/// the product of the two factors is at least what it was.
pub proof fn lemma_sale_keeps_product(sold: int, reserve_in: int, reserve_out: int)
    requires
        sold > 0,
        reserve_in > 0,
        reserve_out > 0,
    ensures
        0 <= amount_out(sold, reserve_in, reserve_out) < reserve_out,
        invariant_factor(reserve_in + sold, reserve_in, 0) * invariant_factor(
            reserve_out,
            reserve_out,
            amount_out(sold, reserve_in, reserve_out),
        ) >= (10000 * reserve_in) * (10000 * reserve_out),
{
    let d = reserve_in * 10000 + sold * 9975;
    let n = sold * 9975 * reserve_out;
    let bought = amount_out(sold, reserve_in, reserve_out);
    assert(bought == n / d);
    lemma_quotient_brackets(n, d);
    assert(n >= 0) by (nonlinear_arith)
        requires
            n == sold * 9975 * reserve_out,
            sold > 0,
            reserve_out > 0,
    ;
    assert(bought >= 0) by (nonlinear_arith)
        requires
            bought == n / d,
            n >= 0,
            d > 0,
    ;
    assert(n < d * reserve_out) by (nonlinear_arith)
        requires
            n == sold * 9975 * reserve_out,
            d == reserve_in * 10000 + sold * 9975,
            reserve_in > 0,
            reserve_out > 0,
    ;
    assert(bought < reserve_out) by (nonlinear_arith)
        requires
            bought * d <= n,
            n < d * reserve_out,
            d > 0,
    ;
    assert(invariant_factor(reserve_in + sold, reserve_in, 0) == d);
    assert(invariant_factor(reserve_out, reserve_out, bought) == 10000 * (reserve_out - bought));
    assert(d * (10000 * (reserve_out - bought)) >= (10000 * reserve_in) * (10000 * reserve_out))
        by (nonlinear_arith)
        requires
            bought * d <= n,
            n == sold * 9975 * reserve_out,
            d == reserve_in * 10000 + sold * 9975,
    ;
}

/// A purchase at the quoted price keeps the fee-adjusted product: when the
/// reserves are `reserve_sell` and `reserve_buy`, the quote
/// `amount_in(bought, reserve_sell, reserve_buy)` arrives in full and `bought`
/// is paid, the product of the two factors is at least what it was.
pub proof fn lemma_purchase_keeps_product(bought: int, reserve_sell: int, reserve_buy: int)
    requires
        0 <= bought < reserve_buy,
        reserve_sell >= 0,
    ensures
        amount_in(bought, reserve_sell, reserve_buy) >= 1,
        invariant_factor(
            reserve_sell + amount_in(bought, reserve_sell, reserve_buy),
            reserve_sell,
            0,
        ) * invariant_factor(reserve_buy, reserve_buy, bought) >= (10000 * reserve_sell) * (10000
            * reserve_buy),
{
    let n = reserve_sell * bought * 10000;
    let d = (reserve_buy - bought) * 9975;
    let sold = amount_in(bought, reserve_sell, reserve_buy);
    assert(sold == n / d + 1);
    lemma_quotient_brackets(n, d);
    assert(n >= 0) by (nonlinear_arith)
        requires
            n == reserve_sell * bought * 10000,
            reserve_sell >= 0,
            bought >= 0,
    ;
    assert(n / d >= 0) by (nonlinear_arith)
        requires
            n >= 0,
            d > 0,
    ;
    assert(invariant_factor(reserve_sell + sold, reserve_sell, 0) == 10000 * reserve_sell + 9975
        * sold);
    assert(invariant_factor(reserve_buy, reserve_buy, bought) == 10000 * (reserve_buy - bought));
    assert((10000 * reserve_sell + 9975 * sold) * (10000 * (reserve_buy - bought)) >= (10000
        * reserve_sell) * (10000 * reserve_buy)) by (nonlinear_arith)
        requires
            n < sold * d,
            n == reserve_sell * bought * 10000,
            d == (reserve_buy - bought) * 9975,
    ;
}

/// The two quotes agree: selling what a purchase of `bought` is quoted at
/// buys at least `bought`.
pub proof fn lemma_purchase_quote_suffices(bought: int, reserve_sell: int, reserve_buy: int)
    requires
        0 <= bought < reserve_buy,
        reserve_sell > 0,
    ensures
        amount_out(amount_in(bought, reserve_sell, reserve_buy), reserve_sell, reserve_buy)
            >= bought,
{
    let n = reserve_sell * bought * 10000;
    let d = (reserve_buy - bought) * 9975;
    let sold = amount_in(bought, reserve_sell, reserve_buy);
    lemma_quotient_brackets(n, d);
    lemma_purchase_keeps_product(bought, reserve_sell, reserve_buy);
    let top = sold * 9975 * reserve_buy;
    let bottom = reserve_sell * 10000 + sold * 9975;
    assert(bottom > 0);
    assert(top >= bought * bottom) by (nonlinear_arith)
        requires
            n < sold * d,
            n == reserve_sell * bought * 10000,
            d == (reserve_buy - bought) * 9975,
            top == sold * 9975 * reserve_buy,
            bottom == reserve_sell * 10000 + sold * 9975,
    ;
    assert(top / bottom >= bought) by (nonlinear_arith)
        requires
            top >= bought * bottom,
            bottom > 0,
    ;
}

/// A factor of the product check does not shrink when the balance grows.
proof fn lemma_factor_grows(balance: int, more: int, reserve: int, out: int)
    requires
        balance <= more,
    ensures
        invariant_factor(balance, reserve, out) <= invariant_factor(more, reserve, out),
{
}

/// The product check passes on balances that are no less than balances on
/// which it passes.
proof fn lemma_product_kept_on_more(
    pool: PoolModel,
    balance_a: int,
    balance_b: int,
    more_a: int,
    more_b: int,
    out_a: int,
    out_b: int,
)
    requires
        pool.reserve_a >= 0,
        pool.reserve_b >= 0,
        0 <= out_a <= balance_a <= more_a,
        0 <= out_b <= balance_b <= more_b,
        product_kept(pool, balance_a, balance_b, out_a, out_b),
    ensures
        product_kept(pool, more_a, more_b, out_a, out_b),
{
    let fa = invariant_factor(balance_a, pool.reserve_a, out_a);
    let fb = invariant_factor(balance_b, pool.reserve_b, out_b);
    let ga = invariant_factor(more_a, pool.reserve_a, out_a);
    let gb = invariant_factor(more_b, pool.reserve_b, out_b);
    lemma_factor_grows(balance_a, more_a, pool.reserve_a, out_a);
    lemma_factor_grows(balance_b, more_b, pool.reserve_b, out_b);
    lemma_factor_bounds(balance_a, pool.reserve_a, out_a);
    lemma_factor_bounds(balance_b, pool.reserve_b, out_b);
    assert(fa * fb <= ga * gb) by (nonlinear_arith)
        requires
            0 <= fa <= ga,
            0 <= fb <= gb,
    ;
}

/// A sale priced on a pool can be settled once the trader's payment has
/// arrived in full: whatever the balances, as long as the asset sold has
/// grown by the amount sold and the other has not shrunk, the trade is
/// refused neither for want of liquidity nor for the product.
pub proof fn lemma_priced_sale_settles(
    pool: PoolModel,
    sell_a: bool,
    sold: int,
    min_out: int,
    balance_a: int,
    balance_b: int,
)
    requires
        pool.wf(),
        exact_input_swap(pool, sell_a, sold, min_out).is_ok(),
        balance_a >= pool.reserve_a + if sell_a {
            sold
        } else {
            0
        },
        balance_b >= pool.reserve_b + if sell_a {
            0
        } else {
            sold
        },
    ensures
        ({
            let bought = exact_input_swap(pool, sell_a, sold, min_out).unwrap();
            let out_a = if sell_a {
                0
            } else {
                bought
            };
            let out_b = if sell_a {
                bought
            } else {
                0
            };
            let rejection = swap_rejection(pool, balance_a, balance_b, out_a, out_b);
            &&& bought >= min_out
            &&& product_kept(pool, balance_a, balance_b, out_a, out_b)
            &&& rejection.is_none() || rejection == Some(PoolError::ArithmeticError)
        }),
{
    let bought = exact_input_swap(pool, sell_a, sold, min_out).unwrap();
    if sell_a {
        lemma_sale_keeps_product(sold, pool.reserve_a, pool.reserve_b);
        lemma_product_kept_on_more(
            pool,
            pool.reserve_a + sold,
            pool.reserve_b,
            balance_a,
            balance_b,
            0,
            bought,
        );
    } else {
        lemma_sale_keeps_product(sold, pool.reserve_b, pool.reserve_a);
        let fa = invariant_factor(pool.reserve_a, pool.reserve_a, bought);
        let fb = invariant_factor(pool.reserve_b + sold, pool.reserve_b, 0);
        assert(fa * fb == fb * fa) by (nonlinear_arith);
        assert((10000 * pool.reserve_a) * (10000 * pool.reserve_b) == (10000 * pool.reserve_b) * (
        10000 * pool.reserve_a)) by (nonlinear_arith);
        lemma_product_kept_on_more(
            pool,
            pool.reserve_a,
            pool.reserve_b + sold,
            balance_a,
            balance_b,
            bought,
            0,
        );
    }
}

/// A purchase priced on a pool can be settled once the trader's payment has
/// arrived in full: whatever the balances, as long as the asset sold has
/// grown by the amount quoted and the other has not shrunk, the trade is
/// refused neither for want of liquidity nor for the product.
pub proof fn lemma_priced_purchase_settles(
    pool: PoolModel,
    buy_a: bool,
    bought: int,
    max_in: int,
    balance_a: int,
    balance_b: int,
)
    requires
        pool.wf(),
        exact_output_swap(pool, buy_a, bought, max_in).is_ok(),
        balance_a >= pool.reserve_a + if buy_a {
            0
        } else {
            exact_output_swap(pool, buy_a, bought, max_in).unwrap()
        },
        balance_b >= pool.reserve_b + if buy_a {
            exact_output_swap(pool, buy_a, bought, max_in).unwrap()
        } else {
            0
        },
    ensures
        ({
            let sold = exact_output_swap(pool, buy_a, bought, max_in).unwrap();
            let out_a = if buy_a {
                bought
            } else {
                0
            };
            let out_b = if buy_a {
                0
            } else {
                bought
            };
            let rejection = swap_rejection(pool, balance_a, balance_b, out_a, out_b);
            &&& 1 <= sold <= max_in
            &&& product_kept(pool, balance_a, balance_b, out_a, out_b)
            &&& rejection.is_none() || rejection == Some(PoolError::ArithmeticError)
        }),
{
    let sold = exact_output_swap(pool, buy_a, bought, max_in).unwrap();
    if buy_a {
        lemma_purchase_keeps_product(bought, pool.reserve_b, pool.reserve_a);
        let fa = invariant_factor(pool.reserve_a, pool.reserve_a, bought);
        let fb = invariant_factor(pool.reserve_b + sold, pool.reserve_b, 0);
        assert(fa * fb == fb * fa) by (nonlinear_arith);
        assert((10000 * pool.reserve_a) * (10000 * pool.reserve_b) == (10000 * pool.reserve_b) * (
        10000 * pool.reserve_a)) by (nonlinear_arith);
        lemma_product_kept_on_more(
            pool,
            pool.reserve_a,
            pool.reserve_b + sold,
            balance_a,
            balance_b,
            bought,
            0,
        );
    } else {
        lemma_purchase_keeps_product(bought, pool.reserve_a, pool.reserve_b);
        lemma_product_kept_on_more(
            pool,
            pool.reserve_a + sold,
            pool.reserve_b,
            balance_a,
            balance_b,
            0,
            bought,
        );
    }
}

/// One factor of the product check is never negative and never more than
/// 10000 times what the reserve becomes.
proof fn lemma_factor_bounds(balance: int, reserve: int, out: int)
    requires
        reserve >= 0,
        0 <= out <= balance,
    ensures
        0 <= invariant_factor(balance, reserve, out) <= 10000 * (balance - out),
{
}

/// A settled trade never lowers the plain product of the reserves.
pub proof fn lemma_swap_keeps_reserve_product(
    pool: PoolModel,
    balance_a: int,
    balance_b: int,
    out_a: int,
    out_b: int,
)
    requires
        pool.wf(),
        swap_rejection(pool, balance_a, balance_b, out_a, out_b).is_none(),
    ensures
        after_swap(pool, balance_a, balance_b, out_a, out_b).reserve_a * after_swap(
            pool,
            balance_a,
            balance_b,
            out_a,
            out_b,
        ).reserve_b >= pool.reserve_a * pool.reserve_b,
{
    let fa = invariant_factor(balance_a, pool.reserve_a, out_a);
    let fb = invariant_factor(balance_b, pool.reserve_b, out_b);
    let na = balance_a - out_a;
    let nb = balance_b - out_b;
    lemma_factor_bounds(balance_a, pool.reserve_a, out_a);
    lemma_factor_bounds(balance_b, pool.reserve_b, out_b);
    assert(fa * fb >= (10000 * pool.reserve_a) * (10000 * pool.reserve_b));
    assert(fa * fb <= (10000 * na) * (10000 * nb)) by (nonlinear_arith)
        requires
            0 <= fa <= 10000 * na,
            0 <= fb <= 10000 * nb,
    ;
    assert(na * nb >= pool.reserve_a * pool.reserve_b) by (nonlinear_arith)
        requires
            (10000 * na) * (10000 * nb) >= (10000 * pool.reserve_a) * (10000 * pool.reserve_b),
    ;
}

/// The first deposit leaves more than `MINIMUM_LIQUIDITY` shares, of which
/// exactly `MINIMUM_LIQUIDITY` are the pool's own; a later deposit adds to
/// the supply and locks nothing more. Either way the depositor receives
/// something, and the supply grows by what the depositor and the pool
/// receive.
pub proof fn lemma_deposit_grows_supply(pool: PoolModel, balance_a: int, balance_b: int)
    requires
        pool.wf(),
        deposit_rejection(pool, balance_a, balance_b).is_none(),
    ensures
        ({
            let locked = deposit_locked(pool);
            let received = deposit_shares(pool, balance_a, balance_b) - locked;
            let supply = after_deposit(pool, balance_a, balance_b).total_shares;
            &&& received > 0
            &&& supply == pool.total_shares + received + locked
            &&& locked == if pool.total_shares == 0 {
                MINIMUM_LIQUIDITY as int
            } else {
                0
            }
            &&& supply > MINIMUM_LIQUIDITY
        }),
{
}

/// A deposit never takes more than was offered, of either asset, when the
/// offer and the reserves are not negative.
pub proof fn lemma_deposit_within_offer(
    desired_a: int,
    min_a: int,
    desired_b: int,
    min_b: int,
    reserve_a: int,
    reserve_b: int,
)
    requires
        desired_a >= 0,
        desired_b >= 0,
        reserve_a >= 0,
        reserve_b >= 0,
        deposit_amounts(desired_a, min_a, desired_b, min_b, reserve_a, reserve_b).is_ok(),
    ensures
        ({
            let amounts = deposit_amounts(
                desired_a,
                min_a,
                desired_b,
                min_b,
                reserve_a,
                reserve_b,
            ).unwrap();
            &&& 0 <= amounts.0 <= desired_a
            &&& 0 <= amounts.1 <= desired_b
        }),
{
    if !(reserve_a == 0 && reserve_b == 0) {
        assert(desired_a * reserve_b >= 0) by (nonlinear_arith)
            requires
                desired_a >= 0,
                reserve_b >= 0,
        ;
        assert((desired_a * reserve_b) / reserve_a >= 0) by (nonlinear_arith)
            requires
                desired_a * reserve_b >= 0,
                reserve_a > 0,
        ;
        if ratio(desired_a, reserve_b, reserve_a) > desired_b {
            assert(desired_b * reserve_a >= 0) by (nonlinear_arith)
                requires
                    desired_b >= 0,
                    reserve_a >= 0,
            ;
            assert((desired_b * reserve_a) / reserve_b >= 0) by (nonlinear_arith)
                requires
                    desired_b * reserve_a >= 0,
                    reserve_b > 0,
            ;
        }
    }
}

/// A later deposit does not lower what a share is worth: for each asset, the
/// reserve per share after the deposit is at least the reserve per share
/// before it.
pub proof fn lemma_deposit_keeps_share_value(pool: PoolModel, balance_a: int, balance_b: int)
    requires
        pool.wf(),
        pool.total_shares > 0,
        deposit_rejection(pool, balance_a, balance_b).is_none(),
    ensures
        ({
            let after = after_deposit(pool, balance_a, balance_b);
            &&& after.reserve_a * pool.total_shares >= pool.reserve_a * after.total_shares
            &&& after.reserve_b * pool.total_shares >= pool.reserve_b * after.total_shares
        }),
{
    let received = deposit_shares(pool, balance_a, balance_b);
    lemma_gain_covers_shares(balance_a, pool.reserve_a, pool.total_shares, received);
    lemma_gain_covers_shares(balance_b, pool.reserve_b, pool.total_shares, received);
}

/// Redeeming shares does not lower what the remaining shares are worth: for
/// each asset, what is left of the balance per remaining share is at least
/// the balance per share before.
pub proof fn lemma_withdraw_keeps_share_value(
    pool: PoolModel,
    share_amount: int,
    min_a: int,
    min_b: int,
    owner_shares: int,
    balance_a: int,
    balance_b: int,
)
    requires
        pool.wf(),
        withdraw_rejection(pool, share_amount, min_a, min_b, owner_shares, balance_a, balance_b)
            .is_none(),
    ensures
        ({
            let after = after_withdraw(pool, share_amount, balance_a, balance_b);
            &&& after.total_shares >= MINIMUM_LIQUIDITY
            &&& 0 <= after.reserve_a <= balance_a
            &&& 0 <= after.reserve_b <= balance_b
            &&& after.reserve_a * pool.total_shares >= balance_a * after.total_shares
            &&& after.reserve_b * pool.total_shares >= balance_b * after.total_shares
        }),
{
    lemma_part_of_balance(balance_a, share_amount, pool.total_shares);
    lemma_part_of_balance(balance_b, share_amount, pool.total_shares);
    lemma_rest_covers_shares(balance_a, share_amount, pool.total_shares);
    lemma_rest_covers_shares(balance_b, share_amount, pool.total_shares);
}

/// What is left of a balance after a part of it, in proportion `part` of
/// `whole`, was taken out, is at least the proportion of the balance that
/// the rest of `whole` stands for.
proof fn lemma_rest_covers_shares(balance: int, part: int, whole: int)
    requires
        balance >= 0,
        0 <= part <= whole,
        whole > 0,
    ensures
        (balance - ratio(balance, part, whole)) * whole >= balance * (whole - part),
{
    assert(balance * part >= 0) by (nonlinear_arith)
        requires
            balance >= 0,
            part >= 0,
    ;
    let q = (balance * part) / whole;
    lemma_quotient_brackets(balance * part, whole);
    assert((balance - q) * whole >= balance * (whole - part)) by (nonlinear_arith)
        requires
            q * whole <= balance * part,
    ;
}

/// Shares that are at most the gain's proportion of the supply leave the
/// reserve per share no lower.
proof fn lemma_gain_covers_shares(balance: int, reserve: int, total: int, received: int)
    requires
        balance >= 0,
        reserve > 0,
        total > 0,
        0 < received <= ratio(balance - reserve, total, reserve),
    ensures
        balance * total >= reserve * (total + received),
        balance > reserve,
{
    let gain = balance - reserve;
    assert(gain > 0) by {
        if gain <= 0 {
            assert(gain * total <= 0) by (nonlinear_arith)
                requires
                    gain <= 0,
                    total > 0,
            ;
            if gain * total < 0 {
                assert((-(gain * total)) / reserve >= 0) by (nonlinear_arith)
                    requires
                        -(gain * total) > 0,
                        reserve > 0,
                ;
            }
        }
    }
    assert(gain * total >= 0) by (nonlinear_arith)
        requires
            gain > 0,
            total > 0,
    ;
    let q = (gain * total) / reserve;
    lemma_quotient_brackets(gain * total, reserve);
    assert(received * reserve <= gain * total) by (nonlinear_arith)
        requires
            received <= q,
            q * reserve <= gain * total,
            reserve > 0,
    ;
    assert(balance * total >= reserve * (total + received)) by (nonlinear_arith)
        requires
            received * reserve <= gain * total,
            balance == reserve + gain,
    ;
}

/// Depositing and at once redeeming the shares received gives back no more
/// than was deposited, of either asset: with the balances unchanged between
/// the two, the owner's part of each balance is at most what the deposit
/// added to the reserve. The redemption is refused only if it cannot be
/// computed.
pub proof fn lemma_round_trip(pool: PoolModel, balance_a: int, balance_b: int)
    requires
        pool.wf(),
        deposit_rejection(pool, balance_a, balance_b).is_none(),
    ensures
        ({
            let received = deposit_shares(pool, balance_a, balance_b) - deposit_locked(pool);
            let after = after_deposit(pool, balance_a, balance_b);
            let rejection = withdraw_rejection(
                after,
                received,
                0,
                0,
                received,
                balance_a,
                balance_b,
            );
            &&& rejection.is_none() || rejection == Some(PoolError::ArithmeticError)
            &&& ratio(balance_a, received, after.total_shares) <= balance_a - pool.reserve_a
            &&& ratio(balance_b, received, after.total_shares) <= balance_b - pool.reserve_b
        }),
{
    let received = deposit_shares(pool, balance_a, balance_b) - deposit_locked(pool);
    let supply = after_deposit(pool, balance_a, balance_b).total_shares;
    lemma_part_of_balance(balance_a, received, supply);
    lemma_part_of_balance(balance_b, received, supply);
    if pool.total_shares > 0 {
        lemma_share_of_gain(balance_a, pool.reserve_a, pool.total_shares, received);
        lemma_share_of_gain(balance_b, pool.reserve_b, pool.total_shares, received);
    }
}

/// Shares that are at most the gain's proportion of the supply redeem at
/// most the gain.
proof fn lemma_share_of_gain(balance: int, reserve: int, total: int, received: int)
    requires
        balance >= 0,
        reserve > 0,
        total > 0,
        0 < received <= ratio(balance - reserve, total, reserve),
    ensures
        ratio(balance, received, total + received) <= balance - reserve,
{
    let gain = balance - reserve;
    lemma_gain_covers_shares(balance, reserve, total, received);
    assert(balance * received <= gain * (total + received)) by (nonlinear_arith)
        requires
            balance * total >= reserve * (total + received),
            balance == reserve + gain,
    ;
    assert(balance * received >= 0) by (nonlinear_arith)
        requires
            balance >= 0,
            received > 0,
    ;
    assert((balance * received) / (total + received) <= gain) by (nonlinear_arith)
        requires
            balance * received <= gain * (total + received),
            total + received > 0,
    ;
}

} // verus!
