use liquidity_pool::quote::new_invariant_factor;
use liquidity_pool::{
    get_deposit_amounts, DepositReceipt, LiquidityPool, PendingSwap, PoolError, MINIMUM_LIQUIDITY,
};

fn funded() -> LiquidityPool {
    LiquidityPool {
        reserve_a: 1_000_000,
        reserve_b: 1_000_000,
        total_shares: 1_000_000,
        k_last: 1_000_000_000_000,
        initialized: true,
    }
}

#[test]
fn a_new_pool_is_not_set_up() {
    let pool = LiquidityPool::new();
    assert!(!pool.initialized);
    assert_eq!(pool.get_rsrvs(), (0, 0));
    assert_eq!(pool.get_k(), 0);
    assert_eq!(pool.get_total_shares(), 0);
}

#[test]
fn setting_up_twice_is_refused() {
    let mut pool = LiquidityPool::new();
    assert_eq!(pool.initialize(), Ok(()));
    assert!(pool.initialized);
    let before = pool;
    assert_eq!(pool.initialize(), Err(PoolError::AlreadyInitialized));
    assert_eq!(pool, before);
}

#[test]
fn setting_up_a_funded_pool_is_refused_and_keeps_it() {
    let mut pool = funded();
    assert_eq!(pool.initialize(), Err(PoolError::AlreadyInitialized));
    assert_eq!(pool, funded());
}

#[test]
fn restoring_sound_figures() {
    assert_eq!(
        LiquidityPool::restore(1_000_000, 1_000_000, 1_000_000, 1_000_000_000_000),
        Some(funded())
    );
    let empty = LiquidityPool::restore(0, 0, 0, 0).unwrap();
    assert!(empty.initialized);
}

#[test]
fn restoring_unsound_figures_is_refused() {
    assert_eq!(LiquidityPool::restore(-1, 1_000_000, 1_000_000, 0), None);
    assert_eq!(LiquidityPool::restore(1_000_000, -1, 1_000_000, 0), None);
    assert_eq!(LiquidityPool::restore(1_000_000, 1_000_000, -1, 0), None);
    assert_eq!(LiquidityPool::restore(1_000_000, 1_000_000, 0, 0), None);
    assert_eq!(LiquidityPool::restore(1_000_000, 1_000_000, 999, 0), None);
}

#[test]
fn first_deposit_of_a_million_each() {
    let mut pool = LiquidityPool::new();
    pool.initialize().unwrap();
    assert_eq!(pool.get_rsrvs(), (0, 0));
    let (amount_a, amount_b) =
        get_deposit_amounts(1_000_000, 0, 1_000_000, 0, pool.reserve_a, pool.reserve_b).unwrap();
    assert_eq!((amount_a, amount_b), (1_000_000, 1_000_000));
    let receipt = pool.deposit(amount_a, amount_b).unwrap();
    assert_eq!(receipt, DepositReceipt { shares: 999_000, locked: 1000 });
    assert_eq!(pool, funded());
}

#[test]
fn first_deposit_locks_the_minimum() {
    let mut pool = LiquidityPool::new();
    pool.initialize().unwrap();
    let receipt = pool.deposit(4_000_000, 9_000_000).unwrap();
    assert_eq!(receipt.locked, MINIMUM_LIQUIDITY);
    assert_eq!(receipt.shares, 6_000_000 - 1000);
    assert_eq!(pool.get_total_shares(), 6_000_000);
    assert_eq!(pool.get_k(), 36_000_000_000_000);
}

#[test]
fn first_deposit_must_leave_shares_for_the_depositor() {
    let mut pool = LiquidityPool::new();
    pool.initialize().unwrap();
    let before = pool;
    assert_eq!(pool.deposit(1000, 1000), Err(PoolError::InsufficientLiquidity));
    assert_eq!(pool.deposit(0, 5_000_000), Err(PoolError::InsufficientLiquidity));
    assert_eq!(pool, before);
    assert_eq!(pool.deposit(1001, 1001), Ok(DepositReceipt { shares: 1, locked: 1000 }));
    assert_eq!(pool.get_total_shares(), 1001);
}

#[test]
fn deposit_refuses_a_negative_balance() {
    let mut pool = LiquidityPool::new();
    pool.initialize().unwrap();
    assert_eq!(pool.deposit(-2_000_000, -2_000_000), Err(PoolError::InsufficientLiquidity));
    let mut pool = funded();
    assert_eq!(pool.deposit(-1, 2_000_000), Err(PoolError::InsufficientLiquidity));
    assert_eq!(pool, funded());
}

#[test]
fn first_deposit_refuses_a_product_that_does_not_fit() {
    let mut pool = LiquidityPool::new();
    pool.initialize().unwrap();
    assert_eq!(pool.deposit(i128::MAX, 2), Err(PoolError::ArithmeticError));
}

#[test]
fn later_deposit_mints_in_proportion() {
    let mut pool = funded();
    let receipt = pool.deposit(1_500_000, 1_500_000).unwrap();
    assert_eq!(receipt, DepositReceipt { shares: 500_000, locked: 0 });
    assert_eq!(pool.get_rsrvs(), (1_500_000, 1_500_000));
    assert_eq!(pool.get_total_shares(), 1_500_000);
    assert_eq!(pool.get_k(), 2_250_000_000_000);
}

#[test]
fn later_deposit_goes_by_the_smaller_proportion() {
    let mut pool = funded();
    let receipt = pool.deposit(1_500_000, 1_200_000).unwrap();
    assert_eq!(receipt, DepositReceipt { shares: 200_000, locked: 0 });
    assert_eq!(pool.get_total_shares(), 1_200_000);
    let mut pool = funded();
    let receipt = pool.deposit(1_200_000, 1_500_000).unwrap();
    assert_eq!(receipt.shares, 200_000);
}

#[test]
fn later_deposit_that_brings_nothing_is_refused() {
    let mut pool = funded();
    assert_eq!(pool.deposit(1_000_000, 1_000_000), Err(PoolError::InsufficientLiquidity));
    assert_eq!(pool.deposit(2_000_000, 1_000_000), Err(PoolError::InsufficientLiquidity));
    assert_eq!(pool.deposit(2_000_000, 999_999), Err(PoolError::InsufficientLiquidity));
    assert_eq!(pool, funded());
}

#[test]
fn later_deposit_with_an_empty_reserve_is_refused() {
    let mut pool = LiquidityPool {
        reserve_a: 0,
        reserve_b: 1_000_000,
        total_shares: 1_000_000,
        k_last: 0,
        initialized: true,
    };
    let before = pool;
    assert_eq!(pool.deposit(1_000_000, 2_000_000), Err(PoolError::ArithmeticError));
    assert_eq!(pool, before);
}

#[test]
fn deposit_adds_what_it_mints_to_the_supply() {
    let mut pool = funded();
    let before = pool.get_total_shares();
    let receipt = pool.deposit(1_234_567, 1_765_432).unwrap();
    assert_eq!(pool.get_total_shares(), before + receipt.shares + receipt.locked);
    let mut pool = LiquidityPool::new();
    pool.initialize().unwrap();
    let receipt = pool.deposit(123_456, 654_321).unwrap();
    assert_eq!(pool.get_total_shares(), receipt.shares + receipt.locked);
    assert_eq!(receipt.locked, 1000);
}

#[test]
fn selling_a_thousand_buys_996() {
    let pool = funded();
    assert_eq!(
        pool.swap_exact_input(true, 1000, 0),
        Ok(PendingSwap { sell_a: true, amount_in: 1000, amount_out: 996 })
    );
    assert_eq!(
        pool.swap_exact_input(false, 1000, 996),
        Ok(PendingSwap { sell_a: false, amount_in: 1000, amount_out: 996 })
    );
}

#[test]
fn selling_for_less_than_the_floor_is_refused() {
    let pool = funded();
    assert_eq!(pool.swap_exact_input(true, 1000, 997), Err(PoolError::SlippageExceeded));
}

#[test]
fn selling_goes_by_the_reserve_of_the_asset_sold() {
    let pool = LiquidityPool {
        reserve_a: 2_000_000,
        reserve_b: 500_000,
        total_shares: 1_000_000,
        k_last: 0,
        initialized: true,
    };
    assert_eq!(pool.swap_exact_input(true, 996, 0).unwrap().amount_out, 248);
    assert_eq!(pool.swap_exact_input(false, 996, 0).unwrap().amount_out, 3966);
}

#[test]
fn selling_nothing_or_into_an_empty_pool_is_refused() {
    let pool = funded();
    assert_eq!(pool.swap_exact_input(true, 0, 0), Err(PoolError::InsufficientLiquidity));
    assert_eq!(pool.swap_exact_input(true, -5, 0), Err(PoolError::InsufficientLiquidity));
    let mut empty = LiquidityPool::new();
    empty.initialize().unwrap();
    assert_eq!(empty.swap_exact_input(true, 1000, 0), Err(PoolError::InsufficientLiquidity));
}

#[test]
fn a_sale_settles_on_the_measured_balances() {
    let mut pool = funded();
    let swap = pool.swap_exact_input(true, 1000, 0).unwrap();
    assert_eq!(pool.settle_swap(&swap, 1_001_000, 1_000_000), Ok(()));
    assert_eq!(pool.get_rsrvs(), (1_001_000, 999_004));
    assert_eq!(pool.get_total_shares(), 1_000_000);
    assert_eq!(pool.get_k(), 1_000_000_000_000);
}

#[test]
fn a_sale_of_the_second_asset_settles() {
    let mut pool = funded();
    let swap = pool.swap_exact_input(false, 1000, 0).unwrap();
    assert_eq!(pool.settle_swap(&swap, 1_000_000, 1_001_000), Ok(()));
    assert_eq!(pool.get_rsrvs(), (999_004, 1_001_000));
}

#[test]
fn a_settled_sale_does_not_lower_the_product() {
    let mut pool = funded();
    let before = pool.reserve_a * pool.reserve_b;
    let swap = pool.swap_exact_input(true, 123_456, 0).unwrap();
    pool.settle_swap(&swap, 1_000_000 + 123_456, 1_000_000).unwrap();
    assert!(pool.reserve_a * pool.reserve_b >= before);
}

#[test]
fn a_settled_sale_keeps_the_fee_adjusted_product() {
    let mut pool = funded();
    let swap = pool.swap_exact_input(true, 1000, 0).unwrap();
    let new_a = new_invariant_factor(1_001_000, pool.reserve_a, 0).unwrap();
    let new_b = new_invariant_factor(1_000_000, pool.reserve_b, swap.amount_out).unwrap();
    assert_eq!(new_a, 10_009_975_000);
    assert_eq!(new_b, 9_990_040_000);
    assert_eq!(new_a * new_b, 100_000_050_649_000_000_000);
    assert!(new_a * new_b >= (10000 * pool.reserve_a) * (10000 * pool.reserve_b));
    assert_eq!(pool.settle_swap(&swap, 1_001_000, 1_000_000), Ok(()));
}

#[test]
fn a_settled_purchase_keeps_the_fee_adjusted_product() {
    let mut pool = funded();
    let swap = pool.swap_exact_output(true, 250_000, i128::MAX).unwrap();
    assert_eq!(swap.amount_in, 334_169);
    let new_a = new_invariant_factor(1_000_000, pool.reserve_a, swap.amount_out).unwrap();
    let new_b = new_invariant_factor(1_000_000 + swap.amount_in, pool.reserve_b, 0).unwrap();
    assert!(new_a * new_b >= (10000 * pool.reserve_a) * (10000 * pool.reserve_b));
    assert_eq!(pool.settle_swap(&swap, 1_000_000, 1_000_000 + swap.amount_in), Ok(()));
    assert_eq!(pool.get_rsrvs(), (750_000, 1_334_169));
}

#[test]
fn a_payment_that_came_short_breaks_the_product() {
    let mut pool = funded();
    let swap = pool.swap_exact_input(true, 1000, 0).unwrap();
    assert_eq!(pool.settle_swap(&swap, 1_000_500, 1_000_000), Err(PoolError::InvariantViolation));
    assert_eq!(pool, funded());
}

#[test]
fn a_payment_that_never_came_breaks_the_product() {
    let mut pool = funded();
    let swap = pool.swap_exact_input(true, 1000, 0).unwrap();
    assert_eq!(pool.settle_swap(&swap, 1_000_000, 1_000_000), Err(PoolError::InvariantViolation));
}

#[test]
fn one_unit_more_than_quoted_breaks_the_product() {
    let mut pool = funded();
    let swap = PendingSwap { sell_a: true, amount_in: 1000, amount_out: 997 };
    assert_eq!(pool.settle_swap(&swap, 1_001_000, 1_000_000), Err(PoolError::InvariantViolation));
}

#[test]
fn settlement_refuses_to_pay_more_than_is_held() {
    let mut pool = funded();
    let swap = PendingSwap { sell_a: true, amount_in: 1000, amount_out: 1_000_001 };
    assert_eq!(
        pool.settle_swap(&swap, 1_001_000, 1_000_000),
        Err(PoolError::InsufficientLiquidity)
    );
    let swap = PendingSwap { sell_a: true, amount_in: 1000, amount_out: -1 };
    assert_eq!(
        pool.settle_swap(&swap, 1_001_000, 1_000_000),
        Err(PoolError::InsufficientLiquidity)
    );
    assert_eq!(pool, funded());
}

#[test]
fn settlement_refuses_an_empty_pool() {
    let mut pool = LiquidityPool::new();
    pool.initialize().unwrap();
    let swap = PendingSwap { sell_a: true, amount_in: 1000, amount_out: 0 };
    assert_eq!(pool.settle_swap(&swap, 1000, 0), Err(PoolError::InsufficientLiquidity));
}

#[test]
fn settlement_refuses_a_check_that_does_not_fit() {
    let big: i128 = 10_000_000_000_000_000;
    let mut pool = LiquidityPool {
        reserve_a: big,
        reserve_b: big,
        total_shares: big,
        k_last: 0,
        initialized: true,
    };
    let swap = pool.swap_exact_input(true, 1000, 0).unwrap();
    assert_eq!(swap.amount_out, 997);
    assert_eq!(pool.settle_swap(&swap, big + 1000, big), Err(PoolError::ArithmeticError));
}

#[test]
fn buying_996_costs_a_thousand() {
    let pool = funded();
    assert_eq!(
        pool.swap_exact_output(false, 996, 1000),
        Ok(PendingSwap { sell_a: true, amount_in: 1000, amount_out: 996 })
    );
    assert_eq!(
        pool.swap_exact_output(true, 996, i128::MAX),
        Ok(PendingSwap { sell_a: false, amount_in: 1000, amount_out: 996 })
    );
}

#[test]
fn buying_for_more_than_the_ceiling_is_refused() {
    let pool = funded();
    assert_eq!(pool.swap_exact_output(false, 996, 999), Err(PoolError::SlippageExceeded));
}

#[test]
fn buying_the_whole_reserve_or_more_is_refused() {
    let pool = funded();
    assert_eq!(pool.swap_exact_output(true, 1_000_000, i128::MAX), Err(PoolError::ArithmeticError));
    assert_eq!(
        pool.swap_exact_output(true, 1_000_001, i128::MAX),
        Err(PoolError::InsufficientLiquidity)
    );
    assert_eq!(pool.swap_exact_output(true, -1, i128::MAX), Err(PoolError::InsufficientLiquidity));
}

#[test]
fn a_purchase_settles_on_the_measured_balances() {
    let mut pool = funded();
    let swap = pool.swap_exact_output(true, 996, 2000).unwrap();
    assert_eq!(swap, PendingSwap { sell_a: false, amount_in: 1000, amount_out: 996 });
    assert_eq!(pool.settle_swap(&swap, 1_000_000, 1_001_000), Ok(()));
    assert_eq!(pool.get_rsrvs(), (999_004, 1_001_000));
}

#[test]
fn a_purchase_of_any_size_settles() {
    let mut pool = LiquidityPool {
        reserve_a: 7_000_000,
        reserve_b: 3_000_000,
        total_shares: 4_000_000,
        k_last: 0,
        initialized: true,
    };
    let before = pool.reserve_a * pool.reserve_b;
    let swap = pool.swap_exact_output(false, 2_999_999, i128::MAX).unwrap();
    assert_eq!(pool.settle_swap(&swap, 7_000_000 + swap.amount_in, 3_000_000), Ok(()));
    assert_eq!(pool.reserve_b, 1);
    assert!(pool.reserve_a * pool.reserve_b >= before);
}

#[test]
fn redeeming_all_but_the_locked_shares() {
    let mut pool = funded();
    assert_eq!(pool.withdraw(999_000, 0, 0, 999_000, 1_000_000, 1_000_000), Ok((999_000, 999_000)));
    assert_eq!(pool.get_rsrvs(), (1000, 1000));
    assert_eq!(pool.get_total_shares(), 1000);
    assert_eq!(pool.get_k(), 1_000_000);
}

#[test]
fn redeeming_a_part_rounds_down() {
    let mut pool = funded();
    assert_eq!(pool.withdraw(333, 0, 0, 500, 1_000_001, 2_000_005), Ok((333, 666)));
    assert_eq!(pool.get_rsrvs(), (1_000_001 - 333, 2_000_005 - 666));
    assert_eq!(pool.get_total_shares(), 1_000_000 - 333);
    assert_eq!(pool.get_k(), (1_000_001 - 333) * (2_000_005 - 666));
}

#[test]
fn redeeming_pays_out_of_the_balances_not_the_reserves() {
    let mut pool = funded();
    assert_eq!(
        pool.withdraw(500_000, 0, 0, 500_000, 3_000_000, 1_000_000),
        Ok((1_500_000, 500_000))
    );
    assert_eq!(pool.get_rsrvs(), (1_500_000, 500_000));
}

#[test]
fn redeeming_more_than_one_holds_is_refused() {
    let mut pool = funded();
    assert_eq!(
        pool.withdraw(500_001, 0, 0, 500_000, 1_000_000, 1_000_000),
        Err(PoolError::InsufficientLiquidity)
    );
    assert_eq!(
        pool.withdraw(-1, 0, 0, 500_000, 1_000_000, 1_000_000),
        Err(PoolError::InsufficientLiquidity)
    );
    assert_eq!(pool, funded());
}

#[test]
fn redeeming_the_locked_shares_is_refused() {
    let mut pool = funded();
    assert_eq!(
        pool.withdraw(999_001, 0, 0, 1_000_000, 1_000_000, 1_000_000),
        Err(PoolError::InsufficientLiquidity)
    );
    assert_eq!(
        pool.withdraw(1_000_000, 0, 0, 1_000_000, 1_000_000, 1_000_000),
        Err(PoolError::InsufficientLiquidity)
    );
    assert_eq!(pool, funded());
}

#[test]
fn redeeming_from_an_empty_pool_is_refused() {
    let mut pool = LiquidityPool::new();
    pool.initialize().unwrap();
    assert_eq!(pool.withdraw(0, 0, 0, 0, 0, 0), Err(PoolError::InsufficientLiquidity));
}

#[test]
fn redeeming_below_a_floor_is_refused() {
    let mut pool = funded();
    assert_eq!(
        pool.withdraw(500_000, 500_001, 0, 500_000, 1_000_000, 1_000_000),
        Err(PoolError::SlippageExceeded)
    );
    assert_eq!(
        pool.withdraw(500_000, 0, 500_001, 500_000, 1_000_000, 1_000_000),
        Err(PoolError::SlippageExceeded)
    );
    assert_eq!(pool, funded());
    assert_eq!(
        pool.withdraw(500_000, 500_000, 500_000, 500_000, 1_000_000, 1_000_000),
        Ok((500_000, 500_000))
    );
}

#[test]
fn redeeming_refuses_what_does_not_fit() {
    let mut pool = funded();
    assert_eq!(
        pool.withdraw(500_000, 0, 0, 500_000, i128::MAX, 1_000_000),
        Err(PoolError::ArithmeticError)
    );
    assert_eq!(
        pool.withdraw(0, 0, 0, 0, i128::MAX, 2),
        Err(PoolError::ArithmeticError)
    );
    assert_eq!(
        pool.withdraw(500_000, 0, 0, 500_000, 1_000_000, -1),
        Err(PoolError::InsufficientLiquidity)
    );
    assert_eq!(pool, funded());
}

#[test]
fn depositing_and_redeeming_at_once_gives_back_no_more() {
    let mut pool = funded();
    let swap = PendingSwap { sell_a: true, amount_in: 1000, amount_out: 996 };
    pool.settle_swap(&swap, 1_001_000, 1_000_000).unwrap();
    let (reserve_a, reserve_b) = pool.get_rsrvs();
    let (amount_a, amount_b) =
        get_deposit_amounts(500_000, 0, 500_000, 0, reserve_a, reserve_b).unwrap();
    assert_eq!((amount_a, amount_b), (500_000, 499_002));
    let (balance_a, balance_b) = (reserve_a + amount_a, reserve_b + amount_b);
    let receipt = pool.deposit(balance_a, balance_b).unwrap();
    let (out_a, out_b) =
        pool.withdraw(receipt.shares, 0, 0, receipt.shares, balance_a, balance_b).unwrap();
    assert!(out_a <= amount_a);
    assert!(out_b <= amount_b);
    assert!(out_a > amount_a - 5);
    assert!(out_b > amount_b - 5);
}

#[test]
fn the_first_depositor_gets_back_less_than_was_put_in() {
    let mut pool = LiquidityPool::new();
    pool.initialize().unwrap();
    let receipt = pool.deposit(1_000_000, 1_000_000).unwrap();
    assert_eq!(
        pool.withdraw(receipt.shares, 0, 0, receipt.shares, 1_000_000, 1_000_000),
        Ok((999_000, 999_000))
    );
    assert_eq!(pool.get_total_shares(), MINIMUM_LIQUIDITY);
}

#[test]
fn a_later_deposit_does_not_lower_the_worth_of_a_share() {
    let before = LiquidityPool {
        reserve_a: 1_001_000,
        reserve_b: 999_004,
        total_shares: 1_000_000,
        k_last: 0,
        initialized: true,
    };
    let mut pool = before;
    pool.deposit(1_234_567, 1_111_111).unwrap();
    assert!(pool.reserve_a * before.total_shares >= before.reserve_a * pool.total_shares);
    assert!(pool.reserve_b * before.total_shares >= before.reserve_b * pool.total_shares);
}

#[test]
fn redeeming_does_not_lower_the_worth_of_the_remaining_shares() {
    let before = funded();
    let mut pool = before;
    let (balance_a, balance_b) = (1_000_007, 1_000_013);
    pool.withdraw(333_333, 0, 0, 400_000, balance_a, balance_b).unwrap();
    assert!(pool.reserve_a * before.total_shares >= balance_a * pool.total_shares);
    assert!(pool.reserve_b * before.total_shares >= balance_b * pool.total_shares);
    assert!(pool.total_shares >= MINIMUM_LIQUIDITY);
}

#[test]
fn a_deposit_takes_no_more_than_was_offered() {
    let (amount_a, amount_b) = get_deposit_amounts(700, 0, 900, 0, 1_001_000, 999_004).unwrap();
    assert_eq!((amount_a, amount_b), (700, 698));
    let (amount_a, amount_b) = get_deposit_amounts(900, 0, 700, 0, 1_001_000, 999_004).unwrap();
    assert_eq!((amount_a, amount_b), (701, 700));
}
