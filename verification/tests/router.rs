use liquidity_pool::{DataKey, Hop, LiquidityPool, MultihopSwap, PoolError};

fn balanced() -> LiquidityPool {
    LiquidityPool {
        reserve_a: 1_000_000,
        reserve_b: 1_000_000,
        total_shares: 1_000_000,
        k_last: 1_000_000_000_000,
        initialized: true,
    }
}

fn trade(pool: &mut LiquidityPool, hop: &Hop) -> i128 {
    let swap = pool.swap_exact_input(hop.swap_x_to_y, hop.amount_in, hop.min_out).unwrap();
    let (reserve_a, reserve_b) = pool.get_rsrvs();
    let (balance_a, balance_b) = if hop.swap_x_to_y {
        (reserve_a + hop.amount_in, reserve_b)
    } else {
        (reserve_a, reserve_b + hop.amount_in)
    };
    pool.settle_swap(&swap, balance_a, balance_b).unwrap();
    swap.amount_out
}

#[test]
fn two_hops_through_balanced_pools() {
    let mut pools = vec![balanced(), balanced()];
    let mut route =
        MultihopSwap::swap_exact_input_doublehop(pools.len(), true, true, 1000, 0).unwrap();
    let first = route.next_hop().unwrap();
    assert_eq!(first, Hop { pool: 0, swap_x_to_y: true, amount_in: 1000, min_out: 0 });
    let y_out = trade(&mut pools[first.pool], &first);
    assert_eq!(y_out, 996);
    route.record_hop(y_out);
    let second = route.next_hop().unwrap();
    assert_eq!(second, Hop { pool: 1, swap_x_to_y: true, amount_in: 996, min_out: 0 });
    let z_out = trade(&mut pools[second.pool], &second);
    route.record_hop(z_out);
    assert_eq!(route.next_hop(), None);
    assert_eq!(route.amount_out(), Some(992));
    assert_eq!(pools[0].get_rsrvs(), (1_001_000, 999_004));
    assert_eq!(pools[1].get_rsrvs(), (1_000_996, 999_008));
}

#[test]
fn a_route_with_too_few_pools_is_refused() {
    assert_eq!(
        MultihopSwap::swap_exact_input_triplehop(2, true, true, true, 1000, 0).err(),
        Some(PoolError::MissingPoolReference)
    );
    assert_eq!(
        MultihopSwap::swap_exact_input_doublehop(1, true, true, 1000, 0).err(),
        Some(PoolError::MissingPoolReference)
    );
    assert_eq!(
        MultihopSwap::swap_exact_input_doublehop(0, true, true, 1000, 0).err(),
        Some(PoolError::MissingPoolReference)
    );
    assert_eq!(
        MultihopSwap::swap_exact_input_quadruplehop(3, true, true, true, true, 1000, 0).err(),
        Some(PoolError::MissingPoolReference)
    );
}

#[test]
fn a_route_uses_the_first_pools_of_a_longer_list() {
    let mut route = MultihopSwap::swap_exact_input_doublehop(5, false, true, 10, 3).unwrap();
    assert_eq!(route.next_hop().unwrap().pool, 0);
    route.record_hop(9);
    assert_eq!(route.next_hop().unwrap().pool, 1);
    route.record_hop(8);
    assert_eq!(route.next_hop(), None);
}

#[test]
fn only_the_last_hop_is_held_to_the_floor() {
    let mut route =
        MultihopSwap::swap_exact_input_triplehop(3, true, false, true, 5000, 4000).unwrap();
    assert_eq!(
        route.next_hop(),
        Some(Hop { pool: 0, swap_x_to_y: true, amount_in: 5000, min_out: 0 })
    );
    route.record_hop(4900);
    assert_eq!(
        route.next_hop(),
        Some(Hop { pool: 1, swap_x_to_y: false, amount_in: 4900, min_out: 0 })
    );
    route.record_hop(4800);
    assert_eq!(
        route.next_hop(),
        Some(Hop { pool: 2, swap_x_to_y: true, amount_in: 4800, min_out: 4000 })
    );
    assert_eq!(route.amount_out(), None);
    route.record_hop(4700);
    assert_eq!(route.amount_out(), Some(4700));
}

#[test]
fn four_hops_through_balanced_pools() {
    let mut pools = vec![balanced(), balanced(), balanced(), balanced()];
    let mut route = MultihopSwap::swap_exact_input_quadruplehop(
        pools.len(),
        true,
        false,
        true,
        false,
        1000,
        984,
    )
    .unwrap();
    let mut given: Vec<i128> = Vec::new();
    while let Some(hop) = route.next_hop() {
        let out = trade(&mut pools[hop.pool], &hop);
        given.push(out);
        route.record_hop(out);
    }
    assert_eq!(given, vec![996, 992, 988, 984]);
    assert_eq!(route.amount_out(), Some(984));
}

#[test]
fn the_last_hop_fails_below_the_floor() {
    let pools = vec![balanced(), balanced()];
    let mut route = MultihopSwap::swap_exact_input_doublehop(2, true, true, 1000, 993).unwrap();
    let first = route.next_hop().unwrap();
    let swap = pools[0].swap_exact_input(first.swap_x_to_y, first.amount_in, first.min_out);
    assert_eq!(swap.unwrap().amount_out, 996);
    route.record_hop(996);
    let second = route.next_hop().unwrap();
    assert_eq!(second.min_out, 993);
    assert_eq!(
        pools[1].swap_exact_input(second.swap_x_to_y, second.amount_in, second.min_out),
        Err(PoolError::SlippageExceeded)
    );
}

#[test]
fn routes_have_two_to_four_hops() {
    let route = MultihopSwap::swap_exact_input_doublehop(2, true, true, 1000, 0).unwrap();
    assert_eq!(route.hops(), 2);
    let route = MultihopSwap::swap_exact_input_triplehop(3, true, true, true, 1000, 0).unwrap();
    assert_eq!(route.hops(), 3);
    let route =
        MultihopSwap::swap_exact_input_quadruplehop(9, true, true, true, true, 1000, 0).unwrap();
    assert_eq!(route.hops(), 4);
}

#[test]
fn a_finished_route_stays_as_it_is() {
    let mut route = MultihopSwap::swap_exact_input_doublehop(2, true, true, 1000, 0).unwrap();
    route.record_hop(996);
    route.record_hop(992);
    route.record_hop(5);
    assert_eq!(route.amount_out(), Some(992));
    assert_eq!(route.next_hop(), None);
}

#[test]
fn keys_are_numbered_in_order() {
    assert_eq!(DataKey::TokenA.code(), 0);
    assert_eq!(DataKey::TokenB.code(), 1);
    assert_eq!(DataKey::TokenShare.code(), 2);
    assert_eq!(DataKey::TotalShares.code(), 3);
    assert_eq!(DataKey::ReserveA.code(), 4);
    assert_eq!(DataKey::ReserveB.code(), 5);
    assert_eq!(DataKey::KLast.code(), 6);
    assert_eq!(DataKey::IsPoolInitialize.code(), 7);
}
