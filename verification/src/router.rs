//! Trades through several pools in a row.

use vstd::prelude::*;
use crate::error::PoolError;

verus! {

/// One trade of a route: sell `amount_in` to the pool at place `pool` of the
/// caller's list, the first asset if `swap_x_to_y`, and accept no less than
/// `min_out`.
#[derive(Clone, Copy, Debug, PartialEq, Eq, Structural)]
pub struct Hop {
    /// The place of the pool in the caller's list.
    pub pool: usize,
    /// Whether the pool's first asset is sold.
    pub swap_x_to_y: bool,
    /// The amount to sell.
    pub amount_in: i128,
    /// The least amount to accept.
    pub min_out: i128,
}

/// A route as mathematical values.
pub struct RouteModel {
    /// For each hop in turn, whether the pool's first asset is sold.
    pub directions: Seq<bool>,
    /// The least the last hop must give.
    pub min_out: int,
    /// What the next hop sells; after the last hop, what the route gave.
    pub amount: int,
    /// How many hops have been traded.
    pub done: nat,
}

impl RouteModel {
    /// A route of `directions`, about to sell `amount_in`.
    pub open spec fn start(directions: Seq<bool>, amount_in: int, min_out: int) -> RouteModel {
        RouteModel { directions, min_out, amount: amount_in, done: 0 }
    }

    /// A route has two to four hops and has traded no more than it has.
    pub open spec fn wf(self) -> bool {
        2 <= self.directions.len() <= 4 && self.done <= self.directions.len()
    }

    /// Whether every hop has been traded.
    pub open spec fn finished(self) -> bool {
        self.done >= self.directions.len()
    }

    /// The floor under what hop `i` gives: the caller's under the last hop,
    /// none under the others.
    pub open spec fn floor_of(self, i: int) -> int {
        if i + 1 == self.directions.len() {
            self.min_out
        } else {
            0
        }
    }

    /// The route once the next hop has given `amount_out`.
    pub open spec fn advanced(self, amount_out: int) -> RouteModel {
        RouteModel { amount: amount_out, done: self.done + 1, ..self }
    }

    /// The route once its next hops have given `outputs`, one after the other.
    pub open spec fn run(self, outputs: Seq<int>) -> RouteModel
        decreases outputs.len(),
    {
        if outputs.len() == 0 {
            self
        } else {
            self.run(outputs.drop_last()).advanced(outputs.last())
        }
    }
}

/// A route chains its hops: after some of them have been traded, the next
/// sells what the last one gave (the first sells the caller's amount), and
/// the route is finished exactly when as many hops have been traded as it
/// has directions.
pub proof fn lemma_route_chains(
    directions: Seq<bool>,
    amount_in: int,
    min_out: int,
    outputs: Seq<int>,
)
    ensures
        ({
            let route = RouteModel::start(directions, amount_in, min_out).run(outputs);
            &&& route.directions == directions
            &&& route.min_out == min_out
            &&& route.done == outputs.len()
            &&& route.amount == if outputs.len() == 0 {
                amount_in
            } else {
                outputs.last()
            }
            &&& route.finished() <==> outputs.len() >= directions.len()
        }),
    decreases outputs.len(),
{
    if outputs.len() > 0 {
        lemma_route_chains(directions, amount_in, min_out, outputs.drop_last());
    }
}

/// A trade through two to four pools in a row, each hop selling what the hop
/// before it bought. Only the last hop is held to the caller's floor.
pub struct MultihopSwap {
    directions: Vec<bool>,
    min_out: i128,
    amount: i128,
    done: usize,
}

impl View for MultihopSwap {
    type V = RouteModel;

    closed spec fn view(&self) -> RouteModel {
        RouteModel {
            directions: self.directions@,
            min_out: self.min_out as int,
            amount: self.amount as int,
            done: self.done as nat,
        }
    }
}

impl MultihopSwap {
    #[verifier::type_invariant]
    spec fn sound(self) -> bool {
        self@.wf()
    }

    /// Begins a route with one hop for each of `directions`, through the
    /// first pools of a list of `pool_count`.
    fn begin(pool_count: usize, directions: Vec<bool>, amount_in: i128, min_out: i128) -> (r:
        Result<MultihopSwap, PoolError>)
        requires
            2 <= directions@.len() <= 4,
        ensures
            match r {
                Ok(route) => pool_count >= directions@.len() && route@ == RouteModel::start(
                    directions@,
                    amount_in as int,
                    min_out as int,
                ),
                Err(e) => pool_count < directions@.len() && e == PoolError::MissingPoolReference,
            },
    {
        if pool_count < directions.len() {
            return Err(PoolError::MissingPoolReference);
        }
        Ok(MultihopSwap { directions, min_out, amount: amount_in, done: 0 })
    }

    /// Begins a trade of `x_in` through the first two of `pool_count` pools.
    pub fn swap_exact_input_doublehop(
        pool_count: usize,
        swap_x_to_y: bool,
        swap_y_to_z: bool,
        x_in: i128,
        z_min_out: i128,
    ) -> (r: Result<MultihopSwap, PoolError>)
        ensures
            match r {
                Ok(route) => pool_count >= 2 && route@ == RouteModel::start(
                    seq![swap_x_to_y, swap_y_to_z],
                    x_in as int,
                    z_min_out as int,
                ),
                Err(e) => pool_count < 2 && e == PoolError::MissingPoolReference,
            },
    {
        let directions: Vec<bool> = vec![swap_x_to_y, swap_y_to_z];
        assert(directions@ =~= seq![swap_x_to_y, swap_y_to_z]);
        MultihopSwap::begin(pool_count, directions, x_in, z_min_out)
    }

    /// Begins a trade of `x_in` through the first three of `pool_count` pools.
    pub fn swap_exact_input_triplehop(
        pool_count: usize,
        swap_x_to_y: bool,
        swap_y_to_z: bool,
        swap_z_to_a: bool,
        x_in: i128,
        a_min_out: i128,
    ) -> (r: Result<MultihopSwap, PoolError>)
        ensures
            match r {
                Ok(route) => pool_count >= 3 && route@ == RouteModel::start(
                    seq![swap_x_to_y, swap_y_to_z, swap_z_to_a],
                    x_in as int,
                    a_min_out as int,
                ),
                Err(e) => pool_count < 3 && e == PoolError::MissingPoolReference,
            },
    {
        let directions: Vec<bool> = vec![swap_x_to_y, swap_y_to_z, swap_z_to_a];
        assert(directions@ =~= seq![swap_x_to_y, swap_y_to_z, swap_z_to_a]);
        MultihopSwap::begin(pool_count, directions, x_in, a_min_out)
    }

    /// Begins a trade of `x_in` through the first four of `pool_count` pools.
    pub fn swap_exact_input_quadruplehop(
        pool_count: usize,
        swap_x_to_y: bool,
        swap_y_to_z: bool,
        swap_z_to_a: bool,
        swap_a_to_b: bool,
        x_in: i128,
        b_min_out: i128,
    ) -> (r: Result<MultihopSwap, PoolError>)
        ensures
            match r {
                Ok(route) => pool_count >= 4 && route@ == RouteModel::start(
                    seq![swap_x_to_y, swap_y_to_z, swap_z_to_a, swap_a_to_b],
                    x_in as int,
                    b_min_out as int,
                ),
                Err(e) => pool_count < 4 && e == PoolError::MissingPoolReference,
            },
    {
        let directions: Vec<bool> = vec![swap_x_to_y, swap_y_to_z, swap_z_to_a, swap_a_to_b];
        assert(directions@ =~= seq![swap_x_to_y, swap_y_to_z, swap_z_to_a, swap_a_to_b]);
        MultihopSwap::begin(pool_count, directions, x_in, b_min_out)
    }

    /// How many hops the route has: two, three or four.
    pub fn hops(&self) -> (n: usize)
        ensures
            n == self@.directions.len(),
            self@.wf(),
    {
        proof {
            use_type_invariant(self);
        }
        self.directions.len()
    }

    /// The trade to make next, if any is left: with the pool at the place of
    /// the hop, selling what the hop before gave.
    pub fn next_hop(&self) -> (r: Option<Hop>)
        ensures
            match r {
                Some(hop) => !self@.finished() && hop.pool == self@.done && hop.swap_x_to_y
                    == self@.directions[self@.done as int] && hop.amount_in == self@.amount
                    && hop.min_out == self@.floor_of(self@.done as int),
                None => self@.finished(),
            },
    {
        if self.done >= self.directions.len() {
            return None;
        }
        let min_out: i128 = if self.done + 1 == self.directions.len() {
            self.min_out
        } else {
            0
        };
        Some(
            Hop {
                pool: self.done,
                swap_x_to_y: self.directions[self.done],
                amount_in: self.amount,
                min_out,
            },
        )
    }

    /// Notes that the next hop was traded and gave `amount_out`. A route with
    /// no hop left stays as it is.
    pub fn record_hop(&mut self, amount_out: i128)
        ensures
            old(self)@.finished() ==> final(self)@ == old(self)@,
            !old(self)@.finished() ==> final(self)@ == old(self)@.advanced(amount_out as int),
    {
        proof {
            use_type_invariant(&*self);
        }
        if self.done < self.directions.len() {
            self.amount = amount_out;
            self.done = self.done + 1;
        }
    }

    /// What the route gave, once every hop has been traded.
    pub fn amount_out(&self) -> (r: Option<i128>)
        ensures
            match r {
                Some(amount) => self@.finished() && amount == self@.amount,
                None => !self@.finished(),
            },
    {
        if self.done >= self.directions.len() {
            Some(self.amount)
        } else {
            None
        }
    }
}

} // verus!
