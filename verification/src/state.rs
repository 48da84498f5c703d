//! The state of a pool, and how it is set up.

use vstd::prelude::*;
use crate::error::PoolError;
use crate::math::{fits, is_result};

verus! {

/// Shares that the first deposit mints to the pool itself. Nobody can redeem
/// them, so a pool that has shares always has at least this many.
pub const MINIMUM_LIQUIDITY: i128 = 1000;

/// The state of a pool as mathematical integers.
pub struct PoolModel {
    /// Accounted balance of the first asset.
    pub reserve_a: int,
    /// Accounted balance of the second asset.
    pub reserve_b: int,
    /// Shares outstanding.
    pub total_shares: int,
    /// Product of the reserves after the last deposit or withdrawal.
    pub k_last: int,
    /// Whether the pool was set up.
    pub initialized: bool,
}

impl PoolModel {
    /// No reserve is negative. A pool without shares holds nothing; a pool
    /// with shares has at least the locked ones.
    pub open spec fn wf(self) -> bool {
        &&& self.reserve_a >= 0
        &&& self.reserve_b >= 0
        &&& if self.total_shares == 0 {
            self.reserve_a == 0 && self.reserve_b == 0
        } else {
            self.total_shares >= MINIMUM_LIQUIDITY
        }
    }

    /// A pool that was set up and holds sound figures.
    pub open spec fn ready(self) -> bool {
        self.initialized && self.wf()
    }

    /// The reserve of the first asset if `first`, of the second if not.
    pub open spec fn reserve_of(self, first: bool) -> int {
        if first {
            self.reserve_a
        } else {
            self.reserve_b
        }
    }

    /// The state right after set-up: nothing held, nothing issued.
    pub open spec fn fresh() -> PoolModel {
        PoolModel { reserve_a: 0, reserve_b: 0, total_shares: 0, k_last: 0, initialized: true }
    }
}

/// The state of one pool: what it accounts for of its two assets, the shares
/// it has issued, and the product of the reserves recorded at the last
/// deposit or withdrawal. Which assets these are is the caller's knowledge:
/// the pool speaks of the first and the second asset only.
#[derive(Clone, Copy, Debug, PartialEq, Eq, Structural)]
pub struct LiquidityPool {
    /// Accounted balance of the first asset.
    pub reserve_a: i128,
    /// Accounted balance of the second asset.
    pub reserve_b: i128,
    /// Shares outstanding.
    pub total_shares: i128,
    /// Product of the reserves after the last deposit or withdrawal.
    pub k_last: i128,
    /// Whether the pool was set up.
    pub initialized: bool,
}

impl View for LiquidityPool {
    type V = PoolModel;

    open spec fn view(&self) -> PoolModel {
        PoolModel {
            reserve_a: self.reserve_a as int,
            reserve_b: self.reserve_b as int,
            total_shares: self.total_shares as int,
            k_last: self.k_last as int,
            initialized: self.initialized,
        }
    }
}

impl LiquidityPool {
    /// A pool that has not been set up.
    pub fn new() -> (pool: LiquidityPool)
        ensures
            pool@ == (PoolModel { initialized: false, ..PoolModel::fresh() }),
    {
        LiquidityPool { reserve_a: 0, reserve_b: 0, total_shares: 0, k_last: 0, initialized: false }
    }

    /// Rebuilds a pool that was set up from its stored figures, if they are
    /// sound.
    pub fn restore(reserve_a: i128, reserve_b: i128, total_shares: i128, k_last: i128) -> (r:
        Option<LiquidityPool>)
        ensures
            match r {
                Some(pool) => pool@.ready() && pool == (LiquidityPool {
                    reserve_a,
                    reserve_b,
                    total_shares,
                    k_last,
                    initialized: true,
                }),
                None => !(LiquidityPool {
                    reserve_a,
                    reserve_b,
                    total_shares,
                    k_last,
                    initialized: true,
                })@.wf(),
            },
    {
        let sound: bool = reserve_a >= 0 && reserve_b >= 0 && if total_shares == 0 {
            reserve_a == 0 && reserve_b == 0
        } else {
            total_shares >= MINIMUM_LIQUIDITY
        };
        if sound {
            Some(LiquidityPool { reserve_a, reserve_b, total_shares, k_last, initialized: true })
        } else {
            None
        }
    }

    /// Sets the pool up, once: nothing held, nothing issued.
    pub fn initialize(&mut self) -> (r: Result<(), PoolError>)
        ensures
            match r {
                Ok(()) => !old(self)@.initialized && final(self)@ == PoolModel::fresh(),
                Err(e) => old(self)@.initialized && e == PoolError::AlreadyInitialized
                    && *final(self) == *old(self),
            },
    {
        if self.initialized {
            return Err(PoolError::AlreadyInitialized);
        }
        *self = LiquidityPool {
            reserve_a: 0,
            reserve_b: 0,
            total_shares: 0,
            k_last: 0,
            initialized: true,
        };
        Ok(())
    }

    /// The two reserves.
    pub fn get_rsrvs(&self) -> (r: (i128, i128))
        ensures
            r.0 == self@.reserve_a,
            r.1 == self@.reserve_b,
    {
        (self.reserve_a, self.reserve_b)
    }

    /// The product of the reserves recorded at the last deposit or withdrawal.
    pub fn get_k(&self) -> (k: i128)
        ensures
            k == self@.k_last,
    {
        self.k_last
    }

    /// The shares outstanding.
    pub fn get_total_shares(&self) -> (t: i128)
        ensures
            t == self@.total_shares,
    {
        self.total_shares
    }
}

/// The share supply after `amount` more were minted.
pub(crate) fn mint_shares(total: i128, amount: i128) -> (r: Result<i128, PoolError>)
    ensures
        is_result(
            r,
            if fits(total + amount) {
                Ok(total + amount)
            } else {
                Err(PoolError::ArithmeticError)
            },
        ),
{
    match total.checked_add(amount) {
        Some(v) => Ok(v),
        None => Err(PoolError::ArithmeticError),
    }
}

/// The share supply after `amount` were burnt.
pub(crate) fn burn_shares(total: i128, amount: i128) -> (r: Result<i128, PoolError>)
    ensures
        is_result(
            r,
            if fits(total - amount) {
                Ok(total - amount)
            } else {
                Err(PoolError::ArithmeticError)
            },
        ),
{
    match total.checked_sub(amount) {
        Some(v) => Ok(v),
        None => Err(PoolError::ArithmeticError),
    }
}

} // verus!
