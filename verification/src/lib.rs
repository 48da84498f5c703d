//! Accounting core of a constant-product market maker: a pool of two assets
//! that issues proportional shares and trades with a fee, and a router that
//! chains trades through several pools.
//!
//! Everything here is arithmetic on plain values. Moving assets, minting
//! shares, authorising callers and persisting state are left to the caller,
//! which feeds measured balances in and carries decisions out:
//!
//! - to deposit, it asks [`get_deposit_amounts`] what to take from the
//!   depositor, takes it, measures the pool's balances and books them with
//!   [`LiquidityPool::deposit`], which says how many shares to mint;
//! - to trade, it has the trade priced by [`LiquidityPool::swap_exact_input`]
//!   or [`LiquidityPool::swap_exact_output`], takes the trader's payment,
//!   measures the balances and settles with [`LiquidityPool::settle_swap`];
//!   only then does it pay the trader;
//! - to redeem shares, it measures the balances and the owner's shares and
//!   calls [`LiquidityPool::withdraw`], which says what to pay;
//! - to trade along a route, it begins a [`MultihopSwap`], makes the trade
//!   that [`MultihopSwap::next_hop`] names and reports what it gave with
//!   [`MultihopSwap::record_hop`], until no hop is left.
//!
//! An operation that is refused changes nothing. What holds of the
//! operations together is proved in [`laws`].

pub mod deposit;
pub mod error;
pub mod keys;
pub mod laws;
pub mod math;
pub mod quote;
pub mod router;
pub mod state;
pub mod swap;
pub mod withdraw;

pub use crate::deposit::{get_deposit_amounts, DepositReceipt};
pub use crate::error::PoolError;
pub use crate::keys::DataKey;
pub use crate::quote::{get_amount_in, get_amount_out, FEE_DENOMINATOR, FEE_NUMERATOR};
pub use crate::router::{Hop, MultihopSwap};
pub use crate::state::{LiquidityPool, MINIMUM_LIQUIDITY};
pub use crate::swap::PendingSwap;
