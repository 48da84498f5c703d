//! The reasons for which an operation is refused.

use vstd::prelude::*;

verus! {

/// Why an operation was refused. A refused operation leaves the pool as it was.
#[derive(Clone, Copy, Debug, PartialEq, Eq, Structural)]
pub enum PoolError {
    /// The pool was set up before.
    AlreadyInitialized,
    /// An amount, a balance or a reserve is too small for the operation:
    /// not positive where it must be, or below what is asked of it.
    InsufficientLiquidity,
    /// The result is worse than the bound the caller set.
    SlippageExceeded,
    /// The fee-adjusted product of the reserves would fall.
    InvariantViolation,
    /// A division by zero, or a value that does not fit in 128 bits.
    ArithmeticError,
    /// A route names more hops than there are pools.
    MissingPoolReference,
}

} // verus!
