//! The keys under which a pool keeps its state.

use vstd::prelude::*;

verus! {

/// The places in a pool's own storage.
#[derive(Clone, Copy, Debug, PartialEq, Eq, Structural)]
pub enum DataKey {
    /// The first asset.
    TokenA,
    /// The second asset.
    TokenB,
    /// The asset that the pool's shares are.
    TokenShare,
    /// The shares outstanding.
    TotalShares,
    /// The reserve of the first asset.
    ReserveA,
    /// The reserve of the second asset.
    ReserveB,
    /// The product of the reserves at the last deposit or withdrawal.
    KLast,
    /// Whether the pool was set up.
    IsPoolInitialize,
}

impl DataKey {
    /// The number a key is stored under: its place in the list of keys,
    /// counted from zero.
    pub open spec fn number(self) -> int {
        match self {
            DataKey::TokenA => 0,
            DataKey::TokenB => 1,
            DataKey::TokenShare => 2,
            DataKey::TotalShares => 3,
            DataKey::ReserveA => 4,
            DataKey::ReserveB => 5,
            DataKey::KLast => 6,
            DataKey::IsPoolInitialize => 7,
        }
    }

    /// The number a key is stored under.
    pub fn code(&self) -> (c: u32)
        ensures
            c == self.number(),
    {
        match self {
            DataKey::TokenA => 0,
            DataKey::TokenB => 1,
            DataKey::TokenShare => 2,
            DataKey::TotalShares => 3,
            DataKey::ReserveA => 4,
            DataKey::ReserveB => 5,
            DataKey::KLast => 6,
            DataKey::IsPoolInitialize => 7,
        }
    }

    /// No two keys share a number.
    pub proof fn lemma_numbers_differ(self, other: DataKey)
        ensures
            self.number() == other.number() ==> self == other,
    {
    }
}

} // verus!
