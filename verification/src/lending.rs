//! Lending protocol collateral.
use vstd::prelude::*;

verus! {

/// Collateral settings.
pub struct LendingProtocol {
    pub allow_staked_tokens: bool,
}

impl LendingProtocol {
    /// Collateral is pledged when staked tokens are allowed and the amount
    /// is positive.
    pub fn pledge_collateral(&self, protocol: &str, amount: u64) -> (r: bool)
        ensures
            r == (self.allow_staked_tokens && amount > 0),
    {
        if self.allow_staked_tokens && amount > 0 {
            true
        } else {
            false
        }
    }
}

} // verus!
