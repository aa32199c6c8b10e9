//! DeFi protocol integrations.
use vstd::prelude::*;

verus! {

/// Cross-chain DeFi actions.
pub struct DefiIntegration;

impl DefiIntegration {
    /// Aave cross-chain loop; always reported as executed.
    pub fn execute_aave_cross_chain_loop(&self) -> (r: bool)
        ensures
            r,
    {
        true
    }

    /// A swap path needs at least two tokens.
    pub fn atomic_uniswap_bridge_swap(&self, path: &[&str]) -> (r: bool)
        ensures
            r == (path@.len() >= 2),
    {
        path.len() >= 2
    }

    /// Bridging cTokens needs a positive amount.
    pub fn bridge_ctokens(&self, amount: u64) -> (r: bool)
        ensures
            r == (amount > 0),
    {
        amount > 0
    }
}

} // verus!
