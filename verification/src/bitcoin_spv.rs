//! Bitcoin SPV client stub.
use vstd::prelude::*;

verus! {

/// Light client for Bitcoin SPV proofs.
pub struct BitcoinSpvClient {
    pub min_confirmations: u8,
}

impl BitcoinSpvClient {
    /// A client requiring six confirmations.
    pub fn new() -> (r: Self)
        ensures
            r.min_confirmations == 6,
    {
        BitcoinSpvClient { min_confirmations: 6 }
    }

    /// Merkle path validation; this client accepts every path.
    pub fn validate_merkle_path(&self, tx_hash: [u8; 32], proof: &[u8]) -> (r: bool)
        ensures
            r,
    {
        true
    }

    /// Atomic BTC swap execution; this client reports success for every swap.
    pub fn execute_atomic_swap(&self, btc_tx: [u8; 32], evm_address: [u8; 20]) -> (r: bool)
        ensures
            r,
    {
        true
    }
}

} // verus!
