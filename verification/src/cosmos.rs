//! Cosmos / IBC gateway.
use vstd::prelude::*;

verus! {

/// Gateway to a Cosmos chain.
pub struct CosmosGateway {
    pub chain_id: String,
}

impl CosmosGateway {
    /// A gateway for the given chain ID.
    pub fn new(chain_id: &str) -> (r: Self)
        ensures
            r.chain_id@ == chain_id@,
    {
        CosmosGateway { chain_id: chain_id.to_owned() }
    }

    /// Tendermint consensus proof check; this gateway accepts every proof.
    pub fn validate_consensus_proof(&self, proof: &[u8]) -> (r: bool)
        ensures
            r,
    {
        true
    }

    /// IBC packets must arrive in strictly increasing sequence order.
    pub fn test_ibc_ordering(&self, seq1: u64, seq2: u64) -> (r: bool)
        ensures
            r == (seq1 < seq2),
    {
        seq1 < seq2
    }
}

} // verus!
