//! Block explorer hooks.
use vstd::prelude::*;

verus! {

/// Explorer queries.
pub struct BlockExplorer;

impl BlockExplorer {
    /// Status of a transfer; reported as `pending`.
    pub fn track_transfer(tx: [u8; 32]) -> (r: String)
        ensures
            r@ == "pending"@,
    {
        "pending".to_owned()
    }

    /// Graph data for a proof.
    pub fn visualize_proof(proof: &[u8]) -> (r: String)
        ensures
            r@ == "visual_graph_data"@,
    {
        "visual_graph_data".to_owned()
    }

    /// Outcome of the Stargate UX analysis.
    pub fn analyze_stargate_ux() -> (r: &'static str)
        ensures
            r@ == "interlink_faster_latency"@,
    {
        "interlink_faster_latency"
    }
}

} // verus!
