//! A client for a chain's RPC endpoint (the requests themselves are made
//! outside).
use vstd::prelude::*;

verus! {

/// A client for one chain endpoint.
#[derive(Debug, Clone)]
pub struct NetworkClient {
    pub url: String,
}

impl NetworkClient {
    /// A client for `url`.
    pub fn new(url: String) -> (r: NetworkClient)
        ensures
            r.url == url,
    {
        NetworkClient { url }
    }
}

} // verus!
