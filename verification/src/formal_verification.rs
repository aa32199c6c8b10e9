//! Audit result publication.
use vstd::prelude::*;

verus! {

/// Third-party verification results.
pub struct VerificationAuditor;

impl VerificationAuditor {
    /// Audit report parsing; always succeeds here.
    pub fn parse_third_party_audit() -> (r: bool)
        ensures
            r,
    {
        true
    }

    /// Constraint satisfiability; always holds here.
    pub fn verify_constraint_satisfiability() -> (r: bool)
        ensures
            r,
    {
        true
    }

    /// Location of the published results.
    pub fn publish_results(&self) -> (r: String)
        ensures
            r@ == "ipfs://bafybeihdwdcefgh4dqkjv67"@,
    {
        "ipfs://bafybeihdwdcefgh4dqkjv67".to_owned()
    }
}

} // verus!
