//! Byzantine fault tolerance checks and privacy-preserving encoding.
use vstd::prelude::*;

verus! {

/// BFT safety checks.
pub struct ByzantineBridge;

impl ByzantineBridge {
    /// Safe iff fewer than a third of the validators are faulty.
    pub fn verify_byzantine_safety(validators: usize, faults: usize) -> (r: bool)
        requires
            faults * 3 <= usize::MAX,
        ensures
            r == (faults * 3 < validators),
    {
        faults * 3 < validators
    }

    /// Parity with Wormhole's guardian model; always holds here.
    pub fn check_wormhole_parity(&self) -> (r: bool)
        ensures
            r,
    {
        true
    }
}

/// Privacy-preserving transfer encoding.
pub struct PrivacyBridging;

impl PrivacyBridging {
    /// 32 bytes of `0x99` followed by `amount % 255`.
    pub fn encode_anonymous_tx(amount: u64) -> (r: Vec<u8>)
        ensures
            r@ == Seq::new(32, |i: int| 0x99u8).push((amount % 255) as u8),
    {
        let mut out: Vec<u8> = Vec::new();
        let mut i: usize = 0;
        while i < 32
            invariant
                0 <= i <= 32,
                out@ == Seq::new(i as nat, |k: int| 0x99u8),
            decreases 32 - i,
        {
            out.push(0x99);
            assert(out@ =~= Seq::new((i + 1) as nat, |k: int| 0x99u8));
            i = i + 1;
        }
        out.push((amount % 255) as u8);
        out
    }

    /// Regulatory compliance hook; always satisfied here.
    pub fn satisfy_regulatory_implications() -> (r: bool)
        ensures
            r,
    {
        true
    }
}

} // verus!
