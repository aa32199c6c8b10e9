//! Tiered protocol fee schedule.
use vstd::prelude::*;
use crate::arith::{sat_mul_spec, sat_mul_u128};

verus! {

/// Fee tier selected by the USD value of a transfer.
#[derive(Debug, Clone, Copy, PartialEq, Eq, Structural)]
pub enum FeeTier {
    /// Transfers under $1,000.
    Zero,
    /// Transfers from $1,000 to $99,999.99.
    Standard,
    /// Transfers from $100,000 to $9,999,999.99.
    Institutional,
    /// Transfers of $10M and more.
    OTC,
}

/// The tier that a USD value (in cents) falls into.
pub open spec fn tier_of(usd_cents: u64) -> FeeTier {
    if usd_cents <= 99_999 {
        FeeTier::Zero
    } else if usd_cents <= 9_999_999 {
        FeeTier::Standard
    } else if usd_cents <= 999_999_999 {
        FeeTier::Institutional
    } else {
        FeeTier::OTC
    }
}

/// Basis points charged in a tier.
pub open spec fn tier_bps(t: FeeTier) -> u32 {
    match t {
        FeeTier::Zero => 0,
        FeeTier::Standard => 5,
        FeeTier::Institutional => 1,
        FeeTier::OTC => 0,
    }
}

/// Human-readable description of a tier, as the text it is written in.
pub open spec fn tier_description_str(t: FeeTier) -> &'static str {
    match t {
        FeeTier::Zero => "0% (Tier 1: <$1k, vs Wormhole $1-20/tx)",
        FeeTier::Standard => "0.05% (Tier 2: $1k-$100k, vs Wormhole 0.1-0.2%)",
        FeeTier::Institutional => "0.01% (Tier 3: $100k-$10M, vs Across 0.25-1%)",
        FeeTier::OTC => "0% (Tier 4: >$10M, OTC negotiated)",
    }
}

/// Human-readable description of a tier.
pub open spec fn tier_description(t: FeeTier) -> Seq<char> {
    tier_description_str(t)@
}

/// Protocol fee on `amount` for a transfer worth `usd_cents`.
pub open spec fn fee_spec(amount: u128, usd_cents: u64) -> int {
    let bps = tier_bps(tier_of(usd_cents));
    if bps == 0 {
        0
    } else {
        sat_mul_spec(amount as int, bps as int, u128::MAX as int) / 10_000
    }
}

impl FeeTier {
    /// Basis points charged in this tier.
    pub fn bps(&self) -> (r: u32)
        ensures
            r == tier_bps(*self),
    {
        match self {
            FeeTier::Zero => 0,
            FeeTier::Standard => 5,
            FeeTier::Institutional => 1,
            FeeTier::OTC => 0,
        }
    }

    /// Human-readable description of this tier.
    pub fn describe(&self) -> (r: &'static str)
        ensures
            r == tier_description_str(*self),
            r@ == tier_description(*self),
    {
        match self {
            FeeTier::Zero => "0% (Tier 1: <$1k, vs Wormhole $1-20/tx)",
            FeeTier::Standard => "0.05% (Tier 2: $1k-$100k, vs Wormhole 0.1-0.2%)",
            FeeTier::Institutional => "0.01% (Tier 3: $100k-$10M, vs Across 0.25-1%)",
            FeeTier::OTC => "0% (Tier 4: >$10M, OTC negotiated)",
        }
    }

    /// Classify a USD value (in cents) into its tier.
    pub fn from_usd_cents(usd_cents: u64) -> (r: FeeTier)
        ensures
            r == tier_of(usd_cents),
    {
        if usd_cents <= 99_999 {
            FeeTier::Zero
        } else if usd_cents <= 9_999_999 {
            FeeTier::Standard
        } else if usd_cents <= 999_999_999 {
            FeeTier::Institutional
        } else {
            FeeTier::OTC
        }
    }
}

/// Protocol fee for a transfer of `amount` base units worth `usd_cents`.
pub fn calculate_fee(amount: u128, usd_cents: u64) -> (r: u128)
    ensures
        r == fee_spec(amount, usd_cents),
        r <= amount,
{
    let tier = FeeTier::from_usd_cents(usd_cents);
    let bps = tier.bps() as u128;
    if bps == 0 {
        return 0;
    }
    let r = sat_mul_u128(amount, bps) / 10_000;
    assert(r <= amount) by (nonlinear_arith)
        requires
            bps <= 5,
            r == sat_mul_spec(amount as int, bps as int, u128::MAX as int) / 10_000,
    ;
    r
}

/// The amount that reaches the recipient once the protocol fee is taken.
pub fn amount_after_fee(amount: u128, usd_cents: u64) -> (r: u128)
    ensures
        r == amount - fee_spec(amount, usd_cents),
{
    amount - calculate_fee(amount, usd_cents)
}

} // verus!
