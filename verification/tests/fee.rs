use interlink::fee::{amount_after_fee, calculate_fee, FeeTier};


#[test]
fn test_tier_classification() {
    assert_eq!(FeeTier::from_usd_cents(0), FeeTier::Zero);
    assert_eq!(FeeTier::from_usd_cents(99_999), FeeTier::Zero); // $999.99
    assert_eq!(FeeTier::from_usd_cents(100_000), FeeTier::Standard); // $1,000.00
    assert_eq!(FeeTier::from_usd_cents(9_999_999), FeeTier::Standard); // $99,999.99
    assert_eq!(FeeTier::from_usd_cents(10_000_000), FeeTier::Institutional); // $100k
    assert_eq!(FeeTier::from_usd_cents(999_999_999), FeeTier::Institutional); // $9.99M
    assert_eq!(FeeTier::from_usd_cents(1_000_000_000), FeeTier::OTC); // $10M+
}

#[test]
fn test_zero_fee_tier() {
    // $500 transfer — no fee regardless of amount
    let fee = calculate_fee(1_000_000_000_000_000_000u128, 50_000);
    assert_eq!(fee, 0);
}

#[test]
fn test_standard_fee_0_05_percent() {
    // $10,000 transfer of 1 ETH (1e18 wei): fee should be 0.05% = 5e14 wei
    // 0.05% = 5 bps = 5/10_000 => 1e18 * 5 / 10_000 = 5e14
    let amount = 1_000_000_000_000_000_000u128; // 1 ETH in wei
    let usd_cents = 1_000_000; // $10,000.00
    let fee = calculate_fee(amount, usd_cents);
    // 0.05% of 1e18 = 5e14
    assert_eq!(fee, 500_000_000_000_000);
}

#[test]
fn test_institutional_fee_0_01_percent() {
    // $1M transfer: fee should be 0.01% = 1 bps
    let amount = 1_000_000_000_000_000_000_000u128; // large amount
    let usd_cents = 100_000_000; // $1M
    let fee = calculate_fee(amount, usd_cents);
    assert_eq!(fee, amount / 10_000); // 1 bps
}

#[test]
fn test_otc_zero_fee() {
    let fee = calculate_fee(u128::MAX, 1_000_000_001);
    assert_eq!(fee, 0);
}

#[test]
fn test_amount_after_fee() {
    let amount = 1_000_000u128;
    // Tier 1: no fee
    assert_eq!(amount_after_fee(amount, 50_000), amount);
    // Tier 2: 0.05% fee = 500 units deducted (1_000_000 * 5 / 10_000 = 500)
    assert_eq!(amount_after_fee(amount, 100_000), 999_500);
}

#[test]
fn test_competitive_advantage_vs_wormhole() {
    // $100 transfer: Wormhole charges $1-20 flat. InterLink charges $0.
    // $5,000 transfer: Wormhole charges ~0.1-0.2%. InterLink charges 0.05%.
    let small_fee = calculate_fee(100_000_000u128, 10_000); // $100
    let medium_fee_bps = FeeTier::Standard.bps(); // 5 bps
    let wormhole_min_bps = 10u32; // 0.1%

    assert_eq!(small_fee, 0, "Tier 1 must be free");
    assert!(
        medium_fee_bps < wormhole_min_bps,
        "Tier 2 must beat Wormhole minimum"
    );
}
