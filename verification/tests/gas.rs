use interlink::fee::FeeTier;
use interlink::gas::{
    compare, estimate, format_comparison_table, FeeTierSummary, EVM_GATEWAY_GAS, SOLANA_SUBMIT_CU,
};

#[test]
fn test_interlink_wins_small_transfer() {
    let cmp = compare(10_000);
    assert_eq!(cmp.interlink.fee_usd_cents, 0, "Tier 1 must be free");
    assert!(cmp.interlink_wins_on_fee(), "InterLink must be cheapest for small transfers");
}

#[test]
fn test_interlink_wins_medium_transfer() {
    let cmp = compare(1_000_000);
    assert_eq!(cmp.interlink.fee_bps, 5, "Should be Standard tier (5 bps)");
    let interlink_fee = cmp.interlink.fee_usd_cents;
    let across = cmp.competitors.iter().find(|c| c.name == "Across").unwrap();
    assert!(
        interlink_fee < across.fee_usd_cents,
        "InterLink ({}) should beat Across ({}) at $10k",
        interlink_fee,
        across.fee_usd_cents
    );
}

#[test]
fn test_interlink_wins_large_transfer_vs_percentage_bridges() {
    let cmp = compare(100_000_000);
    assert_eq!(cmp.interlink.fee_bps, 1, "Should be Institutional (1 bps)");
    let interlink_fee = cmp.interlink.fee_usd_cents;
    let stargate = cmp.competitors.iter().find(|c| c.name == "Stargate v2").unwrap();
    let across = cmp.competitors.iter().find(|c| c.name == "Across").unwrap();
    assert!(
        interlink_fee < stargate.fee_usd_cents,
        "InterLink (${:.2}) must beat Stargate (${:.2}) at $1M",
        interlink_fee as f64 / 100.0,
        stargate.fee_usd_cents as f64 / 100.0
    );
    assert!(
        interlink_fee < across.fee_usd_cents,
        "InterLink (${:.2}) must beat Across (${:.2}) at $1M",
        interlink_fee as f64 / 100.0,
        across.fee_usd_cents as f64 / 100.0
    );
}

#[test]
fn test_interlink_wins_on_speed() {
    let cmp = compare(100_000);
    assert!(
        cmp.interlink_wins_on_speed(),
        "InterLink 30s must beat Wormhole 2min+, Stargate 1min+, Across 5min+"
    );
}

#[test]
fn test_gas_estimate_structure() {
    let est = estimate(1_000_000_000_000_000_000u128, 300_000, 30, 100, 3_000);
    assert_eq!(est.source_gas_units, EVM_GATEWAY_GAS);
    assert_eq!(est.source_gas_price_gwei, 30);
    assert!(est.source_gas_cost_wei > 0);
    assert!(est.proof_cost_amortised_wei > 0);
    assert!(est.protocol_fee_amount > 0);
}

#[test]
fn test_batch_amortisation_reduces_cost() {
    let single = estimate(1_000_000u128, 100_000, 30, 1, 3_000);
    let batched = estimate(1_000_000u128, 100_000, 30, 100, 3_000);
    assert!(
        batched.proof_cost_amortised_wei < single.proof_cost_amortised_wei,
        "Batching should reduce per-tx proof cost"
    );
    assert_eq!(batched.proof_cost_amortised_wei * 100, single.proof_cost_amortised_wei);
}

#[test]
fn test_comparison_table_format() {
    let table = format_comparison_table(100_000);
    assert!(table.contains("InterLink"));
    assert!(table.contains("Wormhole"));
    assert!(table.contains("Stargate"));
    assert!(table.contains("Across"));
    assert!(
        table.contains("InterLink wins")
            || table.contains("Fee win: YES")
            || table.contains("saves")
    );
}

#[test]
fn gas_estimate_exact_values() {
    let est = estimate(1_000_000u128, 100_000, 30, 4, 3_000);
    assert_eq!(est.source_gas_cost_wei, 80_000u128 * 30 * 1_000_000_000);
    assert_eq!(est.proof_cost_amortised_wei, 200_000u128 * 30 * 1_000_000_000 / 4);
    assert_eq!(est.dest_compute_units, SOLANA_SUBMIT_CU);
    assert_eq!(est.dest_fee_lamports, 5_000);
    assert_eq!(est.fee_tier.name, "Standard");
    assert_eq!(est.fee_tier.bps, 5);
    assert_eq!(est.protocol_fee_amount, 500);
}

#[test]
fn gas_zero_batch_counts_as_one() {
    let zero = estimate(1_000u128, 100, 7, 0, 1);
    let one = estimate(1_000u128, 100, 7, 1, 1);
    assert_eq!(zero.proof_cost_amortised_wei, one.proof_cost_amortised_wei);
    assert_eq!(zero.fee_tier.name, "Zero");
    assert_eq!(zero.protocol_fee_amount, 0);
}

#[test]
fn gas_tier_summary_from_tier() {
    let s = FeeTierSummary::from(FeeTier::Institutional);
    assert_eq!(s.name, "Institutional");
    assert_eq!(s.bps, 1);
    assert_eq!(s.description, FeeTier::Institutional.describe());
    assert_eq!(FeeTierSummary::from(FeeTier::OTC).name, "OTC");
}

#[test]
fn gas_compare_exact_competitor_fees() {
    let cmp = compare(1_000_000);
    assert_eq!(cmp.interlink.fee_usd_cents, 500);
    assert_eq!(cmp.competitors.len(), 3);
    assert_eq!(cmp.competitors[0].name, "Wormhole");
    assert_eq!(cmp.competitors[0].fee_usd_cents, 100);
    assert_eq!(cmp.competitors[1].fee_usd_cents, 5_000);
    assert_eq!(cmp.competitors[2].fee_usd_cents, 2_500);
    assert_eq!(cmp.cheapest_competitor_cents(), 100);
    assert_eq!(cmp.savings_vs_cheapest_cents(), -400);
    assert!(!cmp.interlink_wins_on_fee());
}

#[test]
fn gas_table_exact_lines() {
    let table = format_comparison_table(1_000_000);
    assert!(table.contains("Transfer: $10000.00 "));
    assert!(table.contains("│ InterLink ★  │      5 bps │    $5.0000  │     30s target"));
    assert!(table.contains("│ Wormhole     │     10 bps │    $1.0000  │ 120s–900s"));
    assert!(table.contains("│ Stargate v2  │     50 bps │   $50.0000  │ 60s–120s"));
    assert!(table.contains("InterLink costs $4.00 more than cheapest competitor"));
    assert!(table.contains("Fee win: NO   │ ✓ Speed win: YES"));
    assert!(table.ends_with("┘\n"));
}

#[test]
fn gas_table_small_transfer_saves() {
    let table = format_comparison_table(10_000);
    assert!(table.contains("Transfer: $100.00 "));
    assert!(table.contains("✓ InterLink saves $0.25 vs cheapest competitor"));
    assert!(table.contains("Fee win: YES"));
}
