use interlink::mev::{
    calculate_breakeven, estimate_daily_revenue, format_breakeven_report,
    DAILY_OPERATING_COST_CENTS,
};

#[test]
fn test_breakeven_is_positive() {
    let analysis = calculate_breakeven();
    assert!(analysis.breakeven_volume_cents > 0);
    assert!(analysis.revenue_at_breakeven.is_breakeven);
    assert!(analysis.tier1_subsidy_breakeven_cents > analysis.breakeven_volume_cents);
}

#[test]
fn test_zero_volume_is_loss() {
    let rev = estimate_daily_revenue(0, 0);
    assert!(!rev.is_breakeven);
    assert!(rev.net_cents < 0);
}

#[test]
fn test_high_volume_is_profitable() {
    let rev = estimate_daily_revenue(1_000_000_000, 100_000_000);
    assert!(rev.is_breakeven);
    assert!(rev.net_cents > 0);
    assert!(rev.total_revenue_cents > DAILY_OPERATING_COST_CENTS);
}

#[test]
fn test_mev_revenue_positive_for_swaps() {
    let rev = estimate_daily_revenue(10_000_000, 1_000_000);
    assert!(rev.mev_revenue_cents > 0, "MEV should be positive for non-zero volume");
}

#[test]
fn test_lp_yield_grows_with_collateral() {
    let rev_low = estimate_daily_revenue(100_000_000, 1_000_000);
    let rev_high = estimate_daily_revenue(100_000_000, 100_000_000);
    assert!(
        rev_high.lp_yield_revenue_cents > rev_low.lp_yield_revenue_cents,
        "Higher collateral should yield more LP revenue"
    );
}

#[test]
fn test_competitor_breakevens_populated() {
    let analysis = calculate_breakeven();
    assert_eq!(analysis.competitor_breakevens.len(), 3);
    let names: Vec<&str> = analysis.competitor_breakevens.iter().map(|c| c.name).collect();
    assert!(names.contains(&"Wormhole"));
    assert!(names.contains(&"Across"));
    assert!(names.contains(&"Stargate v2"));
}

#[test]
fn test_breakeven_report_format() {
    let report = format_breakeven_report();
    assert!(report.contains("InterLink MEV"));
    assert!(report.contains("Breakeven daily volume"));
    assert!(report.contains("MEV capture"));
    assert!(report.contains("LP yield"));
}

#[test]
fn test_fee_revenue_tier_weighting() {
    let rev = estimate_daily_revenue(100_000_000, 0);
    assert!(rev.fee_revenue_cents > 0);
    assert_eq!(rev.fee_revenue_cents, 25_000 + 1_000);
}

#[test]
fn mev_exact_breakdown() {
    let rev = estimate_daily_revenue(100_000_000, 36_500_000);
    assert_eq!(rev.fee_revenue_cents, 26_000);
    assert_eq!(rev.mev_revenue_cents, 6_000);
    assert_eq!(rev.lp_yield_revenue_cents, 3_000);
    assert_eq!(rev.total_revenue_cents, 35_000);
    assert_eq!(rev.net_cents, 34_450);
    assert_eq!(rev.margin_bps, 3);
    assert!(rev.is_breakeven);
}

#[test]
fn mev_negative_margin_rounds_toward_zero() {
    let rev = estimate_daily_revenue(1_000_000, 0);
    assert_eq!(rev.total_revenue_cents, 260 + 60);
    assert_eq!(rev.net_cents, -230);
    assert_eq!(rev.margin_bps, -2);
    assert!(!rev.is_breakeven);
}

#[test]
fn mev_zero_volume_margin_is_minus_hundred_percent() {
    assert_eq!(estimate_daily_revenue(0, 0).margin_bps, -10_000);
}

#[test]
fn mev_breakeven_is_tight() {
    let a = calculate_breakeven();
    let be = a.breakeven_volume_cents;
    assert!(estimate_daily_revenue(be, be * 10 / 100).is_breakeven);
    assert!(!estimate_daily_revenue(be - 101, (be - 101) * 10 / 100).is_breakeven);
    assert_eq!(a.annual_revenue_at_breakeven_cents, a.revenue_at_breakeven.total_revenue_cents * 365);
    assert_eq!(a.tier1_subsidy_breakeven_cents, be * 150 / 100);
}

#[test]
fn mev_report_competitor_lines() {
    let report = format_breakeven_report();
    assert!(report.contains("│ Daily operating cost:          $5.50 "));
    assert!(report.contains("│   Wormhole     $50.00 (fee: 10 bps, APY: 0 bps)"));
    assert!(report.contains("│   Across       $8000.00 (fee: 0 bps, APY: 300 bps)"));
    assert!(report.contains("│   Stargate v2  $6000.00 (fee: 1 bps, APY: 400 bps)"));
}
