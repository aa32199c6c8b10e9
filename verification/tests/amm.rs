use interlink::amm::{AmmError, AmmRegistry, Pool, PoolId, MINIMUM_LIQUIDITY};


fn eth_usdc_pool() -> Pool {
    let id = PoolId::new([0xAA; 20], 1, [0xBB; 20], 1);
    Pool::new(id)
}

#[test]
fn test_add_initial_liquidity() {
    let mut pool = eth_usdc_pool();
    let shares = pool
        .add_initial_liquidity(
            1_000_000_000_000_000_000u128, // 1 ETH
            3_000_000_000u128,             // 3000 USDC (6 decimals)
        )
        .unwrap();
    assert!(shares > 0);
    assert_eq!(pool.reserve_a, 1_000_000_000_000_000_000u128);
    assert_eq!(pool.reserve_b, 3_000_000_000u128);
}

#[test]
fn test_constant_product_invariant() {
    let mut pool = eth_usdc_pool();
    pool.add_initial_liquidity(1_000_000u128, 3_000_000u128)
        .unwrap();
    let k_before = pool.k();

    // After a swap, k should be approximately preserved (with LP fee making it slightly larger)
    pool.swap_a_for_b(10_000, 0).unwrap();
    let k_after = pool.k();

    // k increases slightly because LP fee stays in pool (by design)
    assert!(k_after >= k_before, "k must not decrease after swap");
}

#[test]
fn test_swap_reduces_output_reserve() {
    let mut pool = eth_usdc_pool();
    pool.add_initial_liquidity(1_000_000u128, 3_000_000u128)
        .unwrap();

    let b_before = pool.reserve_b;
    let result = pool.swap_a_for_b(1_000, 0).unwrap();
    assert!(result.amount_out > 0);
    assert_eq!(pool.reserve_b, b_before - result.amount_out);
}

#[test]
fn test_swap_zero_amount_rejected() {
    let mut pool = eth_usdc_pool();
    pool.add_initial_liquidity(1_000_000u128, 3_000_000u128)
        .unwrap();
    assert!(matches!(pool.swap_a_for_b(0, 0), Err(AmmError::ZeroAmount)));
}

#[test]
fn test_slippage_increases_with_trade_size() {
    let id = PoolId::new([0xAA; 20], 1, [0xBB; 20], 1);
    let mut pool = Pool::new(id);
    pool.add_initial_liquidity(1_000_000u128, 3_000_000u128)
        .unwrap();

    let small_slippage = pool.slippage_bps(1_000); // 0.1% of pool
    let large_slippage = pool.slippage_bps(100_000); // 10% of pool
    assert!(
        large_slippage > small_slippage,
        "larger swaps have more slippage: small={small_slippage} bps, large={large_slippage} bps"
    );
}

#[test]
fn test_price_impact_too_high_rejected() {
    let mut pool = eth_usdc_pool();
    pool.add_initial_liquidity(100_000u128, 300_000u128)
        .unwrap();
    // Swap 10% of pool → >5% price impact
    let err = pool.swap_a_for_b(50_000, 0).unwrap_err();
    assert!(matches!(err, AmmError::PriceImpactTooHigh { .. }));
}

#[test]
fn test_add_and_remove_liquidity_roundtrip() {
    let mut pool = eth_usdc_pool();
    let shares = pool
        .add_initial_liquidity(1_000_000u128, 3_000_000u128)
        .unwrap();

    // Remove all user shares (not MINIMUM_LIQUIDITY)
    let (a_out, b_out) = pool.remove_liquidity(shares).unwrap();
    assert!(a_out > 0);
    assert!(b_out > 0);
    // After removing user shares, MINIMUM_LIQUIDITY remains
    assert_eq!(pool.total_shares, MINIMUM_LIQUIDITY);
}

#[test]
fn test_lp_fee_goes_to_protocol() {
    let mut pool = eth_usdc_pool();
    pool.add_initial_liquidity(1_000_000u128, 3_000_000u128)
        .unwrap();

    let result = pool.swap_a_for_b(10_000, 0).unwrap();
    assert!(result.protocol_fee > 0);
    assert!(result.lp_fee > 0);
    // Protocol gets 5 bps of input, LP gets 25 bps
    assert!(result.lp_fee > result.protocol_fee);
    assert_eq!(pool.fees_collected_a, result.protocol_fee);
}

#[test]
fn test_quote_matches_swap() {
    let mut pool = eth_usdc_pool();
    pool.add_initial_liquidity(1_000_000u128, 3_000_000u128)
        .unwrap();

    let quoted = pool.quote_a_for_b(1_000);
    let result = pool.swap_a_for_b(1_000, 0).unwrap();
    // Quote and swap should be within 1 unit (rounding)
    assert!(
        (quoted as i128 - result.amount_out as i128).abs() <= 1,
        "quote={quoted} swap={}",
        result.amount_out
    );
}

#[test]
fn test_canonical_pool_id_ordering() {
    let a = [0xAA; 20];
    let b = [0xBB; 20];
    let id1 = PoolId::new(a, 1, b, 1);
    let id2 = PoolId::new(b, 1, a, 1); // swapped order
    assert_eq!(id1, id2, "canonical ordering must make IDs equal");
}

#[test]
fn test_registry_get_or_create() {
    let mut registry = AmmRegistry::new();
    let id = PoolId::new([0xAA; 20], 1, [0xBB; 20], 1);
    let pool = registry.get_or_create(id.clone());
    pool.add_initial_liquidity(1_000_000, 3_000_000).unwrap();

    assert_eq!(registry.pool_count(), 1);
    assert_eq!(registry.total_tvl_a(), 1_000_000);
}

#[test]
fn test_spot_price() {
    let mut pool = eth_usdc_pool();
    // 1 ETH = 3000 USDC: price = 3000/1 = 3000 (scaled × 1e6 = 3_000_000_000)
    pool.add_initial_liquidity(1_000_000u128, 3_000_000_000u128)
        .unwrap();
    let price = pool.spot_price_a_in_b_e6();
    // 3_000_000_000 * 1_000_000 / 1_000_000 = 3_000_000_000
    assert_eq!(price, 3_000_000_000u128);
}

#[test]
fn swap_errors_on_a_full_pool_change_nothing() {
    let mut pool = eth_usdc_pool();
    pool.reserve_a = u128::MAX;
    pool.reserve_b = 1_000;
    assert_eq!(pool.swap_a_for_b(0, 0), Err(AmmError::ZeroAmount));
    assert_eq!((pool.reserve_a, pool.reserve_b, pool.volume_a), (u128::MAX, 1_000, 0));
}
