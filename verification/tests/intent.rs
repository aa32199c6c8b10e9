use interlink::intent::{
    generate_routes, solve, IntentError, IntentRequest, RouteType, INTENT_EXPIRY_SECS,
};

fn now() -> u64 {
    1_700_000_000
}

fn bridge_intent() -> IntentRequest {
    IntentRequest {
        token_in: [0xAA; 20],
        chain_in: 1,
        amount_in: 1_000_000_000_000_000_000u128,
        token_out: [0xAA; 20],
        chain_out: 900,
        min_amount_out: 900_000_000_000_000_000u128,
        recipient: vec![0xBB; 32],
        deadline: now() + 600,
        prefer_speed: false,
    }
}

fn swap_intent() -> IntentRequest {
    IntentRequest {
        token_in: [0xAA; 20],
        chain_in: 1,
        amount_in: 1_000_000_000_000_000_000u128,
        token_out: [0xBB; 20],
        chain_out: 900,
        min_amount_out: 2_500_000_000u128,
        recipient: vec![0xBB; 32],
        deadline: now() + 600,
        prefer_speed: false,
    }
}

#[test]
fn test_direct_bridge_route_found() {
    let intent = bridge_intent();
    let quote = solve(&intent, now()).unwrap();
    assert_eq!(quote.best_route.route_type, RouteType::DirectBridge);
    assert!(quote.expected_out > 0);
    assert!(quote.expected_out >= intent.min_amount_out);
    assert!(quote.interlink_wins);
}

#[test]
fn test_bridge_and_swap_route_found() {
    let intent = swap_intent();
    let quote = solve(&intent, now()).unwrap();
    assert!(!quote.best_route.hops.is_empty());
    assert!(quote.expected_out > 0);
}

#[test]
fn test_expired_intent_rejected() {
    let mut intent = bridge_intent();
    intent.deadline = now() - 1;
    let err = solve(&intent, now()).unwrap_err();
    assert_eq!(err, IntentError::IntentExpired);
}

#[test]
fn intent_test_zero_amount_rejected() {
    let mut intent = bridge_intent();
    intent.amount_in = 0;
    let err = solve(&intent, now()).unwrap_err();
    assert_eq!(err, IntentError::ZeroAmount);
}

#[test]
fn test_prefer_speed_selects_faster_route() {
    let mut intent = swap_intent();
    intent.prefer_speed = true;
    let fast_quote = solve(&intent, now()).unwrap();
    intent.prefer_speed = false;
    let cheap_quote = solve(&intent, now()).unwrap();
    assert!(fast_quote.estimated_secs <= cheap_quote.estimated_secs + 10);
}

#[test]
fn test_direct_transfer_detection() {
    let intent = bridge_intent();
    assert!(intent.is_direct_transfer(), "same token different chain = direct transfer");
    let swap = swap_intent();
    assert!(!swap.is_direct_transfer(), "different token = not direct transfer");
}

#[test]
fn test_slippage_calculation() {
    let intent = bridge_intent();
    let slippage = intent.slippage_bps(1_000_000_000_000_000_000u128);
    assert_eq!(slippage, 1_000);
}

#[test]
fn test_quote_has_alternatives() {
    let intent = swap_intent();
    let quote = solve(&intent, now()).unwrap();
    assert!(!quote.best_route.hops.is_empty());
}

#[test]
fn test_quote_expires_in_5_minutes() {
    let intent = bridge_intent();
    let quote = solve(&intent, now()).unwrap();
    assert_eq!(quote.expires_at, now() + INTENT_EXPIRY_SECS);
}

#[test]
fn test_interlink_beats_wormhole_on_fee() {
    let intent = bridge_intent();
    let quote = solve(&intent, now()).unwrap();
    assert!(quote.fee_bps <= 10, "InterLink must match or beat Wormhole 10 bps");
}

#[test]
fn test_multihop_only_for_large_amounts() {
    let mut intent = swap_intent();
    intent.amount_in = 100;
    let routes = generate_routes(&intent);
    assert!(
        !routes.iter().any(|r| r.route_type == RouteType::MultiHop),
        "multi-hop should not be generated for tiny amounts"
    );
}

#[test]
fn intent_swap_quote_exact_values() {
    let intent = swap_intent();
    let quote = solve(&intent, now()).unwrap();
    // 1e18 wei -> usd estimate 3_000_000 cents -> Standard tier, 5 bps.
    // Both candidates cost 35 bps; the multi-hop route delivers more.
    assert_eq!(quote.best_route.route_type, RouteType::MultiHop);
    assert_eq!(quote.fee_bps, 35);
    let hop1 = 1_000_000_000_000_000_000u128 * 9_995 / 10_000;
    let hop2 = hop1 * 9_975 / 10_000;
    let hop3 = hop2 * 9_995 / 10_000;
    assert_eq!(quote.expected_out, hop3);
    assert_eq!(quote.min_out, quote.expected_out * (10_000 - 35) / 10_000);
    assert_eq!(quote.alternative_routes.len(), 1);
    assert_eq!(quote.alternative_routes[0].route_type, RouteType::BridgeAndSwap);
    assert_eq!(quote.alternative_routes[0].total_amount_out, hop1 * 9_920 / 10_000);
    assert_eq!(quote.protocol_fee_bps, 5);
    assert_eq!(quote.quote_id, "quote_1700000000_0");
    assert_eq!(quote.intent.recipient, vec![0xBB; 32]);
    assert!(!quote.interlink_wins);
}

#[test]
fn intent_prefer_speed_exact_choice() {
    let mut intent = swap_intent();
    intent.prefer_speed = true;
    let quote = solve(&intent, now()).unwrap();
    assert_eq!(quote.estimated_secs, 35);
    intent.chain_out = 1;
    let same_chain = solve(&intent, now()).unwrap();
    assert_eq!(same_chain.best_route.route_type, RouteType::SameChainSwap);
    assert_eq!(same_chain.estimated_secs, 5);
}

#[test]
fn intent_error_cases() {
    let mut intent = bridge_intent();
    intent.min_amount_out = 2_000_000_000_000_000_001u128;
    assert_eq!(solve(&intent, now()).unwrap_err(), IntentError::UnreachableMinOutput);
    let mut same = bridge_intent();
    same.chain_out = same.chain_in;
    assert_eq!(solve(&same, now()).unwrap_err(), IntentError::NoRouteFound);
    let mut greedy = bridge_intent();
    greedy.min_amount_out = 1_000_000_000_000_000_000u128;
    let err = solve(&greedy, now()).unwrap_err();
    assert_eq!(
        err,
        IntentError::BelowMinOutput {
            expected: 999_500_000_000_000_000u128,
            minimum: 1_000_000_000_000_000_000u128
        }
    );
    assert_eq!(err.message(), "expected output 999500000000000000 < minimum 1000000000000000000");
    assert_eq!(bridge_intent().slippage_bps(0), 10_000);
}

#[test]
fn same_chain_swap_is_not_a_direct_transfer() {
    let mut intent = swap_intent();
    intent.chain_out = intent.chain_in;
    assert!(!intent.is_direct_transfer());
}
