use interlink::defi_integration::DefiIntegration;


#[test]
fn test_defi() {
    let defi = DefiIntegration;
    assert!(defi.execute_aave_cross_chain_loop());
    assert!(defi.atomic_uniswap_bridge_swap(&["USDC", "ETH"]));
    assert!(defi.bridge_ctokens(5000));
}
