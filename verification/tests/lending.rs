use interlink::lending::LendingProtocol;


#[test]
fn test_pledge_collateral() {
    let lending = LendingProtocol {
        allow_staked_tokens: true,
    };
    assert!(lending.pledge_collateral("aave", 500));
}

