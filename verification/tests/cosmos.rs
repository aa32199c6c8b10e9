use interlink::cosmos::CosmosGateway;


#[test]
fn test_cosmos_consensus() {
    let cg = CosmosGateway::new("cosmoshub-4");
    assert!(cg.validate_consensus_proof(&[0x1, 0x2, 0x3]));
}

#[test]
fn test_ibc_ordering() {
    let cg = CosmosGateway::new("osmosis-1");
    assert!(cg.test_ibc_ordering(1, 2));
    assert!(!cg.test_ibc_ordering(3, 2));
}
