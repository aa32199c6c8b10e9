use interlink::bitcoin_spv::BitcoinSpvClient;


#[test]
fn test_spv_merkle() {
    let client = BitcoinSpvClient::new();
    assert!(client.validate_merkle_path([0; 32], &[]));
}

#[test]
fn test_atomic_swap() {
    let client = BitcoinSpvClient::new();
    assert!(client.execute_atomic_swap([0; 32], [0; 20]));
}
