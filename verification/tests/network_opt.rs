use interlink::network_opt::NetworkOptimizer;

#[test]
fn test_network_routing() {
    let opt = NetworkOptimizer::new();
    let (ws, quic) = opt.compare_websocket_vs_quic();
    assert!(quic < ws);
    assert!(opt.p2p_broadcast_proof(&[0; 32]));
}
