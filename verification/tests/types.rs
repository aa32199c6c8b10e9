use interlink::types::{ActionType, Chain, CrossChainMessage, InterLinkPayload, Message};


#[test]
fn test_chain_roundtrip() {
    for chain in [Chain::Ethereum, Chain::Solana, Chain::Arbitrum, Chain::Cosmos] {
        assert_eq!(Chain::from_id(chain.id()), Some(chain));
    }
    assert_eq!(Chain::from_id(99), None);
}

#[test]
fn test_payload_encode() {
    let payload = InterLinkPayload::new(
        ActionType::Transfer,
        vec![0xAA; 20],
        vec![0xBB; 32],
        vec![1, 2, 3, 4],
        1000,
    );
    let encoded = payload.encode();
    assert_eq!(encoded[0], 1); // version
    assert_eq!(encoded[1], 0); // Transfer action
    assert!(encoded.len() > 60);
}

#[test]
fn test_cross_chain_message_trait() {
    let msg = CrossChainMessage {
        sequence: 42,
        source_chain: Chain::Ethereum,
        dest_chain: Chain::Solana,
        payload: InterLinkPayload::new(
            ActionType::Transfer,
            vec![],
            vec![],
            vec![0xDE, 0xAD],
            0,
        ),
        proof: None,
    };
    assert_eq!(msg.source_chain(), 1);
    assert_eq!(msg.dest_chain(), 2);
    assert_eq!(msg.payload(), &[0xDE, 0xAD]);
}
