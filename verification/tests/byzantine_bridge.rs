use interlink::byzantine_bridge::{ByzantineBridge, PrivacyBridging};

#[test]
fn test_byzantine() {
    assert!(ByzantineBridge::verify_byzantine_safety(10, 3));
    assert!(!ByzantineBridge::verify_byzantine_safety(10, 4));
}

#[test]
fn test_privacy() {
    assert_eq!(PrivacyBridging::encode_anonymous_tx(100).len(), 33);
    assert!(PrivacyBridging::satisfy_regulatory_implications());
}
