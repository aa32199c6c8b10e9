use interlink::finality::{is_ws_url, parse_block_number_hex, reported_height, stream_ended_message, ChainFinality, FinalityWait};

#[test]
fn test_chain_finality_configs() {
    assert_eq!(ChainFinality::Ethereum.required_confirmations(), 64);
    assert_eq!(ChainFinality::Solana.required_confirmations(), 1);
    assert_eq!(ChainFinality::Cosmos.required_confirmations(), 1);
}

#[test]
fn test_from_chain_id() {
    assert!(matches!(ChainFinality::from_chain_id(1), ChainFinality::Ethereum));
    assert!(matches!(ChainFinality::from_chain_id(2), ChainFinality::Solana));
    assert!(matches!(ChainFinality::from_chain_id(3), ChainFinality::OptimisticRollup));
}

#[test]
fn test_ws_fallback_for_http_url() {
    let http_url = "http://localhost:8545";
    let ws_url = "ws://localhost:8545";
    let wss_url = "wss://mainnet.infura.io/ws/v3/abc";
    assert!(!is_ws_url(http_url));
    assert!(is_ws_url(ws_url));
    assert!(is_ws_url(wss_url));
}

#[test]
fn finality_unknown_chain_is_ethereum() {
    assert_eq!(ChainFinality::from_chain_id(999), ChainFinality::Ethereum);
    assert_eq!(ChainFinality::from_chain_id(5), ChainFinality::Cosmos);
    assert_eq!(ChainFinality::OptimisticRollup.expected_finality_secs(), 20);
    assert_eq!(ChainFinality::Solana.rpc_method(), "getSlot");
    assert_eq!(ChainFinality::Cosmos.rpc_method(), "eth_blockNumber");
}

#[test]
fn finality_parse_hex_heights() {
    assert_eq!(parse_block_number_hex("0x10"), Some(16));
    assert_eq!(parse_block_number_hex("0x0x1f"), Some(31));
    assert_eq!(parse_block_number_hex("ff"), Some(255));
    assert_eq!(parse_block_number_hex("0x+A"), Some(10));
    assert_eq!(parse_block_number_hex("0x"), None);
    assert_eq!(parse_block_number_hex("0xzz"), None);
    assert_eq!(parse_block_number_hex("0xffffffffffffffff"), Some(u64::MAX));
    assert_eq!(parse_block_number_hex("0x10000000000000000"), None);
}

#[test]
fn finality_wait_decisions() {
    let w = FinalityWait::http(1, 1_000);
    assert_eq!(w.required, 64);
    assert_eq!(w.timeout_secs, 1_536);
    assert_eq!(w.poll_secs, 12);
    assert!(!w.is_final_at(1_063));
    assert!(w.is_final_at(1_064));
    assert!(!w.is_final_at(5));
    assert!(!w.timed_out(1_536_000_000_000));
    assert!(w.timed_out(1_536_000_000_001));
    assert_eq!(w.timeout_message(), "timed out waiting for finality on chain 1 block 1000");
    let ws = FinalityWait::ws(2, 7);
    assert_eq!(ws.timeout_secs, 122);
    assert_eq!(stream_ended_message(), "WebSocket newHeads stream ended before finality was reached");
}

#[test]
fn height_read_from_rpc_answer() {
    assert_eq!(reported_height(ChainFinality::Solana, br#"{"jsonrpc":"2.0","result":12345,"id":1}"#), Ok(Some(12345)));
    assert_eq!(reported_height(ChainFinality::Solana, br#"{"result":"0x10"}"#), Ok(None));
    assert_eq!(reported_height(ChainFinality::Ethereum, br#"{"jsonrpc":"2.0","result":"0x1b4","id":1}"#), Ok(Some(436)));
    assert_eq!(reported_height(ChainFinality::Ethereum, br#"{"result":436}"#), Ok(None));
    assert_eq!(reported_height(ChainFinality::Cosmos, br#"{"error":"x"}"#), Ok(None));
    assert!(reported_height(ChainFinality::Ethereum, b"not json").is_err());
}
