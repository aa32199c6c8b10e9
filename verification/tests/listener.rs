use interlink::events::GatewayEvent;
use interlink::listener::{
    decode_log, gateway_topics, on_disconnect, parse_log, EventTopics, ListenerConfig, NonceFilter, RawLog, Reconnect,
};

#[test]
fn test_listener_config() {
    let config = ListenerConfig {
        ws_rpc_url: "ws://localhost:8545".to_string(),
        gateway_address: "0x0000000000000000000000000000000000000000".to_string(),
        chain_id: 1,
        max_reconnect_attempts: 5,
    };
    assert_eq!(config.chain_id, 1);
    assert_eq!(config.max_reconnect_attempts, 5);
}

fn word_u64(v: u64) -> [u8; 32] {
    let mut w = [0u8; 32];
    w[24..32].copy_from_slice(&v.to_be_bytes());
    w
}

fn log_with(topic0: [u8; 32], extra_topics: Vec<[u8; 32]>, data: Vec<u8>) -> RawLog {
    let mut topics = vec![topic0];
    topics.extend(extra_topics);
    RawLog { topics, data, block_number: Some(77), transaction_hash: Some([9u8; 32]) }
}

#[test]
fn gateway_topics_are_signature_hashes() {
    let t = gateway_topics();
    // keccak256("MessagePublished(uint64,uint64,address,bytes32,bytes)") starts with these bytes
    assert_ne!(t.message_published, t.swap_initiated);
    assert_ne!(t.swap_initiated, t.nft_locked);
    assert_ne!(t.message_published, [0u8; 32]);
}

#[test]
fn message_published_decodes_to_deposit() {
    let t = gateway_topics();
    let mut data = Vec::new();
    data.extend_from_slice(&word_u64(900)); // destination chain
    let mut sender_word = [0u8; 32];
    sender_word[12..32].copy_from_slice(&[0x11u8; 20]);
    data.extend_from_slice(&sender_word);
    data.extend_from_slice(&[0x22u8; 32]); // payload hash
    data.extend_from_slice(&word_u64(64)); // payload offset (relative to byte 96)
    data.extend_from_slice(&[0u8; 32]); // padding up to the length word
    data.extend_from_slice(&word_u64(5_000)); // first payload word
    data.extend_from_slice(&[0u8; 32]);
    let log = log_with(t.message_published, vec![word_u64(42)], data);
    match parse_log(&log) {
        Some(GatewayEvent::Deposit(d)) => {
            assert_eq!(d.block_number, 77);
            assert_eq!(d.tx_hash, [9u8; 32]);
            assert_eq!(d.sequence, 42);
            assert_eq!(d.sender, [0x11u8; 20]);
            assert_eq!(d.recipient, vec![0x11u8; 20]);
            assert_eq!(d.destination_chain, 900);
            assert_eq!(d.payload_hash, [0x22u8; 32]);
            assert_eq!(d.amount, 5_000);
        }
        other => panic!("unexpected {:?}", other),
    }
}

#[test]
fn short_data_gives_zero_fields() {
    let t = gateway_topics();
    let log = log_with(t.message_published, vec![word_u64(1)], vec![]);
    match parse_log(&log) {
        Some(GatewayEvent::Deposit(d)) => {
            assert_eq!(d.destination_chain, 0);
            assert_eq!(d.sender, [0u8; 20]);
            assert_eq!(d.amount, 0);
        }
        other => panic!("unexpected {:?}", other),
    }
}

#[test]
fn swap_initiated_decodes_fields_and_tail() {
    let topics = EventTopics { message_published: [1u8; 32], swap_initiated: [2u8; 32], nft_locked: [3u8; 32] };
    let mut data = vec![0u8; 288];
    data[12..32].copy_from_slice(&[0xAAu8; 20]); // recipient
    data[48..64].copy_from_slice(&1_000u128.to_be_bytes()); // amount in
    data[76..96].copy_from_slice(&[0xBBu8; 20]); // token in
    data[108..128].copy_from_slice(&[0xCCu8; 20]); // token out
    data[144..160].copy_from_slice(&990u128.to_be_bytes()); // min out
    data[190..192].copy_from_slice(&900u16.to_be_bytes()); // destination chain
    data[224..256].copy_from_slice(&[0xDDu8; 32]); // payload hash
    data[280..288].copy_from_slice(&3u64.to_be_bytes()); // swap data length
    data.extend_from_slice(&[7, 8, 9]);
    let mut sender_topic = [0u8; 32];
    sender_topic[12..32].copy_from_slice(&[0xEEu8; 20]);
    let log = log_with([2u8; 32], vec![word_u64(8), sender_topic], data);
    match decode_log(&log, &topics) {
        Some(GatewayEvent::Swap(s)) => {
            assert_eq!(s.sequence, 8);
            assert_eq!(s.sender, [0xEEu8; 20]);
            assert_eq!(s.recipient, [0xAAu8; 20]);
            assert_eq!(s.amount_in, 1_000);
            assert_eq!(s.token_in, [0xBBu8; 20]);
            assert_eq!(s.token_out, [0xCCu8; 20]);
            assert_eq!(s.min_amount_out, 990);
            assert_eq!(s.destination_chain, 900);
            assert_eq!(s.payload_hash, [0xDDu8; 32]);
            assert_eq!(s.swap_data, vec![7, 8, 9]);
        }
        other => panic!("unexpected {:?}", other),
    }
}

#[test]
fn nft_locked_decodes() {
    let topics = EventTopics { message_published: [1u8; 32], swap_initiated: [2u8; 32], nft_locked: [3u8; 32] };
    let mut data = vec![0u8; 160];
    data[12..32].copy_from_slice(&[0x10u8; 20]);
    data[32..64].copy_from_slice(&[0x20u8; 32]);
    data[94..96].copy_from_slice(&2u16.to_be_bytes());
    data[96..128].copy_from_slice(&[0x30u8; 32]);
    data[128..160].copy_from_slice(&[0x40u8; 32]);
    let log = log_with([3u8; 32], vec![word_u64(3)], data);
    match decode_log(&log, &topics) {
        Some(GatewayEvent::NFTLock(n)) => {
            assert_eq!(n.sequence, 3);
            assert_eq!(n.sender, [0u8; 20]); // no sender topic
            assert_eq!(n.nft_contract, [0x10u8; 20]);
            assert_eq!(n.token_id, [0x20u8; 32]);
            assert_eq!(n.destination_chain, 2);
            assert_eq!(n.destination_recipient, [0x30u8; 32]);
            assert_eq!(n.nft_hash, [0x40u8; 32]);
        }
        other => panic!("unexpected {:?}", other),
    }
}

#[test]
fn unknown_topic_or_missing_parts_ignored() {
    let topics = EventTopics { message_published: [1u8; 32], swap_initiated: [2u8; 32], nft_locked: [3u8; 32] };
    assert!(decode_log(&log_with([4u8; 32], vec![word_u64(1)], vec![]), &topics).is_none());
    assert!(decode_log(&log_with([1u8; 32], vec![], vec![]), &topics).is_none());
    let mut no_block = log_with([1u8; 32], vec![word_u64(1)], vec![]);
    no_block.block_number = None;
    assert!(decode_log(&no_block, &topics).is_none());
    let empty = RawLog { topics: vec![], data: vec![], block_number: Some(1), transaction_hash: None };
    assert!(decode_log(&empty, &topics).is_none());
}

#[test]
fn nonce_filter_drops_replays() {
    let mut f = NonceFilter::new();
    assert!(f.check_and_record(5));
    assert!(!f.check_and_record(5));
    assert!(f.check_and_record(6));
    assert!(f.contains(5) && !f.contains(7));
}

#[test]
fn reconnect_backoff_doubles_and_caps() {
    assert_eq!(on_disconnect(0, 1_000, 5), Reconnect::Retry { attempts: 1, delay_ms: 1_000, next_backoff_ms: 2_000 });
    assert_eq!(on_disconnect(2, 20_000, 5), Reconnect::Retry { attempts: 3, delay_ms: 20_000, next_backoff_ms: 30_000 });
    assert_eq!(on_disconnect(4, 30_000, 5), Reconnect::GiveUp { attempts: 5 });
}
