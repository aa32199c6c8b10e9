use base64::Engine;
use ed25519_dalek::Verifier;
use interlink::network::NetworkClient;
use interlink::relayer::{
    blockhash_from_response, decode_blockhash, encode_transaction, keypair_bytes, hub_rejected, next_watch_backoff, prepare_hub_submission, prover_commitment,
    registry_pda, Relayer, RelayerConfig, SUBMIT_PROOF_SIGHASH,
};
use interlink::types::InterlinkError;
use sha2::Digest;

fn blockhash_b64() -> String {
    base64::engine::general_purpose::STANDARD.encode([7u8; 32])
}

fn blockhash() -> Vec<u8> {
    decode_blockhash(&blockhash_b64()).unwrap()
}

#[test]
fn relayer_submission_layout_and_signature() {
    let key = [3u8; 64];
    let proof = vec![9u8; 10];
    let payload = [0u8; 32];
    let program = "11111111111111111111111111111111";
    let sub = prepare_hub_submission(&blockhash(), &key, program, 5, &payload, &proof).unwrap();

    let signing = ed25519_dalek::SigningKey::from_bytes(&[3u8; 32]);
    assert_eq!(sub.public_key, signing.verifying_key().to_bytes());
    let sig = ed25519_dalek::Signature::from_bytes(&sub.signature);
    assert!(signing.verifying_key().verify(&sub.message, &sig).is_ok());

    // Program id decodes to 32 zero bytes; the blockhash to 32 sevens.
    let msg = &sub.message;
    assert_eq!(&msg[0..4], &[1, 0, 1, 3]);
    assert_eq!(&msg[4..36], &sub.public_key);
    assert_eq!(&msg[36..68], &sub.registry);
    assert_eq!(&msg[68..100], &[0u8; 32]);
    assert_eq!(&msg[100..132], &[7u8; 32]);
    assert_eq!(&msg[132..137], &[1, 2, 2, 1, 0]);
    let ix_len = u16::from_le_bytes([msg[137], msg[138]]) as usize;
    let ix = &msg[139..];
    assert_eq!(ix.len(), ix_len);
    assert_eq!(&ix[0..8], &SUBMIT_PROOF_SIGHASH);
    assert_eq!(&ix[8..16], &1u64.to_le_bytes());
    assert_eq!(&ix[16..24], &5u64.to_le_bytes());
    assert_eq!(&ix[24..28], &10u32.to_le_bytes());
    assert_eq!(&ix[28..38], &proof[..]);
    assert_eq!(&ix[38..70], &payload);
    assert_eq!(&ix[70..102], &sub.commitment);
    assert_eq!(sub.transaction[0], 1);
    assert_eq!(&sub.transaction[1..65], &sub.signature);
    assert_eq!(&sub.transaction[65..], &sub.message[..]);
    let encoded = encode_transaction(&sub.transaction);
    assert_eq!(base64::engine::general_purpose::STANDARD.decode(encoded).unwrap(), sub.transaction);
}

#[test]
fn relayer_registry_pda_is_sha256_of_seed() {
    let program = [4u8; 32];
    let mut h = sha2::Sha256::new();
    h.update(b"state");
    h.update([255u8]);
    h.update(program);
    h.update(b"ProgramDerivedAddress");
    let expected: [u8; 32] = h.finalize().into();
    assert_eq!(registry_pda(&program), expected);
}

#[test]
fn relayer_commitment_small_payload() {
    // payload 2 (little-endian): (2 + 0x1337)^3 + 5 mod r, which fits in 64 bits.
    let mut payload = [0u8; 32];
    payload[0] = 2;
    let c = prover_commitment(&payload, 5);
    let d: u128 = 2 + 0x1337;
    let expected = d * d * d + 5;
    assert_eq!(&c[0..16], &expected.to_le_bytes());
    assert_eq!(&c[16..32], &[0u8; 16]);
}

#[test]
fn relayer_submission_errors() {
    let err = decode_blockhash("!!!").unwrap_err();
    assert!(matches!(err, InterlinkError::NetworkError(_)));
    assert_eq!(blockhash(), vec![7u8; 32]);
    let err = prepare_hub_submission(&blockhash(), &[0u8; 64], "0OIl", 0, &[0u8; 32], &[]).unwrap_err();
    match err {
        InterlinkError::NetworkError(m) => assert_eq!(m, "Invalid program id"),
        _ => panic!("expected a network error"),
    }
}

#[test]
fn relayer_hub_response_and_backoff() {
    assert!(hub_rejected("{\"error\":{\"code\":-32002}}"));
    assert!(!hub_rejected("{\"result\":\"5abc\"}"));
    assert!(!hub_rejected("err"));
    assert_eq!(next_watch_backoff(1), 2);
    assert_eq!(next_watch_backoff(16), 30);
    assert_eq!(next_watch_backoff(30), 30);
}

#[test]
fn relayer_config_and_client() {
    let cfg = RelayerConfig {
        chain_id: 1,
        rpc_url: "ws://localhost:8545".to_string(),
        hub_url: "https://api.devnet.solana.com".to_string(),
        gateway_address: "0x0".to_string(),
        solana_program_id: "Hub1".to_string(),
        keypair_path: "~/.config/solana/id.json".to_string(),
    };
    let r = Relayer::new(cfg);
    assert_eq!(r.config_ref().chain_id, 1);
    assert_eq!(NetworkClient::new("http://x".to_string()).url, "http://x");
}

#[test]
fn keypair_file_is_a_json_byte_array() {
    assert_eq!(keypair_bytes(b" [1, 2, 255] ").unwrap(), vec![1u8, 2, 255]);
    for bad in [&b"not json"[..], &b"[1, 300]"[..], &b"{\"key\": [1]}"[..]] {
        match keypair_bytes(bad) {
            Err(InterlinkError::NetworkError(m)) => assert_eq!(m, "Invalid key format"),
            other => panic!("expected a key format error, got {:?}", other),
        }
    }
}

#[test]
fn blockhash_read_from_rpc_answer() {
    let body = br#"{"jsonrpc":"2.0","result":{"context":{"slot":1},"value":{"blockhash":"AQID","lastValidBlockHeight":5}},"id":1}"#;
    assert_eq!(blockhash_from_response(body).unwrap(), vec![1u8, 2, 3]);
    for bad in [
        &br#"{"jsonrpc":"2.0","error":{"code":-32000,"message":"down"},"id":1}"#[..],
        &br#"{"result":{"value":{"blockhash":7}}}"#[..],
        &b"<html>bad gateway</html>"[..],
    ] {
        match blockhash_from_response(bad) {
            Err(InterlinkError::NetworkError(m)) => assert_eq!(m, "Failed to fetch blockhash"),
            other => panic!("expected a fetch error, got {:?}", other),
        }
    }
    match blockhash_from_response(br#"{"result":{"value":{"blockhash":"!!"}}}"#) {
        Err(InterlinkError::NetworkError(m)) => assert_ne!(m, "Failed to fetch blockhash"),
        other => panic!("expected a decoding error, got {:?}", other),
    }
}
