use interlink::nft_bridge::{BridgeState, NftAttribute, NftBridgeError, NftBridgeRegistry, NftId, NftMetadata, LOCK_TIMEOUT_SECS, MAX_ATTRIBUTES};


fn sample_metadata() -> NftMetadata {
    NftMetadata {
        name: "CryptoPunk #1234".into(),
        description: "A rare punk".into(),
        image_uri: "ipfs://QmXyz123abc".into(),
        animation_uri: None,
        external_url: Some("https://cryptopunks.app/1234".into()),
        attributes: vec![
            NftAttribute { trait_type: "Background".into(), value: "Blue".into(), display_type: None },
            NftAttribute { trait_type: "Eyes".into(), value: "Laser".into(), display_type: None },
        ],
        royalty_recipient: Some("0xCreator".into()),
        royalty_bps: Some(500), // 5%
    }
}

fn sample_nft_id() -> NftId {
    NftId::new(1, "0xCryptoPunks", "1234")
}

#[test]
fn test_lock_nft() {
    let mut reg = NftBridgeRegistry::new();
    let id = reg.lock_nft(sample_nft_id(), sample_metadata(), 900, "0xAlice", "SolBob", 1000).unwrap();
    assert!(id.starts_with("nft_tx_"));
    let transfer = reg.get_transfer(&id).unwrap();
    assert_eq!(transfer.state, BridgeState::Locked);
    assert_eq!(transfer.source_chain, 1);
    assert_eq!(transfer.dest_chain, 900);
}

#[test]
fn test_double_lock_rejected() {
    let mut reg = NftBridgeRegistry::new();
    reg.lock_nft(sample_nft_id(), sample_metadata(), 900, "0xAlice", "SolBob", 1000).unwrap();
    let result = reg.lock_nft(sample_nft_id(), sample_metadata(), 900, "0xAlice", "SolBob", 1001);
    assert_eq!(result.unwrap_err(), NftBridgeError::AlreadyLocked);
}

#[test]
fn test_full_bridge_lifecycle() {
    let mut reg = NftBridgeRegistry::new();
    let id = reg.lock_nft(sample_nft_id(), sample_metadata(), 900, "0xAlice", "SolBob", 1000).unwrap();

    reg.mark_proof_generated(&id).unwrap();
    assert_eq!(reg.get_transfer(&id).unwrap().state, BridgeState::ProofGenerated);

    reg.mark_minted(&id, "WrappedPunksSOL", "1234").unwrap();
    let t = reg.get_transfer(&id).unwrap();
    assert_eq!(t.state, BridgeState::Complete);
    assert_eq!(t.wrapped_contract.as_deref(), Some("WrappedPunksSOL"));
}

#[test]
fn test_return_journey() {
    let mut reg = NftBridgeRegistry::new();
    let id = reg.lock_nft(sample_nft_id(), sample_metadata(), 900, "0xAlice", "SolBob", 1000).unwrap();
    reg.mark_proof_generated(&id).unwrap();
    reg.mark_minted(&id, "Wrapped", "1234").unwrap();
    reg.process_return(&id).unwrap();
    assert_eq!(reg.get_transfer(&id).unwrap().state, BridgeState::Returned);
}

#[test]
fn nft_bridge_test_invalid_state_transitions() {
    let mut reg = NftBridgeRegistry::new();
    let id = reg.lock_nft(sample_nft_id(), sample_metadata(), 900, "0xAlice", "SolBob", 1000).unwrap();
    // Can't mint before proof
    assert_eq!(reg.mark_minted(&id, "W", "1"), Err(NftBridgeError::InvalidStateTransition));
    // Can't return before complete
    assert_eq!(reg.process_return(&id), Err(NftBridgeError::InvalidStateTransition));
}

#[test]
fn test_expire_stale_locks() {
    let mut reg = NftBridgeRegistry::new();
    let id = reg.lock_nft(sample_nft_id(), sample_metadata(), 900, "0xAlice", "SolBob", 1000).unwrap();
    // Not expired yet
    let expired = reg.expire_stale_locks(1000 + LOCK_TIMEOUT_SECS - 1);
    assert!(expired.is_empty());
    // Now expired
    let expired = reg.expire_stale_locks(1000 + LOCK_TIMEOUT_SECS);
    assert_eq!(expired, vec![id.clone()]);
    assert_eq!(reg.get_transfer(&id).unwrap().state, BridgeState::Expired);
}

#[test]
fn test_relock_after_expiry() {
    let mut reg = NftBridgeRegistry::new();
    reg.lock_nft(sample_nft_id(), sample_metadata(), 900, "0xAlice", "SolBob", 1000).unwrap();
    reg.expire_stale_locks(1000 + LOCK_TIMEOUT_SECS);
    // Can re-lock after expiry
    let id2 = reg.lock_nft(sample_nft_id(), sample_metadata(), 900, "0xAlice", "SolBob", 200_000).unwrap();
    assert_eq!(reg.get_transfer(&id2).unwrap().state, BridgeState::Locked);
}

#[test]
fn test_metadata_preserved() {
    let mut reg = NftBridgeRegistry::new();
    let meta = sample_metadata();
    let id = reg.lock_nft(sample_nft_id(), meta.clone(), 900, "0xAlice", "SolBob", 1000).unwrap();
    let t = reg.get_transfer(&id).unwrap();
    assert_eq!(t.metadata.name, "CryptoPunk #1234");
    assert_eq!(t.metadata.attributes.len(), 2);
    assert_eq!(t.metadata.royalty_bps, Some(500));
    assert_eq!(t.metadata.image_uri, "ipfs://QmXyz123abc");
}

#[test]
fn test_invalid_metadata_empty_name() {
    let mut reg = NftBridgeRegistry::new();
    let mut meta = sample_metadata();
    meta.name = String::new();
    let result = reg.lock_nft(sample_nft_id(), meta, 900, "A", "B", 1000);
    assert!(matches!(result, Err(NftBridgeError::InvalidMetadata(_))));
}

#[test]
fn test_invalid_metadata_royalty_too_high() {
    let mut reg = NftBridgeRegistry::new();
    let mut meta = sample_metadata();
    meta.royalty_bps = Some(6000); // 60% > max 50%
    let result = reg.lock_nft(sample_nft_id(), meta, 900, "A", "B", 1000);
    assert!(matches!(result, Err(NftBridgeError::InvalidMetadata(_))));
}

#[test]
fn test_too_many_attributes() {
    let mut reg = NftBridgeRegistry::new();
    let mut meta = sample_metadata();
    meta.attributes = (0..MAX_ATTRIBUTES + 1)
        .map(|i| NftAttribute { trait_type: format!("t{i}"), value: "v".into(), display_type: None })
        .collect();
    let result = reg.lock_nft(sample_nft_id(), meta, 900, "A", "B", 1000);
    assert!(matches!(result, Err(NftBridgeError::InvalidMetadata(_))));
}

#[test]
fn test_wrapped_contract_registry() {
    let mut reg = NftBridgeRegistry::new();
    reg.register_wrapped_contract(1, "0xPunks", 900, "WrappedPunksSOL");
    reg.register_wrapped_contract(1, "0xPunks", 10, "WrappedPunksOP");
    assert_eq!(reg.get_wrapped_contract(1, "0xPunks", 900).unwrap(), "WrappedPunksSOL");
    assert_eq!(reg.get_wrapped_contract(1, "0xPunks", 10).unwrap(), "WrappedPunksOP");
    assert!(reg.get_wrapped_contract(1, "0xPunks", 42161).is_none());
}

#[test]
fn nft_bridge_test_get_by_sender() {
    let mut reg = NftBridgeRegistry::new();
    reg.lock_nft(NftId::new(1, "0xA", "1"), sample_metadata(), 900, "0xAlice", "B", 1000).unwrap();
    reg.lock_nft(NftId::new(1, "0xA", "2"), sample_metadata(), 900, "0xAlice", "B", 1001).unwrap();
    reg.lock_nft(NftId::new(1, "0xB", "1"), sample_metadata(), 900, "0xBob", "C", 1002).unwrap();
    assert_eq!(reg.get_by_sender("0xAlice").len(), 2);
    assert_eq!(reg.get_by_sender("0xBob").len(), 1);
}

#[test]
fn test_nft_id_canonical_key() {
    let id = NftId::new(1, "0xABC", "42");
    assert_eq!(id.canonical_key(), "1:0xABC:42");
}

#[test]
fn nft_bridge_test_stats_json() {
    let mut reg = NftBridgeRegistry::new();
    reg.lock_nft(sample_nft_id(), sample_metadata(), 900, "A", "B", 1000).unwrap();
    let c = reg.stats_counts();
    assert_eq!(c.0, 1);
    assert_eq!(c.1, 1);
}

#[test]
fn metadata_error_messages() {
    let mut reg = NftBridgeRegistry::new();
    let mut meta = sample_metadata();
    meta.royalty_bps = Some(6000);
    let r = reg.lock_nft(sample_nft_id(), meta, 900, "A", "B", 1000);
    assert_eq!(r, Err(NftBridgeError::InvalidMetadata("royalty 6000bps exceeds max 5000bps".to_string())));
    let mut meta = sample_metadata();
    meta.name = String::new();
    let r = reg.lock_nft(sample_nft_id(), meta, 900, "A", "B", 1000);
    assert_eq!(r, Err(NftBridgeError::InvalidMetadata("name is empty".to_string())));
    let mut meta = sample_metadata();
    meta.description = "x".repeat(70_000);
    let r = reg.lock_nft(sample_nft_id(), meta, 900, "A", "B", 1000);
    let size = 16 + 70_000 + 18 + (10 + 4) + (4 + 5);
    assert_eq!(r, Err(NftBridgeError::MetadataTooLarge { size, max: 65_536 }));
    assert_eq!(reg.total_transfers(), 0);
}

#[test]
fn relock_while_in_flight_rejected_after_proof() {
    let mut reg = NftBridgeRegistry::new();
    let id = reg.lock_nft(sample_nft_id(), sample_metadata(), 900, "A", "B", 1000).unwrap();
    reg.mark_proof_generated(&id).unwrap();
    assert_eq!(reg.lock_nft(sample_nft_id(), sample_metadata(), 900, "A", "B", 1001), Err(NftBridgeError::AlreadyLocked));
    reg.mark_minted(&id, "W", "1").unwrap();
    // complete transfers free the NFT for a new lock
    let id2 = reg.lock_nft(sample_nft_id(), sample_metadata(), 10, "A", "B", 1002).unwrap();
    assert_eq!(id, "nft_tx_0");
    assert_eq!(id2, "nft_tx_1");
}

#[test]
fn unknown_transfer_errors() {
    let mut reg = NftBridgeRegistry::new();
    assert_eq!(reg.mark_proof_generated("nft_tx_0"), Err(NftBridgeError::TransferNotFound));
    assert_eq!(reg.process_return("nft_tx_0"), Err(NftBridgeError::TransferNotFound));
    assert!(reg.get_transfer("nft_tx_0").is_none());
    assert!(reg.get_by_sender("A").is_empty());
}

#[test]
fn wrapped_contract_overwrite_and_count() {
    let mut reg = NftBridgeRegistry::new();
    reg.register_wrapped_contract(1, "0xPunks", 900, "Old");
    reg.register_wrapped_contract(1, "0xPunks", 900, "New");
    reg.register_wrapped_contract(2, "0xPunks", 900, "Other");
    assert_eq!(reg.get_wrapped_contract(1, "0xPunks", 900).unwrap(), "New");
    assert_eq!(reg.stats_counts().5, 2);
}

#[test]
fn nft_bridge_stats_as_json_text() {
    let mut reg = NftBridgeRegistry::new();
    reg.lock_nft(sample_nft_id(), sample_metadata(), 900, "A", "B", 1000).unwrap();
    assert_eq!(
        reg.stats_json(),
        "{\"complete\":0,\"currently_locked\":1,\"expired\":0,\"returned\":0,\"total_transfers\":1,\"wrapped_contracts\":0}"
    );
}
