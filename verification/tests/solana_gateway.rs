use interlink::solana_gateway::{
    buy_back_and_burn, initialize, pairing_input, submit_proof, HubError, NEG_G2_GEN,
};

#[test]
fn gateway_accepts_increasing_sequences_only() {
    let mut reg = initialize([1u8; 32], 30);
    assert_eq!(reg.processed_sequences, 0);
    let proof = vec![7u8; 256];
    let ev = submit_proof(&mut reg, [2u8; 32], 5, &proof, [3u8; 32], true).unwrap();
    assert_eq!(ev.sequence, 5);
    assert_eq!(reg.processed_sequences, 5);
    // Replay and older sequences are refused.
    assert_eq!(submit_proof(&mut reg, [2u8; 32], 5, &proof, [3u8; 32], true), Err(HubError::SequenceAlreadyProcessed));
    assert_eq!(submit_proof(&mut reg, [2u8; 32], 4, &proof, [3u8; 32], true), Err(HubError::SequenceAlreadyProcessed));
    // Gaps are allowed.
    assert!(submit_proof(&mut reg, [2u8; 32], 9, &proof, [3u8; 32], true).is_ok());
    assert_eq!(reg.processed_sequences, 9);
}

#[test]
fn gateway_refuses_bad_proofs_without_change() {
    let mut reg = initialize([1u8; 32], 30);
    assert_eq!(submit_proof(&mut reg, [2u8; 32], 1, &[0u8; 100], [3u8; 32], true), Err(HubError::InvalidProof));
    assert_eq!(submit_proof(&mut reg, [2u8; 32], 1, &[0u8; 256], [3u8; 32], false), Err(HubError::InvalidProof));
    assert_eq!(reg.processed_sequences, 0);
    assert_eq!(HubError::InvalidProof.message(), "Invalid ZK proof: BN254 pairing check failed.");
}

#[test]
fn gateway_pairing_input_appends_negated_generator() {
    let proof: Vec<u8> = (0..256).map(|i| i as u8).collect();
    let input = pairing_input(&proof).unwrap();
    assert_eq!(input.len(), 384);
    assert_eq!(&input[..256], &proof[..]);
    assert_eq!(&input[256..], &NEG_G2_GEN[..]);
    assert!(pairing_input(&proof[..255]).is_none());
}

#[test]
fn gateway_burns_forty_percent() {
    assert_eq!(buy_back_and_burn(1_000).amount, 400);
    assert_eq!(buy_back_and_burn(7).amount, 2);
    assert_eq!(buy_back_and_burn(u64::MAX).amount, ((u64::MAX as u128) * 40 / 100) as u64);
}
