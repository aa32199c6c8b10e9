use sha2::Digest;
use interlink::multisig::{add_signature, compute_commitment, create_bundle, deserialize_bundle, serialize_bundle, verify_bundle, MultiSigError, ValidatorId, ValidatorSet, WORMHOLE_THRESHOLD, WORMHOLE_VALIDATOR_COUNT};


fn dummy_sig(val: u8) -> [u8; 64] {
    let mut s = [0u8; 64];
    s[0] = val;
    s
}

fn dummy_program_id() -> [u8; 32] {
    let mut id = [0u8; 32];
    id[0] = 0xAB;
    id
}

#[test]
fn test_default_3_of_5_set() {
    let set = ValidatorSet::default_3_of_5();
    assert_eq!(set.n(), 5);
    assert_eq!(set.threshold, 3);
    assert_eq!(set.fault_tolerance(), 2);
}

#[test]
fn test_invalid_threshold_too_low() {
    let validators: Vec<ValidatorId> = (0..5)
        .map(|i| ValidatorId::new([i as u8; 32], i, &format!("v{i}")))
        .collect();
    // 2-of-5 = 40% < 50% → should fail
    let err = ValidatorSet::new(validators, 2).unwrap_err();
    assert!(matches!(err, MultiSigError::ThresholdTooLow { .. }));
}

#[test]
fn test_valid_3_of_5_threshold() {
    let validators: Vec<ValidatorId> = (0..5)
        .map(|i| ValidatorId::new([i as u8; 32], i, &format!("v{i}")))
        .collect();
    // 3-of-5 = 60% > 50% → valid
    assert!(ValidatorSet::new(validators, 3).is_ok());
}

#[test]
fn test_bundle_creation_and_signing() {
    let set = ValidatorSet::default_3_of_5();
    let proof = vec![0xAA; 256];
    let program_id = dummy_program_id();

    let mut bundle = create_bundle(&proof, 1, 1, &program_id, &set);
    assert!(!bundle.is_valid()); // 0 signatures

    add_signature(&mut bundle, 0, dummy_sig(1), &set, 1_000_000).unwrap();
    add_signature(&mut bundle, 1, dummy_sig(2), &set, 1_000_001).unwrap();
    add_signature(&mut bundle, 2, dummy_sig(3), &set, 1_000_002).unwrap();

    assert!(bundle.is_valid()); // 3 of 3 required
    assert_eq!(bundle.participation_bps(), 6_000); // 3/5 = 60%
    assert_eq!(bundle.signers(), vec![0, 1, 2]);
}

#[test]
fn test_duplicate_validator_rejected() {
    let set = ValidatorSet::default_3_of_5();
    let proof = vec![0xAA; 256];
    let program_id = dummy_program_id();
    let mut bundle = create_bundle(&proof, 1, 1, &program_id, &set);

    add_signature(&mut bundle, 0, dummy_sig(1), &set, 0).unwrap();
    let err = add_signature(&mut bundle, 0, dummy_sig(2), &set, 0).unwrap_err();
    assert!(matches!(err, MultiSigError::DuplicateValidator { index: 0 }));
}

#[test]
fn test_unknown_validator_rejected() {
    let set = ValidatorSet::default_3_of_5();
    let proof = vec![0xAA; 256];
    let program_id = dummy_program_id();
    let mut bundle = create_bundle(&proof, 1, 1, &program_id, &set);

    let err = add_signature(&mut bundle, 99, dummy_sig(1), &set, 0).unwrap_err();
    assert!(matches!(err, MultiSigError::UnknownValidator { index: 99 }));
}

#[test]
fn test_verify_bundle_insufficient() {
    let set = ValidatorSet::default_3_of_5();
    let proof = vec![0xAA; 256];
    let program_id = dummy_program_id();
    let mut bundle = create_bundle(&proof, 1, 1, &program_id, &set);

    add_signature(&mut bundle, 0, dummy_sig(1), &set, 0).unwrap();
    add_signature(&mut bundle, 1, dummy_sig(2), &set, 0).unwrap();
    // Only 2 sigs, need 3
    let err = verify_bundle(&bundle, &set).unwrap_err();
    assert!(matches!(
        err,
        MultiSigError::InsufficientSignatures { got: 2, need: 3 }
    ));
}

#[test]
fn test_verify_bundle_success() {
    let set = ValidatorSet::default_3_of_5();
    let proof = vec![0xAA; 256];
    let program_id = dummy_program_id();
    let mut bundle = create_bundle(&proof, 1, 1, &program_id, &set);

    for i in 0..3 {
        add_signature(&mut bundle, i, dummy_sig(i as u8 + 1), &set, 0).unwrap();
    }
    assert!(verify_bundle(&bundle, &set).is_ok());
}

#[test]
fn test_serialize_deserialize_roundtrip() {
    let set = ValidatorSet::default_3_of_5();
    let proof = vec![0xAA; 256];
    let program_id = dummy_program_id();
    let mut bundle = create_bundle(&proof, 42, 1, &program_id, &set);

    for i in 0..3 {
        add_signature(&mut bundle, i, dummy_sig(i as u8 + 10), &set, 0).unwrap();
    }

    let bytes = serialize_bundle(&bundle);
    let restored = deserialize_bundle(&bytes, set.n(), 42, 1).unwrap();

    assert_eq!(restored.commitment, bundle.commitment);
    assert_eq!(restored.threshold, 3);
    assert_eq!(restored.signatures.len(), 3);
    assert_eq!(restored.sequence, 42);
}

#[test]
fn test_commitment_deterministic() {
    let proof = vec![0xFF; 256];
    let program_id = dummy_program_id();
    let c1 = compute_commitment(&proof, 5, 1, &program_id);
    let c2 = compute_commitment(&proof, 5, 1, &program_id);
    assert_eq!(c1, c2);
}

#[test]
fn test_commitment_differs_on_sequence() {
    let proof = vec![0xFF; 256];
    let program_id = dummy_program_id();
    let c1 = compute_commitment(&proof, 5, 1, &program_id);
    let c2 = compute_commitment(&proof, 6, 1, &program_id);
    assert_ne!(c1, c2);
}

#[test]
fn test_wormhole_comparison() {
    // InterLink 3-of-5 has fault tolerance of 2
    let set = ValidatorSet::default_3_of_5();
    assert_eq!(set.fault_tolerance(), 2);

    // Wormhole 13-of-19 has fault tolerance of 6
    let wormhole_tolerance = WORMHOLE_VALIDATOR_COUNT - WORMHOLE_THRESHOLD;
    assert_eq!(wormhole_tolerance, 6);

    // At launch, InterLink has lower fault tolerance but is still BFT for small validator sets
    assert!(set.fault_tolerance() > 0, "must tolerate at least 1 failure");
}

#[test]
fn error_messages() {
    assert_eq!(MultiSigError::InsufficientSignatures { got: 2, need: 3 }.message(), "insufficient signatures: got 2, need 3");
    assert_eq!(MultiSigError::ThresholdTooLow { threshold_bps: 4000, min_bps: 5001 }.message(), "threshold 4000 bps below minimum 5001 bps (must be >50%)");
    assert_eq!(MultiSigError::EmptyValidatorSet.message(), "validator set is empty");
}

#[test]
fn validator_set_errors() {
    assert_eq!(ValidatorSet::new(vec![], 1).unwrap_err(), MultiSigError::EmptyValidatorSet);
    let vs: Vec<ValidatorId> = (0..51).map(|i| ValidatorId::new([0u8; 32], i, "v")).collect();
    assert_eq!(ValidatorSet::new(vs, 30).unwrap_err(), MultiSigError::TooManyValidators { count: 51, max: 50 });
    let vs: Vec<ValidatorId> = (0..4).map(|i| ValidatorId::new([0u8; 32], i, "v")).collect();
    assert_eq!(ValidatorSet::new(vs.clone(), 5).unwrap_err(), MultiSigError::InvalidThreshold { threshold: 5, n: 4 });
    assert_eq!(ValidatorSet::new(vs, 2).unwrap_err(), MultiSigError::ThresholdTooLow { threshold_bps: 5000, min_bps: 5001 });
}

#[test]
fn serialized_layout_is_exact() {
    let set = ValidatorSet::default_3_of_5();
    let mut bundle = create_bundle(&[1, 2, 3], 7, 1, &[0u8; 32], &set);
    add_signature(&mut bundle, 4, [9u8; 64], &set, 5).unwrap();
    let bytes = serialize_bundle(&bundle);
    assert_eq!(bytes.len(), 34 + 65);
    assert_eq!(bytes[0], 3);
    assert_eq!(bytes[1], 1);
    assert_eq!(&bytes[2..34], &bundle.commitment[..]);
    assert_eq!(bytes[34], 4);
    assert_eq!(&bytes[35..99], &[9u8; 64][..]);
}

#[test]
fn deserialize_rejects_bad_input() {
    assert_eq!(deserialize_bundle(&[0u8; 10], 5, 0, 0).unwrap_err(), MultiSigError::InvalidSignatureLength { got: 10 });
    let mut bytes = vec![3u8, 2];
    bytes.extend_from_slice(&[0u8; 32]);
    bytes.extend_from_slice(&[0u8; 65]);
    assert_eq!(deserialize_bundle(&bytes, 5, 0, 0).unwrap_err(), MultiSigError::InvalidSignatureLength { got: 99 });
    bytes.push(7);
    bytes.extend_from_slice(&[0u8; 64]);
    assert_eq!(deserialize_bundle(&bytes, 5, 0, 0).unwrap_err(), MultiSigError::UnknownValidator { index: 7 });
}

#[test]
fn verify_bundle_reports_duplicates_and_unknown() {
    let set = ValidatorSet::default_3_of_5();
    let mut bundle = create_bundle(&[1], 1, 1, &[0u8; 32], &set);
    for i in 0..3 {
        add_signature(&mut bundle, i, [0u8; 64], &set, 0).unwrap();
    }
    let mut dup = bundle.clone();
    dup.signatures[2].validator_index = 0;
    assert_eq!(verify_bundle(&dup, &set).unwrap_err(), MultiSigError::DuplicateValidator { index: 0 });
    let mut unknown = bundle.clone();
    unknown.signatures[1].validator_index = 9;
    assert_eq!(verify_bundle(&unknown, &set).unwrap_err(), MultiSigError::UnknownValidator { index: 9 });
}

#[test]
fn commitment_matches_sha256_of_preimage() {
    let proof = [5u8, 6, 7];
    let program = [0xABu8; 32];
    let mut pre = proof.to_vec();
    pre.extend_from_slice(&9u64.to_be_bytes());
    pre.extend_from_slice(&2u64.to_be_bytes());
    pre.extend_from_slice(&program);
    let expected: [u8; 32] = sha2::Sha256::digest(&pre).into();
    assert_eq!(compute_commitment(&proof, 9, 2, &program), expected);
}
