use interlink::bn254::scalar_from_u64;
use interlink::consensus::{SyncCommitteeCircuit, TendermintCircuit};

fn fr(v: u64) -> [u8; 32] {
    scalar_from_u64(v)
}

#[test]
fn test_sync_committee_quorum_met() {
    let circuit = SyncCommitteeCircuit {
        validator_weights: vec![fr(100); 4],
        participation_bits: vec![fr(1), fr(1), fr(1), fr(0)],
        block_hash: Some(fr(0xBEEF)),
        threshold: Some(fr(267)),
    };
    let inst = circuit.public_inputs();
    assert_eq!(inst.block_hash, Some(fr(0xBEEF)));
    assert_eq!(inst.accumulated, fr(300));
    assert_eq!(inst.quorum_flag, Some(fr(1)));
}

#[test]
fn test_sync_committee_quorum_not_met() {
    let circuit = SyncCommitteeCircuit {
        validator_weights: vec![fr(100); 4],
        participation_bits: vec![fr(1), fr(0), fr(0), fr(0)],
        block_hash: Some(fr(0xDEAD)),
        threshold: Some(fr(267)),
    };
    let inst = circuit.public_inputs();
    assert_eq!(inst.block_hash, Some(fr(0xDEAD)));
    assert_eq!(inst.accumulated, fr(100));
    assert_eq!(inst.quorum_flag, Some(fr(0)));
}

#[test]
fn test_tendermint_quorum_met() {
    let circuit = TendermintCircuit {
        voting_powers: vec![fr(100), fr(200), fr(300)],
        signed_bits: vec![fr(0), fr(1), fr(1)],
        block_hash: Some(fr(0xCAFE)),
        total_power: Some(fr(600)),
    };
    let inst = circuit.public_inputs();
    assert_eq!(inst.block_hash, Some(fr(0xCAFE)));
    assert_eq!(inst.accumulated, fr(500));
    assert_eq!(inst.quorum_flag, Some(fr(1)));
}

#[test]
fn test_tendermint_quorum_not_met() {
    let circuit = TendermintCircuit {
        voting_powers: vec![fr(100), fr(200), fr(300)],
        signed_bits: vec![fr(1), fr(0), fr(0)],
        block_hash: Some(fr(0xFACE)),
        total_power: Some(fr(600)),
    };
    let inst = circuit.public_inputs();
    assert_eq!(inst.accumulated, fr(100));
    assert_eq!(inst.quorum_flag, Some(fr(0)));
}

#[test]
fn tendermint_exactly_two_thirds_is_not_a_quorum() {
    let circuit = TendermintCircuit {
        voting_powers: vec![fr(100), fr(200), fr(300)],
        signed_bits: vec![fr(1), fr(0), fr(1)],
        block_hash: Some(fr(1)),
        total_power: Some(fr(600)),
    };
    let inst = circuit.public_inputs();
    assert_eq!(inst.accumulated, fr(400));
    assert_eq!(inst.quorum_flag, Some(fr(0)));
}

#[test]
fn consensus_unknown_threshold_leaves_flag_unknown() {
    let circuit = SyncCommitteeCircuit {
        validator_weights: vec![fr(5); 2],
        participation_bits: vec![fr(1); 2],
        block_hash: None,
        threshold: None,
    };
    let inst = circuit.public_inputs();
    assert_eq!(inst.block_hash, None);
    assert_eq!(inst.accumulated, fr(10));
    assert_eq!(inst.quorum_flag, None);
}

#[test]
fn consensus_no_participants_accumulate_zero() {
    let circuit = SyncCommitteeCircuit {
        validator_weights: vec![fr(7); 3],
        participation_bits: vec![fr(0); 3],
        block_hash: Some(fr(9)),
        threshold: Some(fr(0)),
    };
    let inst = circuit.public_inputs();
    assert_eq!(inst.accumulated, fr(0));
    // 0 >= 0: a zero threshold is always met.
    assert_eq!(inst.quorum_flag, Some(fr(1)));
}
