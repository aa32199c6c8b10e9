use interlink::atomic::{AtomicError, AtomicSettlementEngine, SettlementParams, SettlementState, DEFAULT_ESCROW_TIMEOUT_SECS, MIN_ESCROW_TIMEOUT_SECS, ROLLBACK_GRACE_SECS};


fn sample_params() -> SettlementParams {
    SettlementParams {
        source_chain: 1,
        dest_chain: 900,
        sender: "0xAlice".into(),
        receiver: "SolBob".into(),
        amount: 1_000_000_000_000_000_000,
        token: "native".into(),
        timeout_secs: DEFAULT_ESCROW_TIMEOUT_SECS,
    }
}

#[test]
fn test_prepare_creates_escrow() {
    let mut engine = AtomicSettlementEngine::new();
    let id = engine.prepare(sample_params(), 1000).unwrap();
    let s = engine.get(&id).unwrap();
    assert_eq!(s.state, SettlementState::Prepared);
    assert_eq!(s.deadline, 1000 + DEFAULT_ESCROW_TIMEOUT_SECS);
}

#[test]
fn atomic_test_zero_amount_rejected() {
    let mut engine = AtomicSettlementEngine::new();
    let mut params = sample_params();
    params.amount = 0;
    assert_eq!(engine.prepare(params, 1000), Err(AtomicError::ZeroAmount));
}

#[test]
fn test_same_chain_rejected() {
    let mut engine = AtomicSettlementEngine::new();
    let mut params = sample_params();
    params.dest_chain = params.source_chain;
    assert_eq!(engine.prepare(params, 1000), Err(AtomicError::SameChain));
}

#[test]
fn test_full_happy_path() {
    let mut engine = AtomicSettlementEngine::new();
    let id = engine.prepare(sample_params(), 1000).unwrap();

    engine
        .attach_proof(&id, "proof_abc", "0xSourceTx", 1010)
        .unwrap();
    assert_eq!(engine.get(&id).unwrap().state, SettlementState::ProofReady);

    engine.commit(&id, "SolDestTx", 1020).unwrap();
    assert_eq!(engine.get(&id).unwrap().state, SettlementState::Committed);

    engine.finalize(&id, 1030).unwrap();
    assert_eq!(engine.get(&id).unwrap().state, SettlementState::Finalized);
}

#[test]
fn test_rollback_from_prepared() {
    let mut engine = AtomicSettlementEngine::new();
    let id = engine.prepare(sample_params(), 1000).unwrap();
    engine.rollback(&id, "user cancelled", 1100).unwrap();
    assert_eq!(engine.get(&id).unwrap().state, SettlementState::RolledBack);
}

#[test]
fn test_rollback_from_proof_ready() {
    let mut engine = AtomicSettlementEngine::new();
    let id = engine.prepare(sample_params(), 1000).unwrap();
    engine.attach_proof(&id, "proof", "tx", 1010).unwrap();
    engine.rollback(&id, "dest chain down", 1100).unwrap();
    assert_eq!(engine.get(&id).unwrap().state, SettlementState::RolledBack);
}

#[test]
fn test_cannot_rollback_committed() {
    let mut engine = AtomicSettlementEngine::new();
    let id = engine.prepare(sample_params(), 1000).unwrap();
    engine.attach_proof(&id, "p", "t", 1010).unwrap();
    engine.commit(&id, "dt", 1020).unwrap();
    assert_eq!(
        engine.rollback(&id, "too late", 1100),
        Err(AtomicError::CannotRollbackCommitted)
    );
}

#[test]
fn test_attach_proof_after_deadline_auto_rollback() {
    let mut engine = AtomicSettlementEngine::new();
    let id = engine.prepare(sample_params(), 1000).unwrap();
    let deadline = 1000 + DEFAULT_ESCROW_TIMEOUT_SECS;
    let result = engine.attach_proof(&id, "p", "t", deadline + 1);
    assert_eq!(result, Err(AtomicError::Expired));
    assert_eq!(engine.get(&id).unwrap().state, SettlementState::RolledBack);
}

#[test]
fn test_commit_after_deadline_auto_rollback() {
    let mut engine = AtomicSettlementEngine::new();
    let id = engine.prepare(sample_params(), 1000).unwrap();
    engine.attach_proof(&id, "p", "t", 1010).unwrap();
    let deadline = 1000 + DEFAULT_ESCROW_TIMEOUT_SECS;
    let result = engine.commit(&id, "dt", deadline + 1);
    assert_eq!(result, Err(AtomicError::Expired));
    assert_eq!(engine.get(&id).unwrap().state, SettlementState::RolledBack);
}

#[test]
fn test_process_timeouts() {
    let mut engine = AtomicSettlementEngine::new();
    let id1 = engine.prepare(sample_params(), 1000).unwrap();
    let mut params2 = sample_params();
    params2.sender = "0xBob".into();
    let id2 = engine.prepare(params2, 2000).unwrap();

    // Only id1 should expire
    let deadline1 = 1000 + DEFAULT_ESCROW_TIMEOUT_SECS + ROLLBACK_GRACE_SECS + 1;
    let rolled = engine.process_timeouts(deadline1);
    assert_eq!(rolled, vec![id1]);
    assert_eq!(engine.get(&id2).unwrap().state, SettlementState::Prepared);
}

#[test]
fn atomic_test_invalid_state_transitions() {
    let mut engine = AtomicSettlementEngine::new();
    let id = engine.prepare(sample_params(), 1000).unwrap();
    // Can't commit without proof
    assert!(matches!(
        engine.commit(&id, "dt", 1010),
        Err(AtomicError::InvalidTransition { .. })
    ));
    // Can't finalize without commit
    assert!(matches!(
        engine.finalize(&id, 1010),
        Err(AtomicError::InvalidTransition { .. })
    ));
}

#[test]
fn test_timeout_clamped() {
    let mut engine = AtomicSettlementEngine::new();
    let mut params = sample_params();
    params.timeout_secs = 1; // below minimum
    let id = engine.prepare(params, 1000).unwrap();
    let s = engine.get(&id).unwrap();
    assert_eq!(s.deadline, 1000 + MIN_ESCROW_TIMEOUT_SECS);
}

#[test]
fn atomic_test_get_by_sender() {
    let mut engine = AtomicSettlementEngine::new();
    engine.prepare(sample_params(), 1000).unwrap();
    engine.prepare(sample_params(), 1001).unwrap();
    assert_eq!(engine.get_by_sender("0xAlice").len(), 2);
    assert_eq!(engine.get_by_sender("0xBob").len(), 0);
}

#[test]
fn test_active_count() {
    let mut engine = AtomicSettlementEngine::new();
    engine.prepare(sample_params(), 1000).unwrap();
    let id2 = engine.prepare(sample_params(), 1001).unwrap();
    assert_eq!(engine.active_count(), 2);
    engine.rollback(&id2, "cancel", 1100).unwrap();
    assert_eq!(engine.active_count(), 1);
}

#[test]
fn atomic_test_stats_json() {
    let mut engine = AtomicSettlementEngine::new();
    let id = engine.prepare(sample_params(), 1000).unwrap();
    engine.attach_proof(&id, "p", "t", 1010).unwrap();
    engine.commit(&id, "dt", 1020).unwrap();
    let j: serde_json::Value = serde_json::from_str(&engine.stats_json()).unwrap();
    assert_eq!(j["committed"], 1);
    assert_eq!(j["total_settlements"], 1);
}

#[test]
fn test_proof_commitment_stored() {
    let mut engine = AtomicSettlementEngine::new();
    let id = engine.prepare(sample_params(), 1000).unwrap();
    engine
        .attach_proof(&id, "0xProofHash", "0xLockTx", 1010)
        .unwrap();
    let s = engine.get(&id).unwrap();
    assert_eq!(s.proof_commitment.as_deref(), Some("0xProofHash"));
    assert_eq!(s.source_tx.as_deref(), Some("0xLockTx"));
}
