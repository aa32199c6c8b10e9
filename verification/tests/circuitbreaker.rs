use interlink::circuitbreaker::{CircuitBreaker, CircuitBreakerError, PauseReason, COOLDOWN_SECS, DRAIN_WINDOW_SECS, PROOF_FAILURE_THRESHOLD, SETTLEMENT_FAILURE_THRESHOLD, TVL_DRAIN_LIMIT_CENTS};


#[test]
fn test_starts_operational() {
    let mut cb = CircuitBreaker::new();
    assert!(cb.is_operational());
    assert!(!cb.is_paused());
    assert!(cb.pause_reason().is_none());
}

#[test]
fn test_proof_failures_trigger_pause() {
    let mut cb = CircuitBreaker::new();
    for i in 0..PROOF_FAILURE_THRESHOLD {
        cb.record_proof_result(false, i as u64);
    }
    assert!(cb.is_paused());
    assert!(matches!(
        cb.pause_reason().unwrap(),
        PauseReason::ProofFailures { count: 5 }
    ));
}

#[test]
fn test_success_resets_failure_count() {
    let mut cb = CircuitBreaker::new();
    for _ in 0..(PROOF_FAILURE_THRESHOLD - 1) {
        cb.record_proof_result(false, 0);
    }
    assert!(cb.is_operational()); // not yet at threshold
    cb.record_proof_result(true, 0); // resets
                                     // Now need another full run of failures to trigger
    for _ in 0..(PROOF_FAILURE_THRESHOLD - 1) {
        cb.record_proof_result(false, 0);
    }
    assert!(cb.is_operational()); // still not paused
}

#[test]
fn test_settlement_failures_trigger_pause() {
    let mut cb = CircuitBreaker::new();
    for i in 0..SETTLEMENT_FAILURE_THRESHOLD {
        cb.record_settlement_result(false, i as u64);
    }
    assert!(cb.is_paused());
    assert!(matches!(
        cb.pause_reason().unwrap(),
        PauseReason::SettlementFailures { count: 3 }
    ));
}

#[test]
fn test_auto_recovery_after_cooldown() {
    let mut cb = CircuitBreaker::new();
    // Trigger via proof failures (auto-recoverable)
    for i in 0..PROOF_FAILURE_THRESHOLD {
        cb.record_proof_result(false, i as u64);
    }
    assert!(cb.is_paused());

    // Before cooldown — no recovery
    assert!(!cb.check_auto_recovery(100));
    assert!(cb.is_paused());

    // After cooldown
    let recover_time = PROOF_FAILURE_THRESHOLD as u64 + COOLDOWN_SECS + 1;
    assert!(cb.check_auto_recovery(recover_time));
    assert!(cb.is_operational());
}

#[test]
fn test_guardian_pause_not_auto_recoverable() {
    let mut cb = CircuitBreaker::new();
    let guardian = [0xAA; 32];
    cb.add_guardian(guardian);
    cb.guardian_pause(&guardian, "security incident", 100)
        .unwrap();
    assert!(cb.is_paused());

    // Auto-recovery should NOT work for guardian pauses
    assert!(!cb.check_auto_recovery(100 + COOLDOWN_SECS + 1));
    assert!(cb.is_paused());

    // Force resume works
    cb.resume(true).unwrap();
    assert!(cb.is_operational());
}

#[test]
fn test_unauthorized_guardian_rejected() {
    let mut cb = CircuitBreaker::new();
    let unknown = [0xBB; 32];
    let err = cb.guardian_pause(&unknown, "hack", 0).unwrap_err();
    assert_eq!(err, CircuitBreakerError::UnauthorizedGuardian);
    assert!(cb.is_operational());
}

#[test]
fn test_tvl_drain_guard() {
    let mut cb = CircuitBreaker::new();
    let now = 1000u64;
    // Single large outflow exceeding $1M
    cb.record_outflow(TVL_DRAIN_LIMIT_CENTS + 1, now);
    assert!(cb.is_paused());
    assert!(matches!(
        cb.pause_reason().unwrap(),
        PauseReason::TvlDrain { .. }
    ));
}

#[test]
fn test_tvl_drain_cumulative_within_window() {
    let mut cb = CircuitBreaker::new();
    let chunk = TVL_DRAIN_LIMIT_CENTS / 3;
    // 4 chunks within the window = exceeds limit
    for i in 0..4 {
        cb.record_outflow(chunk, i * 10);
    }
    assert!(cb.is_paused());
}

#[test]
fn test_tvl_drain_stale_entries_evicted() {
    let mut cb = CircuitBreaker::new();
    let chunk = TVL_DRAIN_LIMIT_CENTS / 2;
    // First outflow at time 0
    cb.record_outflow(chunk, 0);
    // Second outflow AFTER the window (time > DRAIN_WINDOW_SECS)
    cb.record_outflow(chunk, DRAIN_WINDOW_SECS + 10);
    // Should NOT be paused — first entry evicted
    assert!(cb.is_operational());
}

#[test]
fn test_resume_not_paused_error() {
    let mut cb = CircuitBreaker::new();
    let err = cb.resume(false).unwrap_err();
    assert_eq!(err, CircuitBreakerError::NotPaused);
}

#[test]
fn test_manual_resume_required_for_tvl_drain() {
    let mut cb = CircuitBreaker::new();
    cb.record_outflow(TVL_DRAIN_LIMIT_CENTS + 1, 0);
    assert!(cb.is_paused());

    let err = cb.resume(false).unwrap_err();
    assert!(matches!(
        err,
        CircuitBreakerError::ManualResumeRequired { .. }
    ));

    cb.resume(true).unwrap();
    assert!(cb.is_operational());
}

#[test]
fn test_total_pauses_counter() {
    let mut cb = CircuitBreaker::new();
    // Trigger and recover multiple times
    for _ in 0..PROOF_FAILURE_THRESHOLD {
        cb.record_proof_result(false, 0);
    }
    cb.resume(true).unwrap();
    for _ in 0..SETTLEMENT_FAILURE_THRESHOLD {
        cb.record_settlement_result(false, 100);
    }
    cb.resume(true).unwrap();
    assert_eq!(cb.total_pauses(), 2);
}
