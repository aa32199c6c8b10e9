use interlink::atomic::SettlementState;
use interlink::batch::{timer_due, BatchCollector};
use interlink::bounty::SubmissionStatus;
use interlink::circuitbreaker::PauseReason;
use interlink::events::{DepositEvent, GatewayEvent};
use interlink::kyc::{KycRegistry, SanctionReason};
use interlink::listener::{gateway_topics, offsets_fit_exec, RawLog};

#[test]
fn settlement_state_text_is_its_debug_text() {
    let states = vec![
        SettlementState::Prepared,
        SettlementState::ProofReady,
        SettlementState::Committed,
        SettlementState::Finalized,
        SettlementState::RolledBack,
        SettlementState::Failed { reason: "timeout \"x\"\n".to_string() },
    ];
    for s in states {
        assert_eq!(s.debug_text(), format!("{:?}", s));
    }
}

#[test]
fn submission_status_text_is_its_debug_text() {
    let states = vec![
        SubmissionStatus::Pending,
        SubmissionStatus::Triaging,
        SubmissionStatus::Confirmed,
        SubmissionStatus::RewardPending { amount: 5_000 },
        SubmissionStatus::Paid { amount: 0 },
        SubmissionStatus::Rejected { reason: "dup of #3".to_string() },
        SubmissionStatus::Duplicate { original_id: 42 },
    ];
    for s in states {
        assert_eq!(s.debug_text(), format!("{:?}", s));
    }
}

#[test]
fn pause_and_sanction_reason_texts_are_their_debug_texts() {
    let reasons = vec![
        PauseReason::ProofFailures { count: 5 },
        PauseReason::SettlementFailures { count: 3 },
        PauseReason::GuardianPause { guardian: "g\\1".to_string(), message: "halt".to_string() },
        PauseReason::TvlDrain { outflow_cents: 100_000_001, window_secs: 300 },
        PauseReason::ValidatorCompromise,
    ];
    for r in reasons {
        assert_eq!(r.debug_text(), format!("{:?}", r));
    }
    let sanctions = vec![
        SanctionReason::OfacSdn,
        SanctionReason::ExploitRelated,
        SanctionReason::Ransomware,
        SanctionReason::SandwichAttack,
        SanctionReason::CommunityFlag,
        SanctionReason::Custom("lazarus".to_string()),
    ];
    for r in sanctions {
        assert_eq!(r.debug_text(), format!("{:?}", r));
    }
}

#[test]
fn sanction_block_reason_is_exact() {
    let mut reg = KycRegistry::new();
    reg.set_screening_enabled(true);
    reg.add_sanction("0xBad", SanctionReason::Custom("mixer".to_string()), 1, 7).unwrap();
    let r = reg.screen("0xBad", 10);
    assert!(r.blocked);
    assert_eq!(r.reason, "address on sanctions list: Custom(\"mixer\") (proposal #7)");
}

fn deposit(seq: u64) -> GatewayEvent {
    GatewayEvent::Deposit(DepositEvent {
        block_number: 1,
        tx_hash: [0u8; 32],
        sequence: seq,
        sender: [0u8; 20],
        recipient: vec![0u8; 20],
        amount: 1,
        destination_chain: 1,
        payload_hash: [0u8; 32],
    })
}

#[test]
fn timer_rule_on_given_values() {
    assert!(!timer_due(0, 10, 5));
    assert!(!timer_due(3, 4, 5));
    assert!(timer_due(3, 5, 5));
    assert!(timer_due(1, 6, 5));
}

#[test]
fn batch_with_zero_interval_is_due_once_it_has_events() {
    let mut c = BatchCollector::new(10, 0);
    assert!(!c.is_timer_ready());
    c.push(deposit(1));
    assert!(c.is_timer_ready());
    let long = BatchCollector::new(10, 3_600_000);
    assert!(!long.is_timer_ready());
}

#[test]
fn log_offsets_check() {
    let t = gateway_topics();
    let log = |topic: [u8; 32], data: Vec<u8>| RawLog {
        topics: vec![topic, [0u8; 32]],
        data,
        block_number: Some(1),
        transaction_hash: None,
    };
    let mut data = vec![0u8; 160];
    assert!(offsets_fit_exec(&log(t.message_published, data.clone())));
    for b in &mut data[120..128] {
        *b = 0xff;
    }
    assert!(!offsets_fit_exec(&log(t.message_published, data.clone())));
    // Only the deposit reads the offset at 120..128.
    assert!(offsets_fit_exec(&log(t.swap_initiated, data.clone())));
    assert!(offsets_fit_exec(&log([9u8; 32], data.clone())));
    assert!(offsets_fit_exec(&RawLog { topics: vec![], data: data.clone(), block_number: None, transaction_hash: None }));
    let mut swap = vec![0u8; 288];
    for b in &mut swap[280..288] {
        *b = 0xff;
    }
    assert!(!offsets_fit_exec(&log(t.swap_initiated, swap.clone())));
    assert!(offsets_fit_exec(&log(t.message_published, swap)));
}
