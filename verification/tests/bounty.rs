use interlink::bounty::{BountyError, BountyRegistry, Severity, SubmissionStatus, HIGH_MAX, HIGH_MIN};

fn count(v: &[(&str, u64)], name: &str) -> u64 { v.iter().find(|(n, _)| *n == name).map(|(_, c)| *c).unwrap() }


fn registry_with_submission() -> (BountyRegistry, u64) {
    let mut reg = BountyRegistry::new();
    let id = reg.submit(
        "alice@security.com",
        Severity::High,
        "Replay attack on multisig bundle",
        "A validator can replay a signed bundle from epoch N in epoch N+1",
        "See attached PoC script that replays tx hash 0xabc...",
        "multisig.rs",
        1000,
    );
    (reg, id)
}

#[test]
fn test_severity_reward_ranges() {
    assert_eq!(Severity::Critical.reward_range(), (100_000, 500_000));
    assert_eq!(Severity::High.reward_range(), (10_000, 100_000));
    assert_eq!(Severity::Medium.reward_range(), (1_000, 10_000));
    assert_eq!(Severity::Low.reward_range(), (100, 1_000));
}

#[test]
fn test_severity_response_sla() {
    assert_eq!(Severity::Critical.response_sla_hours(), 4);
    assert_eq!(Severity::High.response_sla_hours(), 24);
}

#[test]
fn test_submit_and_retrieve() {
    let (reg, id) = registry_with_submission();
    let sub = reg.get(id).unwrap();
    assert_eq!(sub.reporter, "alice@security.com");
    assert_eq!(sub.severity, Severity::High);
    assert!(matches!(sub.status, SubmissionStatus::Pending));
}

#[test]
fn test_full_lifecycle_happy_path() {
    let (mut reg, id) = registry_with_submission();
    reg.triage(id).unwrap();
    reg.confirm(id, 50_000).unwrap(); // $50k within HIGH range
    let paid = reg.pay(id, 2000).unwrap();
    assert_eq!(paid, 50_000);
    assert_eq!(reg.total_paid, 50_000);
    let sub = reg.get(id).unwrap();
    assert!(matches!(sub.status, SubmissionStatus::Paid { amount: 50_000 }));
    assert_eq!(sub.resolved_at, Some(2000));
}

#[test]
fn test_reward_out_of_range() {
    let (mut reg, id) = registry_with_submission();
    reg.triage(id).unwrap();
    // HIGH range is $10k-$100k, try $500k
    let err = reg.confirm(id, 500_000).unwrap_err();
    assert_eq!(
        err,
        BountyError::RewardOutOfRange { amount: 500_000, min: HIGH_MIN, max: HIGH_MAX }
    );
}

#[test]
fn test_invalid_transition() {
    let (mut reg, id) = registry_with_submission();
    // Can't confirm directly from Pending (need Triaging first)
    let err = reg.confirm(id, 50_000).unwrap_err();
    assert!(matches!(err, BountyError::InvalidTransition { .. }));
}

#[test]
fn test_reject_submission() {
    let (mut reg, id) = registry_with_submission();
    reg.reject(id, "Not a vulnerability — expected behavior", 1500).unwrap();
    let sub = reg.get(id).unwrap();
    assert!(matches!(sub.status, SubmissionStatus::Rejected { .. }));
}

#[test]
fn test_mark_duplicate() {
    let mut reg = BountyRegistry::new();
    let id1 = reg.submit("alice", Severity::Medium, "t1", "d1", "p1", "fee.rs", 100);
    let id2 = reg.submit("bob", Severity::Medium, "t2", "d2", "p2", "fee.rs", 200);
    reg.mark_duplicate(id2, id1, 300).unwrap();
    let sub = reg.get(id2).unwrap();
    assert_eq!(sub.status, SubmissionStatus::Duplicate { original_id: id1 });
}

#[test]
fn test_stats() {
    let mut reg = BountyRegistry::new();
    reg.submit("a", Severity::Critical, "t", "d", "p", "c", 0);
    reg.submit("b", Severity::High, "t", "d", "p", "c", 0);
    reg.submit("c", Severity::High, "t", "d", "p", "c", 0);
    let stats = reg.stats();
    assert_eq!(stats.total_submissions, 3);
    assert_eq!(count(&stats.by_severity, "CRITICAL"), 1);
    assert_eq!(count(&stats.by_severity, "HIGH"), 2);
    assert_eq!(count(&stats.by_status, "pending"), 3);
}

#[test]
fn test_by_severity_filter() {
    let mut reg = BountyRegistry::new();
    reg.submit("a", Severity::Low, "t", "d", "p", "c", 0);
    reg.submit("b", Severity::Critical, "t", "d", "p", "c", 0);
    reg.submit("c", Severity::Low, "t", "d", "p", "c", 0);
    assert_eq!(reg.by_severity(&Severity::Low).len(), 2);
    assert_eq!(reg.by_severity(&Severity::Critical).len(), 1);
}

#[test]
fn test_submission_not_found() {
    let mut reg = BountyRegistry::new();
    let err = reg.triage(999).unwrap_err();
    assert_eq!(err, BountyError::SubmissionNotFound { id: 999 });
}
