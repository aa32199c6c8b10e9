use interlink::enterprise::{EnterpriseError, EnterpriseManager, OrgConfig, TransferApprovalStatus, ValidationResult, DEFAULT_DAILY_LIMIT_CENTS, DEFAULT_PER_TX_LIMIT_CENTS, LARGE_TRANSFER_THRESHOLD_CENTS, MAX_APPROVERS};


fn setup_org() -> (EnterpriseManager, String) {
    let mut mgr = EnterpriseManager::new();
    let mut config = OrgConfig::new("acme", "Acme Corp");
    config.approvers = vec!["admin1".into(), "admin2".into(), "admin3".into()];
    config.required_approvals = 2;
    config.hold_period_secs = 3600;
    config.whitelist_enabled = true;
    config.whitelist.insert("0xTreasury".into());
    config.whitelist.insert("0xVault".into());
    mgr.register_org(config).unwrap();
    (mgr, "acme".into())
}

#[test]
fn test_register_org() {
    let (mgr, org_id) = setup_org();
    let org = mgr.get_org(&org_id).unwrap();
    assert_eq!(org.name, "Acme Corp");
    assert_eq!(org.approvers.len(), 3);
    assert_eq!(org.required_approvals, 2);
}

#[test]
fn test_whitelist_enforcement() {
    let (mut mgr, org_id) = setup_org();
    // Allowed destination
    let (id, result) = mgr.initiate_transfer(&org_id, "0xTreasury", 1_000_000, 1000).unwrap();
    assert!(!id.is_empty());
    assert_ne!(result, ValidationResult::Rejected { reason: String::new() });

    // Blocked destination
    let (_, result) = mgr.initiate_transfer(&org_id, "0xUnknown", 1_000_000, 1001).unwrap();
    assert!(matches!(result, ValidationResult::Rejected { .. }));
}

#[test]
fn test_per_tx_limit() {
    let (mut mgr, org_id) = setup_org();
    let (_, result) = mgr.initiate_transfer(&org_id, "0xTreasury", DEFAULT_PER_TX_LIMIT_CENTS + 1, 1000).unwrap();
    assert!(matches!(result, ValidationResult::Rejected { .. }));
}

#[test]
fn test_daily_limit() {
    let (mut mgr, org_id) = setup_org();
    // Use up daily limit with multiple transfers under per-tx limit
    let per_tx = DEFAULT_PER_TX_LIMIT_CENTS;
    let mut spent = 0u64;
    while spent + per_tx <= DEFAULT_DAILY_LIMIT_CENTS {
        mgr.initiate_transfer(&org_id, "0xTreasury", per_tx, 1000).unwrap();
        spent += per_tx;
    }
    // Remaining space is less than per_tx, try to exceed
    let remaining = DEFAULT_DAILY_LIMIT_CENTS - spent;
    let (_, result) = mgr.initiate_transfer(&org_id, "0xTreasury", remaining + 1, 1001).unwrap();
    assert!(matches!(result, ValidationResult::Rejected { .. }));
}

#[test]
fn test_small_transfer_no_approval_needed() {
    let (mut mgr, org_id) = setup_org();
    // Below large transfer threshold → no approval needed, just hold period
    let (_, result) = mgr.initiate_transfer(&org_id, "0xTreasury", 1_000_000, 1000).unwrap();
    assert!(matches!(result, ValidationResult::InHoldPeriod { .. }));
}

#[test]
fn test_large_transfer_needs_approval() {
    let (mut mgr, org_id) = setup_org();
    let (id, result) = mgr.initiate_transfer(&org_id, "0xTreasury", LARGE_TRANSFER_THRESHOLD_CENTS, 1000).unwrap();
    assert!(matches!(result, ValidationResult::NeedsApproval { required: 2, current: 0 }));
    assert!(!mgr.check_ready(&id, 5000).unwrap());
}

#[test]
fn test_multi_approval_workflow() {
    let (mut mgr, org_id) = setup_org();
    let (id, _) = mgr.initiate_transfer(&org_id, "0xTreasury", LARGE_TRANSFER_THRESHOLD_CENTS, 1000).unwrap();

    // First approval
    let result = mgr.approve_transfer(&id, "admin1").unwrap();
    assert!(matches!(result, ValidationResult::NeedsApproval { required: 2, current: 1 }));

    // Second approval → moves to hold period
    let result = mgr.approve_transfer(&id, "admin2").unwrap();
    assert!(matches!(result, ValidationResult::InHoldPeriod { .. }));

    // Not ready yet (hold period)
    assert!(!mgr.check_ready(&id, 1000).unwrap());
    // Ready after hold period
    assert!(mgr.check_ready(&id, 1000 + 3601).unwrap());
}

#[test]
fn test_unauthorized_approver() {
    let (mut mgr, org_id) = setup_org();
    let (id, _) = mgr.initiate_transfer(&org_id, "0xTreasury", LARGE_TRANSFER_THRESHOLD_CENTS, 1000).unwrap();
    let result = mgr.approve_transfer(&id, "unknown_admin");
    assert_eq!(result.unwrap_err(), EnterpriseError::UnauthorizedApprover);
}

#[test]
fn test_mark_settled() {
    let (mut mgr, org_id) = setup_org();
    // Small transfer (no approval needed, instant hold=0)
    let mut config = mgr.get_org(&org_id).unwrap().clone();
    config.hold_period_secs = 0;
    mgr.register_org(config).unwrap();

    let (id, result) = mgr.initiate_transfer(&org_id, "0xTreasury", 1_000_000, 1000).unwrap();
    assert_eq!(result, ValidationResult::Approved);
    mgr.mark_settled(&id).unwrap();
    assert_eq!(mgr.get_pending(&id).unwrap().status, TransferApprovalStatus::Settled);
}

#[test]
fn test_add_remove_whitelist() {
    let (mut mgr, org_id) = setup_org();
    mgr.add_to_whitelist(&org_id, "0xNew").unwrap();
    let org = mgr.get_org(&org_id).unwrap();
    assert!(org.whitelist.contains("0xNew"));

    mgr.remove_from_whitelist(&org_id, "0xNew").unwrap();
    let org = mgr.get_org(&org_id).unwrap();
    assert!(!org.whitelist.contains("0xNew"));
}

#[test]
fn test_too_many_approvers() {
    let mut mgr = EnterpriseManager::new();
    let mut config = OrgConfig::new("big", "BigCo");
    config.approvers = (0..MAX_APPROVERS + 1).map(|i| format!("admin{i}")).collect();
    assert_eq!(mgr.register_org(config), Err(EnterpriseError::TooManyApprovers));
}

#[test]
fn test_invalid_threshold() {
    let mut mgr = EnterpriseManager::new();
    let mut config = OrgConfig::new("bad", "BadCo");
    config.approvers = vec!["a".into(), "b".into()];
    config.required_approvals = 5; // more than approvers
    assert_eq!(mgr.register_org(config), Err(EnterpriseError::InvalidApprovalThreshold));
}

#[test]
fn enterprise_test_stats_json() {
    let (mgr, _) = setup_org();
    assert_eq!(mgr.stats_counts().0, 1);
}

#[test]
fn test_daily_limit_resets() {
    let (mut mgr, org_id) = setup_org();
    // Spend a chunk (under per-tx limit)
    let chunk = DEFAULT_PER_TX_LIMIT_CENTS;
    mgr.initiate_transfer(&org_id, "0xTreasury", chunk, 1000).unwrap();
    // Next day: should reset, same amount should work again
    let (_, result) = mgr.initiate_transfer(&org_id, "0xTreasury", chunk, 1000 + 86_401).unwrap();
    assert!(!matches!(result, ValidationResult::Rejected { .. }));
}

#[test]
fn rejection_reasons_are_exact() {
    let (mut mgr, org_id) = setup_org();
    let (id, r) = mgr.initiate_transfer(&org_id, "0xUnknown", 5, 1000).unwrap();
    assert!(id.is_empty());
    assert_eq!(r, ValidationResult::Rejected { reason: "destination 0xUnknown not in whitelist".to_string() });
    let (_, r) = mgr.initiate_transfer(&org_id, "0xTreasury", 50_000_001, 1000).unwrap();
    assert_eq!(r, ValidationResult::Rejected { reason: "amount 50000001c exceeds per-tx limit 50000000c".to_string() });
    mgr.initiate_transfer(&org_id, "0xTreasury", 50_000_000, 1000).unwrap();
    mgr.initiate_transfer(&org_id, "0xTreasury", 40_000_000, 1000).unwrap();
    let (_, r) = mgr.initiate_transfer(&org_id, "0xTreasury", 20_000_000, 1000).unwrap();
    assert_eq!(
        r,
        ValidationResult::Rejected {
            reason: "daily limit exceeded: 90000000c spent + 20000000c = 110000000c > 100000000c limit".to_string()
        }
    );
}

#[test]
fn transfer_ids_are_sequential() {
    let (mut mgr, org_id) = setup_org();
    let (a, _) = mgr.initiate_transfer(&org_id, "0xTreasury", 1, 1000).unwrap();
    let (b, _) = mgr.initiate_transfer(&org_id, "0xVault", 1, 1000).unwrap();
    assert_eq!(a, "ent_tx_0");
    assert_eq!(b, "ent_tx_1");
    assert_eq!(mgr.get_pending("ent_tx_1").unwrap().destination, "0xVault");
    assert!(mgr.get_pending("ent_tx_9").is_none());
    assert_eq!(mgr.stats_counts(), (1, 2, 2));
}

#[test]
fn settle_requires_approval() {
    let (mut mgr, org_id) = setup_org();
    let (id, _) = mgr.initiate_transfer(&org_id, "0xTreasury", LARGE_TRANSFER_THRESHOLD_CENTS, 1000).unwrap();
    assert_eq!(mgr.mark_settled(&id), Err(EnterpriseError::NotApproved));
    mgr.approve_transfer(&id, "admin1").unwrap();
    // the same approver twice counts once
    let r = mgr.approve_transfer(&id, "admin1").unwrap();
    assert_eq!(r, ValidationResult::NeedsApproval { required: 2, current: 1 });
    mgr.approve_transfer(&id, "admin3").unwrap();
    assert_eq!(mgr.approve_transfer(&id, "admin2"), Err(EnterpriseError::NotPendingApproval));
    mgr.mark_settled(&id).unwrap();
    assert_eq!(mgr.get_pending(&id).unwrap().status, TransferApprovalStatus::Settled);
    assert_eq!(mgr.stats_counts().1, 0);
}

#[test]
fn unknown_org_and_transfer() {
    let mut mgr = EnterpriseManager::new();
    assert_eq!(mgr.initiate_transfer("nope", "x", 1, 0), Err(EnterpriseError::OrgNotFound));
    assert_eq!(mgr.add_to_whitelist("nope", "x"), Err(EnterpriseError::OrgNotFound));
    assert_eq!(mgr.check_ready("ent_tx_0", 0), Err(EnterpriseError::TransferNotFound));
    assert_eq!(mgr.approve_transfer("ent_tx_0", "a"), Err(EnterpriseError::TransferNotFound));
}

#[test]
fn monthly_limit_rejection() {
    let mut mgr = EnterpriseManager::new();
    let mut config = OrgConfig::new("m", "M");
    config.monthly_limit_cents = 100;
    config.hold_period_secs = 0;
    mgr.register_org(config).unwrap();
    mgr.initiate_transfer("m", "a", 60, 0).unwrap();
    let (_, r) = mgr.initiate_transfer("m", "a", 60, 10).unwrap();
    assert_eq!(r, ValidationResult::Rejected { reason: "monthly limit exceeded".to_string() });
}

#[test]
fn enterprise_stats_as_json_text() {
    let (mgr, _) = setup_org();
    assert_eq!(mgr.stats_json(), "{\"pending_transfers\":0,\"total_orgs\":1,\"total_transfers\":0}");
}
