use interlink::kyc::{KycError, KycRecord, KycRegistry, RiskLevel, SanctionReason, MAX_SANCTIONS_ENTRIES};


const NOW: u64 = 1_700_000_000;
const FUTURE: u64 = NOW + 365 * 24 * 3600;

fn kyc_record(address: &str, risk_score: u8) -> KycRecord {
    KycRecord {
        address: address.into(),
        attestation_hash: [0xAB; 32],
        provider: "test-provider".into(),
        risk_score,
        attested_at: NOW,
        expires_at: FUTURE,
    }
}

#[test]
fn permissionless_mode_always_allows() {
    let reg = KycRegistry::new();
    // Screening disabled by default — even sanctioned addresses pass
    let result = reg.screen("0xbadactor", NOW);
    assert!(!result.blocked);
    assert_eq!(result.risk_level, RiskLevel::Low);
}

#[test]
fn sanctioned_address_blocked_when_screening_on() {
    let mut reg = KycRegistry::new();
    reg.set_screening_enabled(true);
    reg.add_sanction("0xhacker", SanctionReason::ExploitRelated, NOW, 1)
        .unwrap();

    let result = reg.screen("0xhacker", NOW);
    assert!(result.blocked);
    assert_eq!(result.risk_level, RiskLevel::Blocked);
    assert!(result.reason.contains("sanctions list"));
}

#[test]
fn unknown_address_allowed_without_mandatory_kyc() {
    let mut reg = KycRegistry::new();
    reg.set_screening_enabled(true);

    let result = reg.screen("0xunknown", NOW);
    assert!(!result.blocked);
}

#[test]
fn mandatory_kyc_blocks_unregistered_sender() {
    let mut reg = KycRegistry::new();
    reg.set_screening_enabled(true);
    reg.set_require_kyc(true);

    let result = reg.screen("0xunregistered", NOW);
    assert!(result.blocked);
    assert!(result.reason.contains("no record found"));
}

#[test]
fn mandatory_kyc_allows_low_risk_registered_sender() {
    let mut reg = KycRegistry::new();
    reg.set_screening_enabled(true);
    reg.set_require_kyc(true);
    reg.register_kyc(kyc_record("0xalice", 10)).unwrap();

    let result = reg.screen("0xalice", NOW);
    assert!(!result.blocked);
    assert!(!result.flagged);
}

#[test]
fn mandatory_kyc_flags_high_risk_sender() {
    let mut reg = KycRegistry::new();
    reg.set_screening_enabled(true);
    reg.set_require_kyc(true);
    reg.register_kyc(kyc_record("0xrisky", 80)).unwrap();

    let result = reg.screen("0xrisky", NOW);
    assert!(!result.blocked, "high-risk should be flagged, not blocked");
    assert!(result.flagged);
    assert_eq!(result.risk_level, RiskLevel::High);
}

#[test]
fn mandatory_kyc_blocks_very_high_risk_sender() {
    let mut reg = KycRegistry::new();
    reg.set_screening_enabled(true);
    reg.set_require_kyc(true);
    reg.register_kyc(kyc_record("0xdanger", 95)).unwrap();

    let result = reg.screen("0xdanger", NOW);
    assert!(result.blocked);
    assert_eq!(result.risk_level, RiskLevel::Blocked);
}

#[test]
fn expired_kyc_record_blocks_when_mandatory() {
    let mut reg = KycRegistry::new();
    reg.set_screening_enabled(true);
    reg.set_require_kyc(true);

    let expired = KycRecord {
        address: "0xbob".into(),
        attestation_hash: [0x00; 32],
        provider: "test".into(),
        risk_score: 5,
        attested_at: 1_000,
        expires_at: 2_000, // expired long ago
    };
    reg.register_kyc(expired).unwrap();

    let result = reg.screen("0xbob", NOW);
    assert!(result.blocked);
    assert!(result.reason.contains("expired"));
}

#[test]
fn whitelist_bypasses_sanctions() {
    let mut reg = KycRegistry::new();
    reg.set_screening_enabled(true);
    reg.add_sanction("0xcustody", SanctionReason::OfacSdn, NOW, 2)
        .unwrap();
    reg.whitelist("0xcustody");

    let result = reg.screen("0xcustody", NOW);
    assert!(!result.blocked, "whitelisted address must bypass sanctions");
}

#[test]
fn remove_sanction_re_allows_address() {
    let mut reg = KycRegistry::new();
    reg.set_screening_enabled(true);
    reg.add_sanction("0xtemp", SanctionReason::CommunityFlag, NOW, 3)
        .unwrap();
    assert!(reg.screen("0xtemp", NOW).blocked);

    reg.remove_sanction("0xtemp");
    assert!(!reg.screen("0xtemp", NOW).blocked);
}

#[test]
fn risk_level_thresholds_correct() {
    assert_eq!(RiskLevel::from_score(0), RiskLevel::Low);
    assert_eq!(RiskLevel::from_score(39), RiskLevel::Low);
    assert_eq!(RiskLevel::from_score(40), RiskLevel::Medium);
    assert_eq!(RiskLevel::from_score(74), RiskLevel::Medium);
    assert_eq!(RiskLevel::from_score(75), RiskLevel::High);
    assert_eq!(RiskLevel::from_score(89), RiskLevel::High);
    assert_eq!(RiskLevel::from_score(90), RiskLevel::Blocked);
    assert_eq!(RiskLevel::from_score(100), RiskLevel::Blocked);
}

#[test]
fn sanctions_list_capacity_enforced() {
    let mut reg = KycRegistry::new();
    for i in 0..MAX_SANCTIONS_ENTRIES {
        reg.add_sanction(
            &format!("0x{:040x}", i),
            SanctionReason::CommunityFlag,
            NOW,
            i as u64,
        )
        .unwrap();
    }
    let err = reg
        .add_sanction("0xoverflow", SanctionReason::CommunityFlag, NOW, 99999)
        .unwrap_err();
    assert_eq!(err, KycError::SanctionsListFull);
}

#[test]
fn optional_kyc_risk_score_applied_when_record_exists() {
    let mut reg = KycRegistry::new();
    reg.set_screening_enabled(true);
    // require_kyc = false (default)
    reg.register_kyc(kyc_record("0xwatched", 92)).unwrap();

    let result = reg.screen("0xwatched", NOW);
    assert!(
        result.blocked,
        "optional KYC with score 92 must still block"
    );
}

#[test]
fn optional_kyc_no_record_still_allows() {
    let mut reg = KycRegistry::new();
    reg.set_screening_enabled(true);
    // No KYC record, require_kyc = false

    let result = reg.screen("0xanon", NOW);
    assert!(
        !result.blocked,
        "unknown address without mandatory KYC must pass"
    );
}

#[test]
fn add_sanction_replaces_existing_entry() {
    let mut reg = KycRegistry::new();
    reg.add_sanction("0xdup", SanctionReason::CommunityFlag, NOW, 1).unwrap();
    reg.add_sanction("0xdup", SanctionReason::Ransomware, NOW, 2).unwrap();
    assert_eq!(reg.sanctions_count(), 1);
    assert!(reg.is_sanctioned("0xdup"));
    assert!(reg.remove_sanction("0xdup"));
    assert!(!reg.remove_sanction("0xdup"));
    assert_eq!(reg.sanctions_count(), 0);
}

#[test]
fn sanction_reason_text_names_reason_and_proposal() {
    let mut reg = KycRegistry::new();
    reg.set_screening_enabled(true);
    reg.add_sanction("0xevil", SanctionReason::Custom("mixer".to_string()), NOW, 42).unwrap();
    let result = reg.screen("0xevil", NOW);
    assert_eq!(result.reason, "address on sanctions list: Custom(\"mixer\") (proposal #42)");
}

#[test]
fn register_kyc_replaces_record_and_counts_addresses() {
    let mut reg = KycRegistry::new();
    reg.register_kyc(kyc_record("0xcarol", 10)).unwrap();
    reg.register_kyc(kyc_record("0xcarol", 80)).unwrap();
    reg.register_kyc(kyc_record("0xdave", 20)).unwrap();
    assert_eq!(reg.kyc_count(), 2);
    assert_eq!(reg.get_kyc_record("0xcarol").unwrap().risk_score, 80);
    assert!(reg.get_kyc_record("0xnobody").is_none());
}

#[test]
fn high_risk_reason_text() {
    let mut reg = KycRegistry::new();
    reg.set_screening_enabled(true);
    reg.register_kyc(kyc_record("0xeve", 80)).unwrap();
    assert_eq!(reg.screen("0xeve", NOW).reason, "KYC risk score 80 exceeds flag threshold");
    reg.register_kyc(kyc_record("0xeve", 95)).unwrap();
    assert_eq!(reg.screen("0xeve", NOW).reason, "KYC risk score 95 exceeds block threshold");
}

#[test]
fn expired_record_ignored_when_kyc_optional() {
    let mut reg = KycRegistry::new();
    reg.set_screening_enabled(true);
    let mut rec = kyc_record("0xold", 99);
    rec.expires_at = NOW;
    reg.register_kyc(rec).unwrap();
    let result = reg.screen("0xold", NOW);
    assert!(!result.blocked && !result.flagged);
    assert_eq!(result.reason, "address not on sanctions list");
}

#[test]
fn kyc_record_validity_and_risk() {
    let rec = kyc_record("0xf", 75);
    assert!(rec.is_valid_at(NOW));
    assert!(!rec.is_valid_at(FUTURE));
    assert_eq!(rec.risk_level(), RiskLevel::High);
    assert!(KycRegistry::new().screening_enabled() == false);
}
