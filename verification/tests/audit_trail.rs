use interlink::audit_trail::{AuditLog, TransferStatus};


fn sample_log() -> AuditLog {
    let mut log = AuditLog::new();
    log.append(
        1000,
        1,
        900,
        "0xAlice",
        "SolBob",
        1_000_000_000_000_000_000u128,
        "native",
        0,
        TransferStatus::Settled,
        Some("0xtx1".into()),
        Some("0xproof1".into()),
    );
    log.append(
        1100,
        1,
        900,
        "0xCharlie",
        "SolBob",
        500_000_000_000_000_000u128,
        "native",
        250_000_000_000_000u128,
        TransferStatus::Settled,
        Some("0xtx2".into()),
        None,
    );
    log.append(
        1200,
        137,
        1,
        "0xDave",
        "0xAlice",
        100_000_000u128,
        "0xUSDC",
        50_000u128,
        TransferStatus::Initiated,
        None,
        None,
    );
    log
}

#[test]
fn test_append_and_len() {
    let log = sample_log();
    assert_eq!(log.len(), 3);
    assert!(!log.is_empty());
}

#[test]
fn test_sequence_numbers() {
    let log = sample_log();
    assert_eq!(log.get(0).unwrap().seq, 0);
    assert_eq!(log.get(1).unwrap().seq, 1);
    assert_eq!(log.get(2).unwrap().seq, 2);
}

#[test]
fn test_hash_chain_integrity() {
    let log = sample_log();
    assert!(log.verify_integrity().is_ok());
}

#[test]
fn test_first_entry_has_zero_prev_hash() {
    let log = sample_log();
    assert_eq!(log.get(0).unwrap().prev_hash, [0u8; 32]);
}

#[test]
fn test_prev_hash_links() {
    let log = sample_log();
    let e0 = log.get(0).unwrap();
    let e1 = log.get(1).unwrap();
    assert_eq!(e1.prev_hash, e0.hash);
}

#[test]
fn test_query_by_sender() {
    let log = sample_log();
    let alice_txs = log.query_by_sender("0xAlice");
    assert_eq!(alice_txs.len(), 1);
    assert_eq!(alice_txs[0].seq, 0);
}

#[test]
fn test_query_by_receiver() {
    let log = sample_log();
    let bob_txs = log.query_by_receiver("SolBob");
    assert_eq!(bob_txs.len(), 2); // entries 0 and 1
}

#[test]
fn test_query_by_time_range() {
    let log = sample_log();
    let range = log.query_by_time_range(1050, 1150);
    assert_eq!(range.len(), 1);
    assert_eq!(range[0].seq, 1);
}

#[test]
fn test_query_by_corridor() {
    let log = sample_log();
    let eth_to_sol = log.query_by_corridor(1, 900);
    assert_eq!(eth_to_sol.len(), 2);
    let poly_to_eth = log.query_by_corridor(137, 1);
    assert_eq!(poly_to_eth.len(), 1);
}

#[test]
fn test_csv_export() {
    let log = sample_log();
    let csv = log.export_csv();
    let lines: Vec<&str> = csv.lines().collect();
    assert_eq!(lines.len(), 4); // header + 3 entries
    assert!(lines[0].starts_with("seq,timestamp"));
    assert!(lines[1].contains("0xAlice"));
}

#[test]
fn test_failed_transfer_recorded() {
    let mut log = AuditLog::new();
    log.append(
        500,
        1,
        900,
        "0xBad",
        "SolTarget",
        100,
        "native",
        0,
        TransferStatus::Failed {
            reason: "proof timeout".into(),
        },
        None,
        None,
    );
    let e = log.get(0).unwrap();
    assert_eq!(e.status.as_str(), "failed");
}

#[test]
fn test_empty_log_integrity() {
    let log = AuditLog::new();
    assert!(log.verify_integrity().is_ok());
}

#[test]
fn test_hash_determinism() {
    let mut log1 = AuditLog::new();
    let mut log2 = AuditLog::new();
    log1.append(
        100,
        1,
        900,
        "A",
        "B",
        1000,
        "native",
        0,
        TransferStatus::Settled,
        None,
        None,
    );
    log2.append(
        100,
        1,
        900,
        "A",
        "B",
        1000,
        "native",
        0,
        TransferStatus::Settled,
        None,
        None,
    );
    assert_eq!(log1.get(0).unwrap().hash, log2.get(0).unwrap().hash);
}
