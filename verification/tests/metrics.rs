use interlink::metrics::Metrics;

#[test]
fn test_proof_metrics_accumulate() {
    let mut m = Metrics::new();
    m.record_proof_start();
    m.record_proof_start();
    m.record_proof_success(50);
    m.record_proof_success(150);
    m.record_proof_failure();

    let p = m.proof_gen_stats();
    assert_eq!(p.total, 2);
    assert_eq!(p.success, 2);
    assert_eq!(p.failure, 1);
    assert_eq!(p.ms_max, 150);
    assert!(m.prometheus_text().contains("interlink_proof_gen_ms_mean 100\n")); // (50+150)/2
}

#[test]
fn test_proof_alert_threshold() {
    let mut m = Metrics::new();
    m.record_proof_success(500); // under 1s → no alert
    m.record_proof_success(1_001); // over 1s → alert
    assert_eq!(m.proof_gen_stats().alerts, 1);
}

#[test]
fn test_settlement_sla_breach() {
    let mut m = Metrics::new();
    m.record_settlement_success(29_000); // under 30s
    m.record_settlement_success(61_000); // over 60s → breach
    assert_eq!(m.settlement_stats().alerts, 1);
}

#[test]
fn test_batch_statistics() {
    let mut m = Metrics::new();
    m.record_batch_flushed(10);
    m.record_batch_flushed(100);
    m.record_batch_flushed(50);

    let b = m.batch_stats();
    assert_eq!(b.flushed, 3);
    assert_eq!(b.events, 160);
    assert_eq!(b.size_max, 100);
    assert!(m.prometheus_text().contains("interlink_batch_size_mean 53\n")); // 160/3
}

#[test]
fn test_queue_depth_set() {
    let mut m = Metrics::new();
    m.set_queue_depth(42);
    assert_eq!(m.queue_depth(), 42);
    m.set_queue_depth(0);
    assert_eq!(m.queue_depth(), 0);
}

#[test]
fn test_prometheus_text_contains_required_metrics() {
    let mut m = Metrics::new();
    m.record_proof_start();
    m.record_proof_success(75);
    m.record_batch_flushed(20);
    m.set_queue_depth(5);

    let text = m.prometheus_text();
    // All required metrics present
    assert!(text.contains("interlink_proof_gen_total 1"));
    assert!(text.contains("interlink_proof_gen_success_total 1"));
    assert!(text.contains("interlink_batch_size_max 20"));
    assert!(text.contains("interlink_queue_depth 5"));
    // Prometheus type annotations present
    assert!(text.contains("# TYPE interlink_proof_gen_total counter"));
    assert!(text.contains("# TYPE interlink_queue_depth gauge"));
}

#[test]
fn test_zero_division_guard() {
    // mean() must not panic when count=0
    let m = Metrics::new();
    let text = m.prometheus_text();
    assert!(text.contains("interlink_proof_gen_ms_mean 0\n"));
    assert!(text.contains("interlink_settlement_ms_mean 0\n"));
    assert!(text.contains("interlink_batch_size_mean 0\n"));
}

#[test]
fn test_verification_alert_threshold() {
    let mut m = Metrics::new();
    m.record_verification(200); // fast, no alert
    m.record_verification(501); // slow, alert
    let v = m.verification_stats();
    assert_eq!(v.total, 2);
    assert_eq!(v.alerts, 1);
    assert_eq!(v.ms_max, 501);
}

#[test]
fn test_chain_finality_mean() {
    let mut m = Metrics::new();
    m.record_chain_finality(1, 2000); // Ethereum
    m.record_chain_finality(1, 4000);
    m.record_chain_finality(10, 500); // Optimism
    assert_eq!(m.chain_finality_mean_ms(1), 3000);
    assert_eq!(m.chain_finality_mean_ms(10), 500);
    assert_eq!(m.chain_finality_mean_ms(999), 0); // unknown chain
}

#[test]
fn test_chain_rpc_latency() {
    let mut m = Metrics::new();
    m.set_chain_rpc_latency(1, 45);
    m.set_chain_rpc_latency(1, 30); // update
    let prom = m.prometheus_text();
    assert!(prom.contains("interlink_chain_1_rpc_latency_ms 30"));
}

#[test]
fn test_user_metrics_daily_transfers() {
    let mut m = Metrics::new();
    m.record_transfer(1, 900); // ETH → SOL
    m.record_transfer(1, 900);
    m.record_transfer(10, 900); // OP → SOL
    assert_eq!(m.user_counts().0, 3);
}

#[test]
fn test_top_corridors() {
    let mut m = Metrics::new();
    for _ in 0..5 {
        m.record_transfer(1, 900);
    } // ETH→SOL ×5
    for _ in 0..3 {
        m.record_transfer(10, 900);
    } // OP→SOL ×3
    m.record_transfer(137, 900); // MATIC→SOL ×1

    let top = m.top_corridors(2);
    assert_eq!(top[0].0, "1:900");
    assert_eq!(top[0].1, 5);
    assert_eq!(top[1].0, "10:900");
    assert_eq!(top[1].1, 3);
    // Only 2 returned
    assert_eq!(top.len(), 2);
}

#[test]
fn test_reset_daily() {
    let mut m = Metrics::new();
    m.record_transfer(1, 900);
    m.record_transfer(1, 900);
    m.reset_daily();
    assert_eq!(m.user_counts().0, 0);
    assert!(m.top_corridors(5).is_empty());
}

#[test]
fn test_unique_users() {
    let mut m = Metrics::new();
    m.record_unique_user();
    m.record_unique_user();
    assert_eq!(m.user_counts().1, 2);
}

#[test]
fn test_tvl_tracking() {
    let mut m = Metrics::new();
    m.set_tvl_usd_cents(100_000_000_00); // $100M
    assert_eq!(m.tvl_usd_cents(), 100_000_000_00);
    assert!(m.prometheus_text().contains("interlink_tvl_usd_cents 10000000000\n"));
}

#[test]
fn test_daily_volume_tracking() {
    let mut m = Metrics::new();
    m.record_volume_usd_cents(500_000_00); // $500k
    m.record_volume_usd_cents(300_000_00); // $300k
    assert_eq!(m.daily_volume_usd_cents(), 800_000_00); // $800k
    assert_eq!(m.cumulative_volume_usd_cents(), 800_000_00);
}

#[test]
fn test_volume_reset_daily() {
    let mut m = Metrics::new();
    m.record_volume_usd_cents(100_00);
    m.reset_daily();
    assert_eq!(m.daily_volume_usd_cents(), 0);
    // Cumulative should NOT reset
    assert_eq!(m.cumulative_volume_usd_cents(), 100_00);
}

#[test]
fn test_tvl_prometheus_export() {
    let mut m = Metrics::new();
    m.set_tvl_usd_cents(50_000_00);
    let text = m.prometheus_text();
    assert!(text.contains("interlink_tvl_usd_cents"));
    assert!(text.contains("interlink_daily_volume_usd_cents"));
}

#[test]
fn test_validator_uptime_json() {
    let mut m = Metrics::new();
    m.record_validator_heartbeats(9995, 10000);
    assert_eq!(m.validator_heartbeats(), (9995, 10000));
}

#[test]
fn prometheus_block_format_is_exact() {
    let mut m = Metrics::new();
    m.record_proof_start();
    let text = m.prometheus_text();
    assert!(text.starts_with(
        "# HELP interlink_proof_gen_total Total proof generation attempts\n# TYPE interlink_proof_gen_total counter\ninterlink_proof_gen_total 1\n"
    ));
    assert!(text.ends_with("interlink_validator_heartbeats_expected 0\n"));
}

#[test]
fn chain_blocks_follow_first_seen_order() {
    let mut m = Metrics::new();
    m.record_chain_finality(10, 100);
    m.record_chain_finality(1, 300);
    m.record_chain_finality(1, 100);
    let text = m.prometheus_text();
    let a = text.find("interlink_chain_10_finality_ms_mean 100\n").unwrap();
    let b = text.find("interlink_chain_1_finality_ms_mean 200\n").unwrap();
    assert!(a < b);
    assert!(text.contains("# HELP interlink_chain_1_finality_ms_mean Mean finality lag ms for chain 1\n"));
}

#[test]
fn counters_wrap_on_overflow() {
    let mut m = Metrics::new();
    m.record_volume_usd_cents(u64::MAX);
    m.record_volume_usd_cents(2);
    assert_eq!(m.cumulative_volume_usd_cents(), 1);
}

#[test]
fn top_corridors_with_more_requested_than_present() {
    let mut m = Metrics::new();
    m.record_transfer(5, 6);
    m.record_transfer(7, 8);
    m.record_transfer(7, 8);
    let top = m.top_corridors(10);
    assert_eq!(top, vec![("7:8".to_string(), 2), ("5:6".to_string(), 1)]);
    assert!(m.top_corridors(0).is_empty());
}
