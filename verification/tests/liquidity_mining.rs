use interlink::liquidity_mining::{compute_boost_bps, compute_epoch_budgets, LiquidityMiningProgram, MiningError, EARLY_BIRD_EPOCHS, EPOCH_DURATION_SECS, IMMEDIATE_VEST_BPS, LINEAR_VEST_DURATION_SECS, LOYALTY_THRESHOLD_EPOCHS, TOTAL_EPOCHS, TOTAL_REWARD_BUDGET};
const BPS: u64 = 10_000;


const START: u64 = 1_000_000;
const DAY: u64 = 86_400;

#[test]
fn test_deposit_creates_position() {
    let mut prog = LiquidityMiningProgram::new(START);
    prog.deposit("alice", 1_000_000, START);
    let pos = prog.get_position("alice").unwrap();
    assert_eq!(pos.liquidity, 1_000_000);
    assert_eq!(pos.consecutive_epochs, 0);
}

#[test]
fn test_deposit_adds_to_existing() {
    let mut prog = LiquidityMiningProgram::new(START);
    prog.deposit("alice", 500, START);
    prog.deposit("alice", 300, START + 100);
    assert_eq!(prog.get_position("alice").unwrap().liquidity, 800);
}

#[test]
fn test_withdraw_reduces_liquidity() {
    let mut prog = LiquidityMiningProgram::new(START);
    prog.deposit("alice", 1000, START);
    let remaining = prog.withdraw("alice", 400).unwrap();
    assert_eq!(remaining, 600);
}

#[test]
fn test_withdraw_insufficient() {
    let mut prog = LiquidityMiningProgram::new(START);
    prog.deposit("alice", 100, START);
    assert_eq!(
        prog.withdraw("alice", 200),
        Err(MiningError::InsufficientLiquidity)
    );
}

#[test]
fn test_withdraw_unknown_lp() {
    let mut prog = LiquidityMiningProgram::new(START);
    assert_eq!(prog.withdraw("unknown", 1), Err(MiningError::LpNotFound));
}

#[test]
fn test_anti_gaming_minimum_deposit_duration() {
    let mut prog = LiquidityMiningProgram::new(START);
    // Deposit just now — not eligible yet (< 24h)
    prog.deposit("alice", 1_000_000, START);
    let summary = prog.distribute_epoch(START + 3600).unwrap(); // 1 hour later
    assert_eq!(summary.eligible_lps, 0);
    assert_eq!(summary.total_distributed, 0);
}

#[test]
fn test_eligible_after_minimum_duration() {
    let mut prog = LiquidityMiningProgram::new(START);
    prog.deposit("alice", 1_000_000, START);
    let now = START + EPOCH_DURATION_SECS; // 7 days later (> 24h)
    let summary = prog.distribute_epoch(now).unwrap();
    assert_eq!(summary.eligible_lps, 1);
    assert!(summary.total_distributed > 0);
}

#[test]
fn test_early_bird_boost_active() {
    let mut prog = LiquidityMiningProgram::new(START);
    prog.deposit("alice", 1_000_000, START);
    let now = START + 2 * DAY;
    let summary = prog.distribute_epoch(now).unwrap();
    assert!(summary.boost_active);
    // Early bird: epoch 0 should get 2x weight budget
    assert!(summary.per_lp[0].boost_multiplier_bps >= 20_000);
}

#[test]
fn test_no_early_bird_after_threshold() {
    let mut prog = LiquidityMiningProgram::new(START);
    prog.deposit("alice", 1_000_000, START);
    // Advance past early bird epochs
    for i in 0..EARLY_BIRD_EPOCHS {
        let now = START + ((i + 1) as u64 * EPOCH_DURATION_SECS);
        let _ = prog.distribute_epoch(now);
    }
    let now = START + ((EARLY_BIRD_EPOCHS + 1) as u64 * EPOCH_DURATION_SECS);
    let summary = prog.distribute_epoch(now).unwrap();
    assert!(!summary.boost_active);
}

#[test]
fn test_loyalty_boost_after_consecutive_epochs() {
    let mut prog = LiquidityMiningProgram::new(START);
    prog.deposit("alice", 1_000_000, START);
    // Run 4 epochs to build consecutive count
    for i in 0..LOYALTY_THRESHOLD_EPOCHS {
        let now = START + ((i + 1) as u64 * EPOCH_DURATION_SECS);
        let _ = prog.distribute_epoch(now);
    }
    // 5th epoch: loyalty boost should kick in
    let pos = prog.get_position("alice").unwrap();
    assert!(pos.consecutive_epochs >= LOYALTY_THRESHOLD_EPOCHS);
}

#[test]
fn test_vesting_schedule_25_75_split() {
    let mut prog = LiquidityMiningProgram::new(START);
    prog.deposit("alice", 1_000_000, START);
    let now = START + 2 * DAY;
    let summary = prog.distribute_epoch(now).unwrap();
    let reward = &summary.per_lp[0];
    // 25% immediate
    let expected_immediate = reward.final_reward * IMMEDIATE_VEST_BPS as u64 / BPS;
    assert_eq!(reward.immediate_release, expected_immediate);
    // 75% vesting
    assert_eq!(
        reward.vesting_amount,
        reward.final_reward - expected_immediate
    );
}

#[test]
fn test_claim_vested_partial() {
    let mut prog = LiquidityMiningProgram::new(START);
    prog.deposit("alice", 1_000_000, START);
    let dist_time = START + 2 * DAY;
    let _ = prog.distribute_epoch(dist_time);

    // Claim at 50% through vesting period
    let half_vest = dist_time + LINEAR_VEST_DURATION_SECS / 2;
    let claimed = prog.claim_vested("alice", half_vest).unwrap();
    assert!(claimed > 0);

    // Claim again at end
    let end = dist_time + LINEAR_VEST_DURATION_SECS + 1;
    let final_claim = prog.claim_vested("alice", end).unwrap();
    assert!(final_claim > 0);
}

#[test]
fn test_claim_vested_nothing_before_start() {
    let mut prog = LiquidityMiningProgram::new(START);
    prog.deposit("alice", 1_000_000, START);
    // No distribution yet, so no vesting
    let claimed = prog.claim_vested("alice", START).unwrap();
    assert_eq!(claimed, 0);
}

#[test]
fn test_program_ends_after_total_epochs() {
    let mut prog = LiquidityMiningProgram::new(START);
    prog.deposit("alice", 1_000_000, START);
    for i in 0..TOTAL_EPOCHS {
        let now = START + ((i + 1) as u64 * EPOCH_DURATION_SECS);
        let _ = prog.distribute_epoch(now);
    }
    // Epoch 26 should fail
    let result = prog.distribute_epoch(START + 27 * EPOCH_DURATION_SECS);
    assert_eq!(result.unwrap_err(), MiningError::ProgramEnded);
}

#[test]
fn test_total_budget_conserved() {
    let budgets = compute_epoch_budgets();
    let sum: u64 = budgets.iter().sum();
    // Allow small rounding error (< 100 tokens out of 10M)
    assert!(
        sum <= TOTAL_REWARD_BUDGET && sum > TOTAL_REWARD_BUDGET - 100,
        "Budget sum={sum} should be close to {TOTAL_REWARD_BUDGET}"
    );
}

#[test]
fn test_multiple_lps_proportional() {
    let mut prog = LiquidityMiningProgram::new(START);
    prog.deposit("alice", 3_000_000, START);
    prog.deposit("bob", 1_000_000, START);
    let now = START + 2 * DAY;
    let summary = prog.distribute_epoch(now).unwrap();
    assert_eq!(summary.eligible_lps, 2);
    // Alice has 3x Bob's liquidity, should get ~3x rewards
    let alice_reward = summary.per_lp.iter().find(|r| r.lp_id == "alice").unwrap();
    let bob_reward = summary.per_lp.iter().find(|r| r.lp_id == "bob").unwrap();
    // Allow some rounding tolerance
    let ratio = alice_reward.final_reward as f64 / bob_reward.final_reward.max(1) as f64;
    assert!(ratio > 2.5 && ratio < 3.5, "ratio={ratio} should be ~3.0");
}

#[test]
fn test_full_withdrawal_resets_consecutive() {
    let mut prog = LiquidityMiningProgram::new(START);
    prog.deposit("alice", 1000, START);
    let _ = prog.distribute_epoch(START + 2 * DAY);
    assert_eq!(prog.get_position("alice").unwrap().consecutive_epochs, 1);
    prog.withdraw("alice", 1000).unwrap();
    assert_eq!(prog.get_position("alice").unwrap().consecutive_epochs, 0);
}

#[test]
fn liquidity_mining_test_stats_json() {
    let mut prog = LiquidityMiningProgram::new(START);
    prog.deposit("alice", 5000, START);
    assert_eq!(prog.current_epoch(), 0);
    assert_eq!(TOTAL_EPOCHS, 26);
    assert_eq!(prog.liquidity_stats(), (1, 5000));
    assert!(prog.current_epoch() < TOTAL_EPOCHS);
}

#[test]
fn test_remaining_budget_decreases() {
    let mut prog = LiquidityMiningProgram::new(START);
    prog.deposit("alice", 1_000_000, START);
    let before = prog.remaining_budget();
    let _ = prog.distribute_epoch(START + 2 * DAY);
    let after = prog.remaining_budget();
    assert!(after < before);
}

#[test]
fn test_empty_epoch_no_distribution() {
    let mut prog = LiquidityMiningProgram::new(START);
    // No LPs deposited
    let summary = prog.distribute_epoch(START + 2 * DAY).unwrap();
    assert_eq!(summary.eligible_lps, 0);
    assert_eq!(summary.total_distributed, 0);
}

#[test]
fn epoch_budget_schedule_values() {
    let b = compute_epoch_budgets();
    assert_eq!(b.len(), 26);
    assert_eq!(b[0], 666_666);
    assert_eq!(b[3], 666_666);
    assert_eq!(b[4], 333_333);
    assert_eq!(b.iter().sum::<u64>(), 9_999_990);
}

#[test]
fn boost_values() {
    assert_eq!(compute_boost_bps(0, 0), 20_000);
    assert_eq!(compute_boost_bps(0, 4), 30_000);
    assert_eq!(compute_boost_bps(5, 3), 10_000);
    assert_eq!(compute_boost_bps(5, 4), 15_000);
}

#[test]
fn single_lp_first_epoch_exact_reward() {
    let mut prog = LiquidityMiningProgram::new(START);
    prog.deposit("alice", 1_000_000, START);
    let summary = prog.distribute_epoch(START + 2 * DAY).unwrap();
    let r = &summary.per_lp[0];
    assert_eq!(r.final_reward, 666_666);
    assert_eq!(r.base_reward, 333_333);
    assert_eq!(r.immediate_release, 166_666);
    assert_eq!(r.vesting_amount, 500_000);
    assert_eq!(summary.total_liquidity, 1_000_000);
    let pos = prog.get_position("alice").unwrap();
    assert_eq!(pos.total_rewards_earned, 666_666);
    assert_eq!(pos.rewards_released, 166_666);
    assert_eq!(pos.rewards_vesting.len(), 1);
    assert_eq!(prog.total_distributed(), 666_666);
    assert_eq!(prog.remaining_budget(), TOTAL_REWARD_BUDGET - 666_666);
}

#[test]
fn vesting_claims_never_exceed_earned() {
    let mut prog = LiquidityMiningProgram::new(START);
    prog.deposit("alice", 1_000_000, START);
    let t = START + 2 * DAY;
    prog.distribute_epoch(t).unwrap();
    let a = prog.claim_vested("alice", t + LINEAR_VEST_DURATION_SECS / 2).unwrap();
    assert_eq!(a, 250_000);
    let b = prog.claim_vested("alice", t + LINEAR_VEST_DURATION_SECS * 2).unwrap();
    assert_eq!(b, 250_000);
    let c = prog.claim_vested("alice", t + LINEAR_VEST_DURATION_SECS * 3).unwrap();
    assert_eq!(c, 0);
    let pos = prog.get_position("alice").unwrap();
    assert_eq!(pos.rewards_released, pos.total_rewards_earned);
}

#[test]
fn claim_unknown_lp_fails() {
    let mut prog = LiquidityMiningProgram::new(START);
    assert_eq!(prog.claim_vested("nobody", START), Err(MiningError::LpNotFound));
}

#[test]
fn liquidity_mining_stats_as_json_text() {
    let mut prog = LiquidityMiningProgram::new(START);
    prog.deposit("alice", 5000, START);
    prog.deposit("bob", 0, START);
    assert_eq!(
        prog.stats_json(),
        "{\"active_lps\":1,\"current_epoch\":0,\"program_ended\":false,\"remaining_budget\":10000000,\"total_distributed\":0,\"total_epochs\":26,\"total_liquidity\":\"5000\"}"
    );
}

#[test]
fn epoch_total_is_sum_of_reward_lines() {
    let mut prog = LiquidityMiningProgram::new(START);
    prog.deposit("alice", 1_000_000, START);
    prog.deposit("bob", 3_000_000, START);
    prog.deposit("carol", 500_000, START + DAY);
    let summary = prog.distribute_epoch(START + DAY + 10).unwrap();
    assert_eq!(summary.per_lp.len(), 2);
    let sum: u64 = summary.per_lp.iter().map(|r| r.final_reward).sum();
    assert_eq!(summary.total_distributed, sum);
    assert!(summary.total_distributed <= compute_epoch_budgets()[0]);
}
