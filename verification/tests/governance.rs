use interlink::governance::{Governance, GovernanceError, ProposalKind, ProposalStatus, Treasury, VoteChoice, COMMUNITY_ALLOC, PROPOSAL_THRESHOLD, TEAM_ALLOC, TIMELOCK_DELAY_SECS, TOTAL_SUPPLY, TREASURY_ALLOC, VOTING_PERIOD_SECS};


fn gov() -> Governance {
    Governance::new()
}

#[test]
fn test_token_supply_constants() {
    assert_eq!(COMMUNITY_ALLOC + TEAM_ALLOC + TREASURY_ALLOC, TOTAL_SUPPLY);
}

#[test]
fn test_propose_success() {
    let mut g = gov();
    let id = g
        .propose(
            ProposalKind::UpdateFees,
            "Lower Tier2 fee",
            "Reduce tier2 from 0.05% to 0.03%",
            "alice",
            200_000, // above 100k threshold
            1000,
        )
        .unwrap();
    assert_eq!(id, 1);
    assert_eq!(g.proposal(id).unwrap().status, ProposalStatus::Active);
}

#[test]
fn test_propose_below_threshold() {
    let mut g = gov();
    let err = g
        .propose(
            ProposalKind::Text,
            "t",
            "d",
            "alice",
            500, // below 100k threshold
            1000,
        )
        .unwrap_err();
    assert_eq!(
        err,
        GovernanceError::BelowProposalThreshold {
            have: 500,
            need: PROPOSAL_THRESHOLD
        }
    );
}

#[test]
fn test_vote_for_passes_quorum() {
    let mut g = gov();
    let now = 0u64;
    let id = g
        .propose(
            ProposalKind::AddChain,
            "Add Cosmos",
            "Add IBC support",
            "bob",
            500_000,
            now,
        )
        .unwrap();

    // Vote with enough weight to reach quorum
    g.vote(id, "alice", 25_000_000, VoteChoice::For, now + 100)
        .unwrap();
    g.vote(id, "bob", 20_000_000, VoteChoice::For, now + 200)
        .unwrap();

    let p = g.proposal(id).unwrap();
    assert!(p.quorum_reached());
    assert_eq!(p.votes_for, 45_000_000);
}

#[test]
fn test_vote_duplicate_rejected() {
    let mut g = gov();
    let now = 0u64;
    let id = g
        .propose(ProposalKind::Text, "t", "d", "x", 200_000, now)
        .unwrap();
    g.vote(id, "alice", 1_000_000, VoteChoice::For, now + 1)
        .unwrap();
    let err = g
        .vote(id, "alice", 1_000_000, VoteChoice::For, now + 2)
        .unwrap_err();
    assert_eq!(
        err,
        GovernanceError::AlreadyVoted {
            voter: "alice".to_string()
        }
    );
}

#[test]
fn test_finalize_defeated_below_quorum() {
    let mut g = gov();
    let now = 0u64;
    let id = g
        .propose(ProposalKind::Text, "t", "d", "x", 200_000, now)
        .unwrap();
    // Vote well below quorum
    g.vote(id, "alice", 1_000, VoteChoice::For, now + 1)
        .unwrap();
    let status = g.finalize(id, now + VOTING_PERIOD_SECS + 1).unwrap();
    assert_eq!(status, ProposalStatus::Defeated);
}

#[test]
fn test_finalize_succeeded_and_execute() {
    let mut g = gov();
    let now = 0u64;
    let id = g
        .propose(ProposalKind::UpdateFees, "t", "d", "x", 200_000, now)
        .unwrap();
    // Enough votes to pass quorum + majority
    g.vote(id, "a", 30_000_000, VoteChoice::For, now + 1)
        .unwrap();
    g.vote(id, "b", 15_000_000, VoteChoice::For, now + 2)
        .unwrap();

    let status = g.finalize(id, now + VOTING_PERIOD_SECS + 1).unwrap();
    assert_eq!(status, ProposalStatus::Succeeded);

    g.queue(id).unwrap();
    assert_eq!(g.proposal(id).unwrap().status, ProposalStatus::Queued);

    // Timelock not yet expired
    let err = g
        .execute(id, now + VOTING_PERIOD_SECS + TIMELOCK_DELAY_SECS - 1)
        .unwrap_err();
    assert!(matches!(err, GovernanceError::TimelockNotExpired { .. }));

    // After timelock
    g.execute(id, now + VOTING_PERIOD_SECS + TIMELOCK_DELAY_SECS + 1)
        .unwrap();
    assert_eq!(g.proposal(id).unwrap().status, ProposalStatus::Executed);
}

#[test]
fn test_treasury_disburse() {
    let mut t = Treasury::new(1_000_000);
    t.disburse("auditor", 500_000, "Trail of Bits audit")
        .unwrap();
    assert_eq!(t.balance_tokens, 500_000);
    assert_eq!(t.history.len(), 1);
}

#[test]
fn test_treasury_insufficient_balance() {
    let mut t = Treasury::new(100);
    let err = t.disburse("x", 200, "overspend").unwrap_err();
    assert_eq!(
        err,
        GovernanceError::InsufficientTreasuryBalance {
            requested: 200,
            available: 100
        }
    );
}

#[test]
fn test_active_proposals_filter() {
    let mut g = gov();
    let now = 0u64;
    let id1 = g
        .propose(ProposalKind::Text, "t1", "d", "x", 200_000, now)
        .unwrap();
    g.propose(ProposalKind::Text, "t2", "d", "y", 200_000, now)
        .unwrap();
    // Finalize one → Defeated
    g.finalize(id1, now + VOTING_PERIOD_SECS + 1).unwrap();
    let active = g.active_proposals();
    assert_eq!(active.len(), 1);
}

#[test]
fn test_voting_after_period_rejected() {
    let mut g = gov();
    let now = 0u64;
    let id = g
        .propose(ProposalKind::Text, "t", "d", "x", 200_000, now)
        .unwrap();
    // Try to vote after period
    let err = g
        .vote(
            id,
            "alice",
            1_000_000,
            VoteChoice::For,
            now + VOTING_PERIOD_SECS + 1,
        )
        .unwrap_err();
    assert_eq!(err, GovernanceError::VotingNotActive { id });
}
