//! Token governance: proposals, voting with quorum, timelock and treasury.
use vstd::prelude::*;

verus! {

pub const TOTAL_SUPPLY: u64 = 1_000_000_000;
pub const COMMUNITY_ALLOC: u64 = 400_000_000;
pub const TEAM_ALLOC: u64 = 300_000_000;
pub const TREASURY_ALLOC: u64 = 300_000_000;
/// Tokens needed to create a proposal.
pub const PROPOSAL_THRESHOLD: u64 = 100_000;
/// Voting period (7 days).
pub const VOTING_PERIOD_SECS: u64 = 604_800;
/// Delay between queueing and execution (2 days).
pub const TIMELOCK_DELAY_SECS: u64 = 172_800;
/// Votes needed for a proposal to be valid.
pub const QUORUM_TOKENS: u64 = 40_000_000;

/// Lifecycle of a proposal.
#[derive(Debug, Clone, Copy, PartialEq, Eq, Structural)]
pub enum ProposalStatus {
    Pending,
    Active,
    Succeeded,
    Defeated,
    Queued,
    Executed,
    Cancelled,
}

/// What a proposal changes.
#[derive(Debug, Clone, Copy, PartialEq, Eq, Structural)]
pub enum ProposalKind {
    UpdateFees,
    AddChain,
    UpdateValidatorSet,
    TreasuryAllocation,
    UpdateParameters,
    Text,
}

/// A governance proposal.
#[derive(Debug, Clone)]
pub struct Proposal {
    pub id: u64,
    pub kind: ProposalKind,
    pub title: String,
    pub description: String,
    pub proposer: String,
    pub start_time: u64,
    pub end_time: u64,
    pub eta: u64,
    pub votes_for: u64,
    pub votes_against: u64,
    pub votes_abstain: u64,
    pub status: ProposalStatus,
    pub calldata: Vec<u8>,
}

/// `a + b`, saturating at `u64::MAX`.
pub open spec fn sat_add(a: int, b: int) -> int {
    if a + b > u64::MAX { u64::MAX as int } else { a + b }
}

/// Total votes cast on a proposal (saturating).
pub open spec fn total_votes_spec(p: Proposal) -> int {
    sat_add(sat_add(p.votes_for as int, p.votes_against as int), p.votes_abstain as int)
}

/// Status a proposal takes when its voting closes.
pub open spec fn finalized_status(p: Proposal) -> ProposalStatus {
    if p.status != ProposalStatus::Active {
        p.status
    } else if total_votes_spec(p) < QUORUM_TOKENS || p.votes_for <= p.votes_against {
        ProposalStatus::Defeated
    } else {
        ProposalStatus::Succeeded
    }
}

/// A vote adds its full weight to its side's tally, unless the tally would
/// pass `u64::MAX`, where it stops; a tally never goes down.
pub proof fn law_vote_adds_its_weight(tally: u64, weight: u64)
    ensures
        tally + weight <= u64::MAX ==> sat_add(tally as int, weight as int) == tally + weight,
        tally + weight > u64::MAX ==> sat_add(tally as int, weight as int) == u64::MAX,
        tally <= sat_add(tally as int, weight as int) <= u64::MAX,
{
}

/// Closing the vote on an active proposal decides it by quorum and
/// majority: it succeeds exactly when at least `QUORUM_TOKENS` votes were
/// cast in all and more tokens voted for than against; otherwise it is
/// defeated. A proposal that is no longer active keeps its status.
pub proof fn law_finalize_needs_quorum_and_majority(p: Proposal)
    ensures
        p.status != ProposalStatus::Active ==> finalized_status(p) == p.status,
        p.status == ProposalStatus::Active ==> (finalized_status(p) == ProposalStatus::Succeeded
            || finalized_status(p) == ProposalStatus::Defeated),
        p.status == ProposalStatus::Active ==> (finalized_status(p) == ProposalStatus::Succeeded <==> (p.votes_for
            + p.votes_against + p.votes_abstain >= QUORUM_TOKENS && p.votes_for > p.votes_against)),
        p.status == ProposalStatus::Active && p.votes_for <= p.votes_against ==> finalized_status(p)
            == ProposalStatus::Defeated,
{
}

impl Proposal {
    /// An active proposal whose voting starts now and whose timelock ends
    /// two days after voting.
    pub fn new(id: u64, kind: ProposalKind, title: &str, description: &str, proposer: &str, now: u64) -> (r: Self)
        requires
            now + VOTING_PERIOD_SECS + TIMELOCK_DELAY_SECS <= u64::MAX,
        ensures
            r.id == id,
            r.kind == kind,
            r.title@ == title@,
            r.description@ == description@,
            r.proposer@ == proposer@,
            r.start_time == now,
            r.end_time == now + VOTING_PERIOD_SECS,
            r.eta == now + VOTING_PERIOD_SECS + TIMELOCK_DELAY_SECS,
            r.votes_for == 0 && r.votes_against == 0 && r.votes_abstain == 0,
            r.status == ProposalStatus::Active,
            r.calldata@ == Seq::<u8>::empty(),
    {
        let start_time = now;
        let end_time = now + VOTING_PERIOD_SECS;
        let eta = end_time + TIMELOCK_DELAY_SECS;
        Proposal {
            id,
            kind,
            title: title.to_owned(),
            description: description.to_owned(),
            proposer: proposer.to_owned(),
            start_time,
            end_time,
            eta,
            votes_for: 0,
            votes_against: 0,
            votes_abstain: 0,
            status: ProposalStatus::Active,
            calldata: Vec::new(),
        }
    }

    /// Votes for, against and abstaining, summed with saturation.
    pub fn total_votes(&self) -> (r: u64)
        ensures
            r == total_votes_spec(*self),
    {
        self.votes_for.saturating_add(self.votes_against).saturating_add(self.votes_abstain)
    }

    /// At least `QUORUM_TOKENS` votes were cast.
    pub fn quorum_reached(&self) -> (r: bool)
        ensures
            r == (total_votes_spec(*self) >= QUORUM_TOKENS),
    {
        self.total_votes() >= QUORUM_TOKENS
    }

    /// Close voting: an active proposal succeeds with quorum and a majority
    /// for; otherwise it is defeated. Other statuses are left unchanged.
    pub fn finalize(&mut self)
        ensures
            *final(self) == (Proposal { status: finalized_status(*old(self)), ..*old(self) }),
            old(self).status != ProposalStatus::Active ==> final(self).status == old(self).status,
            old(self).status == ProposalStatus::Active ==> (final(self).status == ProposalStatus::Succeeded
                || final(self).status == ProposalStatus::Defeated),
            old(self).status == ProposalStatus::Active ==> (final(self).status == ProposalStatus::Succeeded <==> (
            old(self).votes_for + old(self).votes_against + old(self).votes_abstain >= QUORUM_TOKENS
                && old(self).votes_for > old(self).votes_against)),
    {
        if self.status != ProposalStatus::Active {
            return;
        }
        if !self.quorum_reached() || self.votes_for <= self.votes_against {
            self.status = ProposalStatus::Defeated;
        } else {
            self.status = ProposalStatus::Succeeded;
        }
    }
}

/// A voter's choice.
#[derive(Debug, Clone, Copy, PartialEq, Eq, Structural)]
pub enum VoteChoice {
    For,
    Against,
    Abstain,
}

/// A recorded vote.
#[derive(Debug, Clone)]
pub struct Vote {
    pub voter: String,
    pub weight: u64,
    pub choice: VoteChoice,
}

/// The DAO treasury with its disbursement history.
#[derive(Debug, Clone)]
pub struct Treasury {
    pub balance_tokens: u64,
    /// `(recipient, amount, reason)` for each disbursement.
    pub history: Vec<(String, u64, String)>,
}

/// Governance errors.
#[derive(Debug, PartialEq)]
pub enum GovernanceError {
    BelowProposalThreshold { have: u64, need: u64 },
    ProposalNotFound { id: u64 },
    VotingNotActive { id: u64 },
    VotingStillActive { ends_at: u64 },
    AlreadyVoted { voter: String },
    NotSucceeded { id: u64 },
    NotQueued { id: u64 },
    TimelockNotExpired { available_at: u64 },
    InsufficientTreasuryBalance { requested: u64, available: u64 },
}

impl Treasury {
    /// A treasury holding `initial` tokens and no history.
    pub fn new(initial: u64) -> (r: Self)
        ensures
            r.balance_tokens == initial,
            r.history@.len() == 0,
    {
        Treasury { balance_tokens: initial, history: Vec::new() }
    }

    /// Pay `amount` to `recipient`, failing if the balance is too small.
    pub fn disburse(&mut self, recipient: &str, amount: u64, reason: &str) -> (r: Result<(), GovernanceError>)
        ensures
            amount > old(self).balance_tokens ==> r == Err::<(), GovernanceError>(
                GovernanceError::InsufficientTreasuryBalance { requested: amount, available: old(self).balance_tokens },
            ) && final(self).balance_tokens == old(self).balance_tokens && final(self).history@ == old(
                self,
            ).history@,
            amount <= old(self).balance_tokens ==> {
                &&& r is Ok
                &&& final(self).balance_tokens == old(self).balance_tokens - amount
                &&& final(self).history@.len() == old(self).history@.len() + 1
                &&& final(self).history@.drop_last() == old(self).history@
                &&& final(self).history@.last().0@ == recipient@
                &&& final(self).history@.last().1 == amount
                &&& final(self).history@.last().2@ == reason@
            },
    {
        if amount > self.balance_tokens {
            return Err(
                GovernanceError::InsufficientTreasuryBalance { requested: amount, available: self.balance_tokens },
            );
        }
        self.balance_tokens = self.balance_tokens - amount;
        self.history.push((recipient.to_owned(), amount, reason.to_owned()));
        assert(self.history@.drop_last() =~= old(self).history@);
        Ok(())
    }
}

/// `voter` appears among the recorded votes.
pub open spec fn has_voted(votes: Seq<Vote>, voter: Seq<char>) -> bool {
    exists|i: int| 0 <= i < votes.len() && #[trigger] votes[i].voter@ == voter
}

/// Proposals, votes and the treasury; proposal IDs are assigned from 1.
pub struct Governance {
    proposals: Vec<Proposal>,
    votes: Vec<Vec<Vote>>,
    treasury: Treasury,
    next_proposal_id: u64,
}

impl Governance {
    /// All proposals; the one with ID `k` is at position `k - 1`.
    pub closed spec fn props(&self) -> Seq<Proposal> {
        self.proposals@
    }

    /// Votes recorded on the proposal with ID `id`.
    pub closed spec fn votes_of(&self, id: u64) -> Seq<Vote> {
        self.votes@[id - 1]@
    }

    /// The treasury.
    pub closed spec fn treasury_spec(&self) -> Treasury {
        self.treasury
    }

    /// IDs are consecutive from 1 and every proposal has a vote list.
    pub closed spec fn wf(&self) -> bool {
        &&& self.next_proposal_id == self.proposals@.len() + 1
        &&& self.votes@.len() == self.proposals@.len()
        &&& forall|i: int| 0 <= i < self.proposals@.len() ==> #[trigger] self.proposals@[i].id == i + 1
    }

    /// A proposal with this ID exists.
    pub open spec fn has(&self, id: u64) -> bool {
        1 <= id <= self.props().len()
    }

    /// The proposal with this ID.
    pub open spec fn prop(&self, id: u64) -> Proposal {
        self.props()[id - 1]
    }

    /// No proposals, a treasury of `TREASURY_ALLOC` tokens.
    pub fn new() -> (r: Self)
        ensures
            r.wf(),
            r.props().len() == 0,
            r.treasury_spec().balance_tokens == TREASURY_ALLOC,
            r.treasury_spec().history@.len() == 0,
    {
        Governance {
            proposals: Vec::new(),
            votes: Vec::new(),
            treasury: Treasury::new(TREASURY_ALLOC),
            next_proposal_id: 1,
        }
    }

    /// The treasury.
    pub fn treasury(&self) -> (r: &Treasury)
        ensures
            *r == self.treasury_spec(),
    {
        &self.treasury
    }

    /// The proposal with this ID, if any.
    pub fn proposal(&self, id: u64) -> (r: Option<&Proposal>)
        requires
            self.wf(),
        ensures
            self.has(id) ==> r == Some(&self.prop(id)),
            !self.has(id) ==> r is None,
    {
        if id >= 1 && id <= self.proposals.len() as u64 {
            Some(&self.proposals[(id - 1) as usize])
        } else {
            None
        }
    }

    /// Create a proposal if the proposer holds at least `PROPOSAL_THRESHOLD`.
    pub fn propose(
        &mut self,
        kind: ProposalKind,
        title: &str,
        description: &str,
        proposer: &str,
        proposer_tokens: u64,
        now: u64,
    ) -> (r: Result<u64, GovernanceError>)
        requires
            old(self).wf(),
            old(self).props().len() + 1 < u64::MAX,
            now + VOTING_PERIOD_SECS + TIMELOCK_DELAY_SECS <= u64::MAX,
        ensures
            final(self).wf(),
            final(self).treasury_spec() == old(self).treasury_spec(),
            proposer_tokens < PROPOSAL_THRESHOLD ==> r == Err::<u64, GovernanceError>(
                GovernanceError::BelowProposalThreshold { have: proposer_tokens, need: PROPOSAL_THRESHOLD },
            ) && final(self).props() == old(self).props(),
            proposer_tokens >= PROPOSAL_THRESHOLD ==> {
                let id = (old(self).props().len() + 1) as u64;
                &&& r == Ok::<u64, GovernanceError>(id)
                &&& final(self).props().drop_last() == old(self).props()
                &&& final(self).props().len() == old(self).props().len() + 1
                &&& final(self).prop(id).id == id
                &&& final(self).prop(id).kind == kind
                &&& final(self).prop(id).title@ == title@
                &&& final(self).prop(id).proposer@ == proposer@
                &&& final(self).prop(id).start_time == now
                &&& final(self).prop(id).end_time == now + VOTING_PERIOD_SECS
                &&& final(self).prop(id).eta == now + VOTING_PERIOD_SECS + TIMELOCK_DELAY_SECS
                &&& final(self).prop(id).status == ProposalStatus::Active
                &&& final(self).prop(id).votes_for == 0
                &&& final(self).prop(id).votes_against == 0
                &&& final(self).prop(id).votes_abstain == 0
                &&& final(self).votes_of(id).len() == 0
                &&& forall|k: u64| #[trigger] old(self).has(k) ==> final(self).votes_of(k) == old(self).votes_of(k)
            },
    {
        if proposer_tokens < PROPOSAL_THRESHOLD {
            return Err(
                GovernanceError::BelowProposalThreshold { have: proposer_tokens, need: PROPOSAL_THRESHOLD },
            );
        }
        let id = self.next_proposal_id;
        self.next_proposal_id = self.next_proposal_id + 1;
        let proposal = Proposal::new(id, kind, title, description, proposer, now);
        self.proposals.push(proposal);
        self.votes.push(Vec::new());
        assert(self.proposals@.drop_last() =~= old(self).proposals@);
        Ok(id)
    }

    fn voted(votes: &Vec<Vote>, voter: &String) -> (r: bool)
        ensures
            r == has_voted(votes@, voter@),
    {
        let mut i: usize = 0;
        while i < votes.len()
            invariant
                0 <= i <= votes@.len(),
                forall|k: int| 0 <= k < i ==> votes@[k].voter@ != voter@,
            decreases votes@.len() - i,
        {
            if votes[i].voter == *voter {
                return true;
            }
            i = i + 1;
        }
        false
    }

    /// Cast a vote of `weight` tokens during the voting period; each voter
    /// votes once per proposal. Tallies saturate at `u64::MAX`.
    pub fn vote(&mut self, proposal_id: u64, voter: &str, weight: u64, choice: VoteChoice, now: u64) -> (r: Result<
        (),
        GovernanceError,
    >)
        requires
            old(self).wf(),
        ensures
            final(self).wf(),
            final(self).treasury_spec() == old(self).treasury_spec(),
            !old(self).has(proposal_id) ==> r == Err::<(), GovernanceError>(
                GovernanceError::ProposalNotFound { id: proposal_id },
            ) && final(self).props() == old(self).props(),
            old(self).has(proposal_id) ==> {
                let p = old(self).prop(proposal_id);
                if now < p.start_time || now > p.end_time || p.status != ProposalStatus::Active {
                    r == Err::<(), GovernanceError>(GovernanceError::VotingNotActive { id: proposal_id })
                        && final(self).props() == old(self).props()
                        && final(self).votes_of(proposal_id) == old(self).votes_of(proposal_id)
                } else if has_voted(old(self).votes_of(proposal_id), voter@) {
                    (r matches Err(GovernanceError::AlreadyVoted { voter: v }) && v@ == voter@)
                        && final(self).props() == old(self).props()
                        && final(self).votes_of(proposal_id) == old(self).votes_of(proposal_id)
                } else {
                    &&& r is Ok
                    &&& final(self).props() == old(self).props().update(
                        proposal_id - 1,
                        match choice {
                            VoteChoice::For => Proposal { votes_for: sat_add(p.votes_for as int, weight as int) as u64, ..p },
                            VoteChoice::Against => Proposal {
                                votes_against: sat_add(p.votes_against as int, weight as int) as u64,
                                ..p
                            },
                            VoteChoice::Abstain => Proposal {
                                votes_abstain: sat_add(p.votes_abstain as int, weight as int) as u64,
                                ..p
                            },
                        },
                    )
                    &&& final(self).votes_of(proposal_id).len() == old(self).votes_of(proposal_id).len() + 1
                    &&& final(self).votes_of(proposal_id).drop_last() == old(self).votes_of(proposal_id)
                    &&& final(self).votes_of(proposal_id).last().voter@ == voter@
                    &&& final(self).votes_of(proposal_id).last().weight == weight
                    &&& final(self).votes_of(proposal_id).last().choice == choice
                }
            },
            forall|k: u64| #[trigger] old(self).has(k) && k != proposal_id ==> final(self).votes_of(k) == old(
                self,
            ).votes_of(k),
    {
        if !(proposal_id >= 1 && proposal_id <= self.proposals.len() as u64) {
            return Err(GovernanceError::ProposalNotFound { id: proposal_id });
        }
        let i = (proposal_id - 1) as usize;
        if now < self.proposals[i].start_time || now > self.proposals[i].end_time {
            return Err(GovernanceError::VotingNotActive { id: proposal_id });
        }
        if self.proposals[i].status != ProposalStatus::Active {
            return Err(GovernanceError::VotingNotActive { id: proposal_id });
        }
        let voter = voter.to_owned();
        if Self::voted(&self.votes[i], &voter) {
            return Err(GovernanceError::AlreadyVoted { voter });
        }
        match choice {
            VoteChoice::For => self.proposals[i].votes_for = self.proposals[i].votes_for.saturating_add(weight),
            VoteChoice::Against => self.proposals[i].votes_against = self.proposals[i].votes_against.saturating_add(
                weight,
            ),
            VoteChoice::Abstain => self.proposals[i].votes_abstain = self.proposals[i].votes_abstain.saturating_add(
                weight,
            ),
        }
        self.votes[i].push(Vote { voter, weight, choice });
        assert(self.votes@[i as int]@.drop_last() =~= old(self).votes@[i as int]@);
        Ok(())
    }

    /// Close voting on a proposal once its period has ended.
    pub fn finalize(&mut self, proposal_id: u64, now: u64) -> (r: Result<ProposalStatus, GovernanceError>)
        requires
            old(self).wf(),
        ensures
            final(self).wf(),
            final(self).treasury_spec() == old(self).treasury_spec(),
            forall|k: u64| #[trigger] old(self).has(k) ==> final(self).votes_of(k) == old(self).votes_of(k),
            !old(self).has(proposal_id) ==> r == Err::<ProposalStatus, GovernanceError>(
                GovernanceError::ProposalNotFound { id: proposal_id },
            ) && final(self).props() == old(self).props(),
            old(self).has(proposal_id) && now < old(self).prop(proposal_id).end_time ==> r == Err::<
                ProposalStatus,
                GovernanceError,
            >(GovernanceError::VotingStillActive { ends_at: old(self).prop(proposal_id).end_time })
                && final(self).props() == old(self).props(),
            old(self).has(proposal_id) && now >= old(self).prop(proposal_id).end_time ==> {
                let p = old(self).prop(proposal_id);
                let s = finalized_status(p);
                &&& r == Ok::<ProposalStatus, GovernanceError>(s)
                &&& p.status != ProposalStatus::Active ==> s == p.status
                &&& p.status == ProposalStatus::Active ==> (s == ProposalStatus::Succeeded
                    || s == ProposalStatus::Defeated)
                &&& p.status == ProposalStatus::Active ==> (s == ProposalStatus::Succeeded <==> (p.votes_for
                    + p.votes_against + p.votes_abstain >= QUORUM_TOKENS && p.votes_for > p.votes_against))
                &&& final(self).props() == old(self).props().update(
                    proposal_id - 1,
                    Proposal { status: s, ..old(self).prop(proposal_id) },
                )
            },
    {
        if !(proposal_id >= 1 && proposal_id <= self.proposals.len() as u64) {
            return Err(GovernanceError::ProposalNotFound { id: proposal_id });
        }
        let i = (proposal_id - 1) as usize;
        if now < self.proposals[i].end_time {
            return Err(GovernanceError::VotingStillActive { ends_at: self.proposals[i].end_time });
        }
        self.proposals[i].finalize();
        Ok(self.proposals[i].status)
    }

    /// `Succeeded` → `Queued`.
    pub fn queue(&mut self, proposal_id: u64) -> (r: Result<(), GovernanceError>)
        requires
            old(self).wf(),
        ensures
            final(self).wf(),
            final(self).treasury_spec() == old(self).treasury_spec(),
            forall|k: u64| #[trigger] old(self).has(k) ==> final(self).votes_of(k) == old(self).votes_of(k),
            !old(self).has(proposal_id) ==> r == Err::<(), GovernanceError>(
                GovernanceError::ProposalNotFound { id: proposal_id },
            ) && final(self).props() == old(self).props(),
            old(self).has(proposal_id) && old(self).prop(proposal_id).status != ProposalStatus::Succeeded ==> r
                == Err::<(), GovernanceError>(GovernanceError::NotSucceeded { id: proposal_id })
                && final(self).props() == old(self).props(),
            old(self).has(proposal_id) && old(self).prop(proposal_id).status == ProposalStatus::Succeeded ==> r
                is Ok && final(self).props() == old(self).props().update(
                proposal_id - 1,
                Proposal { status: ProposalStatus::Queued, ..old(self).prop(proposal_id) },
            ),
    {
        if !(proposal_id >= 1 && proposal_id <= self.proposals.len() as u64) {
            return Err(GovernanceError::ProposalNotFound { id: proposal_id });
        }
        let i = (proposal_id - 1) as usize;
        if self.proposals[i].status != ProposalStatus::Succeeded {
            return Err(GovernanceError::NotSucceeded { id: proposal_id });
        }
        self.proposals[i].status = ProposalStatus::Queued;
        Ok(())
    }

    /// `Queued` → `Executed` once the timelock has expired.
    pub fn execute(&mut self, proposal_id: u64, now: u64) -> (r: Result<(), GovernanceError>)
        requires
            old(self).wf(),
        ensures
            final(self).wf(),
            final(self).treasury_spec() == old(self).treasury_spec(),
            forall|k: u64| #[trigger] old(self).has(k) ==> final(self).votes_of(k) == old(self).votes_of(k),
            !old(self).has(proposal_id) ==> r == Err::<(), GovernanceError>(
                GovernanceError::ProposalNotFound { id: proposal_id },
            ) && final(self).props() == old(self).props(),
            old(self).has(proposal_id) && old(self).prop(proposal_id).status != ProposalStatus::Queued ==> r
                == Err::<(), GovernanceError>(GovernanceError::NotQueued { id: proposal_id })
                && final(self).props() == old(self).props(),
            old(self).has(proposal_id) && old(self).prop(proposal_id).status == ProposalStatus::Queued && now
                < old(self).prop(proposal_id).eta ==> r == Err::<(), GovernanceError>(
                GovernanceError::TimelockNotExpired { available_at: old(self).prop(proposal_id).eta },
            ) && final(self).props() == old(self).props(),
            old(self).has(proposal_id) && old(self).prop(proposal_id).status == ProposalStatus::Queued && now
                >= old(self).prop(proposal_id).eta ==> r is Ok && final(self).props() == old(self).props().update(
                proposal_id - 1,
                Proposal { status: ProposalStatus::Executed, ..old(self).prop(proposal_id) },
            ),
    {
        if !(proposal_id >= 1 && proposal_id <= self.proposals.len() as u64) {
            return Err(GovernanceError::ProposalNotFound { id: proposal_id });
        }
        let i = (proposal_id - 1) as usize;
        if self.proposals[i].status != ProposalStatus::Queued {
            return Err(GovernanceError::NotQueued { id: proposal_id });
        }
        if now < self.proposals[i].eta {
            return Err(GovernanceError::TimelockNotExpired { available_at: self.proposals[i].eta });
        }
        self.proposals[i].status = ProposalStatus::Executed;
        Ok(())
    }

    /// Proposals still open for voting, in ID order.
    pub fn active_proposals(&self) -> (r: Vec<&Proposal>)
        ensures
            r@.map_values(|p: &Proposal| *p) == self.props().filter(|p: Proposal| p.status == ProposalStatus::Active),
    {
        let mut r: Vec<&Proposal> = Vec::new();
        let ghost pred = |p: Proposal| p.status == ProposalStatus::Active;
        let mut i: usize = 0;
        while i < self.proposals.len()
            invariant
                0 <= i <= self.proposals@.len(),
                pred == (|p: Proposal| p.status == ProposalStatus::Active),
                r@.map_values(|p: &Proposal| *p) == self.proposals@.take(i as int).filter(pred),
            decreases self.proposals@.len() - i,
        {
            reveal_with_fuel(Seq::<_>::filter, 1);
            assert(self.proposals@.take(i + 1).drop_last() =~= self.proposals@.take(i as int));
            if self.proposals[i].status == ProposalStatus::Active {
                r.push(&self.proposals[i]);
            }
            assert(r@.map_values(|p: &Proposal| *p) =~= self.proposals@.take(i + 1).filter(pred));
            i = i + 1;
        }
        assert(self.proposals@.take(self.proposals@.len() as int) =~= self.proposals@);
        r
    }
}

} // verus!
