//! Atomic cross-chain settlement: a two-phase commit with escrow and
//! timeout-based rollback.
//!
//! A settlement moves `Prepared` → `ProofReady` → `Committed` → `Finalized`;
//! until it is committed it can be rolled back, and once its deadline has
//! passed any further step rolls it back instead.
use vstd::prelude::*;
use vstd::string::StringExecFns;
use crate::text::{concat3, dec_chars, lemma_prefixed_injective, prefixed_decimal, str_debug, str_debug_spec};

verus! {

/// Default escrow timeout (30 minutes).
pub const DEFAULT_ESCROW_TIMEOUT_SECS: u64 = 1_800;
/// Maximum escrow timeout (24 hours).
pub const MAX_ESCROW_TIMEOUT_SECS: u64 = 86_400;
/// Minimum escrow timeout (5 minutes).
pub const MIN_ESCROW_TIMEOUT_SECS: u64 = 300;
/// Grace period after the deadline before a forced rollback (2 minutes).
pub const ROLLBACK_GRACE_SECS: u64 = 120;

/// State of an atomic settlement.
#[derive(Debug, Clone, PartialEq, Eq)]
pub enum SettlementState {
    /// Funds locked in escrow on the source chain.
    Prepared,
    /// ZK proof generated for the lock.
    ProofReady,
    /// Destination chain confirmed receipt.
    Committed,
    /// Settlement complete on both chains.
    Finalized,
    /// Funds returned to the sender.
    RolledBack,
    /// Settlement failed.
    Failed { reason: String },
}

/// The `Debug` text of a settlement state.
pub open spec fn state_text(s: SettlementState) -> Seq<char> {
    match s {
        SettlementState::Prepared => "Prepared"@,
        SettlementState::ProofReady => "ProofReady"@,
        SettlementState::Committed => "Committed"@,
        SettlementState::Finalized => "Finalized"@,
        SettlementState::RolledBack => "RolledBack"@,
        SettlementState::Failed { reason } => "Failed { reason: "@ + str_debug_spec(reason@) + " }"@,
    }
}

impl SettlementState {
    /// The state as its `Debug` text.
    pub fn debug_text(&self) -> (r: String)
        ensures
            r@ == state_text(*self),
    {
        match self {
            SettlementState::Prepared => "Prepared".to_owned(),
            SettlementState::ProofReady => "ProofReady".to_owned(),
            SettlementState::Committed => "Committed".to_owned(),
            SettlementState::Finalized => "Finalized".to_owned(),
            SettlementState::RolledBack => "RolledBack".to_owned(),
            SettlementState::Failed { reason } => {
                let d = str_debug(reason.as_str());
                concat3("Failed { reason: ", d.as_str(), " }")
            },
        }
    }
}


/// An atomic settlement record.
#[derive(Debug, Clone)]
pub struct AtomicSettlement {
    pub settlement_id: String,
    pub source_chain: u32,
    pub dest_chain: u32,
    pub sender: String,
    pub receiver: String,
    pub amount: u128,
    pub token: String,
    pub state: SettlementState,
    pub created_at: u64,
    /// Escrow deadline; the settlement rolls back after it.
    pub deadline: u64,
    pub proof_commitment: Option<String>,
    pub source_tx: Option<String>,
    pub dest_tx: Option<String>,
    pub updated_at: u64,
}

/// Settlement creation parameters.
#[derive(Debug, Clone)]
pub struct SettlementParams {
    pub source_chain: u32,
    pub dest_chain: u32,
    pub sender: String,
    pub receiver: String,
    pub amount: u128,
    pub token: String,
    pub timeout_secs: u64,
}

/// Settlement errors.
#[derive(Debug, PartialEq)]
pub enum AtomicError {
    NotFound,
    ZeroAmount,
    SameChain,
    Expired,
    InvalidTransition { from: String, to: String },
    CannotRollbackCommitted,
}

/// Counters of an engine.
#[derive(Debug, Clone, Copy, PartialEq, Eq)]
pub struct AtomicStats {
    pub total_settlements: u64,
    pub active: u64,
    pub committed: u64,
    pub rolled_back: u64,
    pub failed: u64,
}

/// Timeout clamped to `[MIN_ESCROW_TIMEOUT_SECS, MAX_ESCROW_TIMEOUT_SECS]`.
pub open spec fn clamp_timeout(t: u64) -> u64 {
    if t < MIN_ESCROW_TIMEOUT_SECS {
        MIN_ESCROW_TIMEOUT_SECS
    } else if t > MAX_ESCROW_TIMEOUT_SECS {
        MAX_ESCROW_TIMEOUT_SECS
    } else {
        t
    }
}

/// An escrow is held between five minutes and a day: the timeout a
/// settlement gets always lies in `[MIN_ESCROW_TIMEOUT_SECS,
/// MAX_ESCROW_TIMEOUT_SECS]`; a requested timeout inside that range is kept,
/// a longer one is cut to the maximum and a shorter one raised to the
/// minimum.
pub proof fn law_escrow_timeout_is_bounded(t: u64)
    ensures
        MIN_ESCROW_TIMEOUT_SECS <= clamp_timeout(t) <= MAX_ESCROW_TIMEOUT_SECS,
        MIN_ESCROW_TIMEOUT_SECS <= t <= MAX_ESCROW_TIMEOUT_SECS ==> clamp_timeout(t) == t,
        t > MAX_ESCROW_TIMEOUT_SECS ==> clamp_timeout(t) == MAX_ESCROW_TIMEOUT_SECS,
        t < MIN_ESCROW_TIMEOUT_SECS ==> clamp_timeout(t) == MIN_ESCROW_TIMEOUT_SECS,
        clamp_timeout(t) <= t || t < MIN_ESCROW_TIMEOUT_SECS,
{
}

/// The ID given to the settlement created `n`-th (from 0).
pub open spec fn settlement_id_of(n: int) -> Seq<char> {
    "atomic_"@ + dec_chars(n as nat)
}

/// The settlement is still in escrow and can be rolled back.
pub open spec fn is_open(s: SettlementState) -> bool {
    s is Prepared || s is ProofReady
}

/// The settlement counts as active: not yet finalized, rolled back or failed.
pub open spec fn is_active(s: SettlementState) -> bool {
    s is Prepared || s is ProofReady || s is Committed
}

/// The open settlement's deadline and grace period have both passed.
pub open spec fn timed_out(s: AtomicSettlement, now: u64) -> bool {
    is_open(s.state) && now > s.deadline + ROLLBACK_GRACE_SECS
}

/// Number of active settlements in `s`.
pub open spec fn count_active(s: Seq<AtomicSettlement>) -> nat
    decreases s.len(),
{
    if s.len() == 0 {
        0
    } else {
        count_active(s.drop_last()) + if is_active(s.last().state) { 1nat } else { 0nat }
    }
}

/// The two-phase-commit engine. Settlements are kept in creation order and
/// the `n`-th one has ID `atomic_n`.
pub struct AtomicSettlementEngine {
    settlements: Vec<AtomicSettlement>,
    next_id: u64,
    total_committed: u64,
    total_rolled_back: u64,
    total_failed: u64,
}

/// Position of the settlement with ID `id` among `s`, if any.
pub open spec fn position(s: Seq<AtomicSettlement>, id: Seq<char>) -> Option<int> {
    if exists|i: int| 0 <= i < s.len() && #[trigger] s[i].settlement_id@ == id {
        Some(choose|i: int| 0 <= i < s.len() && #[trigger] s[i].settlement_id@ == id)
    } else {
        None
    }
}

impl AtomicSettlementEngine {
    /// All settlements in creation order.
    pub closed spec fn all(&self) -> Seq<AtomicSettlement> {
        self.settlements@
    }

    /// Settlements committed so far.
    pub closed spec fn committed(&self) -> u64 {
        self.total_committed
    }

    /// Settlements rolled back so far.
    pub closed spec fn rolled_back(&self) -> u64 {
        self.total_rolled_back
    }

    /// Settlements failed so far.
    pub closed spec fn failed(&self) -> u64 {
        self.total_failed
    }

    /// Every settlement carries the ID of its creation position.
    pub closed spec fn wf(&self) -> bool {
        &&& self.next_id == self.settlements@.len()
        &&& forall|i: int| 0 <= i < self.settlements@.len() ==> #[trigger] self.settlements@[i].settlement_id@
            == settlement_id_of(i)
    }

    /// Position of the settlement with this ID, if any.
    pub open spec fn pos(&self, id: Seq<char>) -> Option<int> {
        position(self.all(), id)
    }

    /// The settlement with this ID (meaningful when `pos(id)` is some).
    pub open spec fn at(&self, id: Seq<char>) -> AtomicSettlement {
        self.all()[self.pos(id)->0]
    }

    proof fn lemma_ids_unique(&self, i: int, j: int)
        requires
            self.wf(),
            0 <= i < self.all().len(),
            0 <= j < self.all().len(),
            self.all()[i].settlement_id@ == self.all()[j].settlement_id@,
        ensures
            i == j,
    {
        assert(self.settlements@[i].settlement_id@ == settlement_id_of(i));
        assert(self.settlements@[j].settlement_id@ == settlement_id_of(j));
        lemma_prefixed_injective("atomic_"@, i as nat, j as nat);
    }

    /// An engine with no settlements.
    pub fn new() -> (r: Self)
        ensures
            r.wf(),
            r.all().len() == 0,
            r.committed() == 0 && r.rolled_back() == 0 && r.failed() == 0,
    {
        AtomicSettlementEngine {
            settlements: Vec::new(),
            next_id: 0,
            total_committed: 0,
            total_rolled_back: 0,
            total_failed: 0,
        }
    }

    fn find(&self, id: &str) -> (r: Option<usize>)
        requires
            self.wf(),
        ensures
            match r {
                Some(i) => self.pos(id@) == Some(i as int),
                None => self.pos(id@) is None,
            },
    {
        let key = id.to_owned();
        let mut i: usize = 0;
        while i < self.settlements.len()
            invariant
                0 <= i <= self.settlements@.len(),
                key@ == id@,
                self.wf(),
                forall|k: int| 0 <= k < i ==> self.settlements@[k].settlement_id@ != id@,
            decreases self.settlements@.len() - i,
        {
            if self.settlements[i].settlement_id == key {
                proof {
                    assert(self.all()[i as int].settlement_id@ == id@);
                    let c = choose|c: int|
                        0 <= c < self.all().len() && #[trigger] self.all()[c].settlement_id@ == id@;
                    self.lemma_ids_unique(c, i as int);
                }
                return Some(i);
            }
            i = i + 1;
        }
        None
    }

    /// Phase 1 (prepare): lock the funds in escrow; returns the new ID.
    /// The timeout is clamped to `[5 min, 24 h]`.
    pub fn prepare(&mut self, params: SettlementParams, now: u64) -> (r: Result<String, AtomicError>)
        requires
            old(self).wf(),
            old(self).all().len() < u64::MAX,
            params.amount != 0 && params.source_chain != params.dest_chain ==> now + clamp_timeout(
                params.timeout_secs,
            ) <= u64::MAX,
        ensures
            final(self).wf(),
            final(self).committed() == old(self).committed(),
            final(self).rolled_back() == old(self).rolled_back(),
            final(self).failed() == old(self).failed(),
            params.amount == 0 ==> r == Err::<String, AtomicError>(AtomicError::ZeroAmount) && final(self).all()
                == old(self).all(),
            params.amount != 0 && params.source_chain == params.dest_chain ==> r == Err::<String, AtomicError>(
                AtomicError::SameChain,
            ) && final(self).all() == old(self).all(),
            params.amount != 0 && params.source_chain != params.dest_chain ==> {
                let n = old(self).all().len() as int;
                let s = final(self).all().last();
                &&& r matches Ok(id) && id@ == settlement_id_of(n)
                &&& final(self).all().len() == n + 1
                &&& final(self).all().drop_last() == old(self).all()
                &&& s.settlement_id@ == settlement_id_of(n)
                &&& s.source_chain == params.source_chain
                &&& s.dest_chain == params.dest_chain
                &&& s.sender@ == params.sender@
                &&& s.receiver@ == params.receiver@
                &&& s.amount == params.amount
                &&& s.token@ == params.token@
                &&& s.state == SettlementState::Prepared
                &&& s.created_at == now
                &&& s.deadline == now + clamp_timeout(params.timeout_secs)
                &&& now + MIN_ESCROW_TIMEOUT_SECS <= s.deadline <= now + MAX_ESCROW_TIMEOUT_SECS
                &&& MIN_ESCROW_TIMEOUT_SECS <= params.timeout_secs <= MAX_ESCROW_TIMEOUT_SECS ==> s.deadline == now
                    + params.timeout_secs
                &&& s.proof_commitment is None
                &&& s.source_tx is None
                &&& s.dest_tx is None
                &&& s.updated_at == now
            },
    {
        let timeout = if params.timeout_secs < MIN_ESCROW_TIMEOUT_SECS {
            MIN_ESCROW_TIMEOUT_SECS
        } else if params.timeout_secs > MAX_ESCROW_TIMEOUT_SECS {
            MAX_ESCROW_TIMEOUT_SECS
        } else {
            params.timeout_secs
        };
        if params.amount == 0 {
            return Err(AtomicError::ZeroAmount);
        }
        if params.source_chain == params.dest_chain {
            return Err(AtomicError::SameChain);
        }
        let settlement_id = prefixed_decimal("atomic_", self.next_id);
        let returned_id = prefixed_decimal("atomic_", self.next_id);
        self.next_id = self.next_id + 1;
        let settlement = AtomicSettlement {
            settlement_id,
            source_chain: params.source_chain,
            dest_chain: params.dest_chain,
            sender: params.sender,
            receiver: params.receiver,
            amount: params.amount,
            token: params.token,
            state: SettlementState::Prepared,
            created_at: now,
            deadline: now + timeout,
            proof_commitment: None,
            source_tx: None,
            dest_tx: None,
            updated_at: now,
        };
        self.settlements.push(settlement);
        assert(self.settlements@.drop_last() =~= old(self).settlements@);
        Ok(returned_id)
    }
    /// Attach the lock proof (`Prepared` → `ProofReady`); past the deadline
    /// the settlement is rolled back instead and `Expired` is returned.
    pub fn attach_proof(&mut self, settlement_id: &str, proof_commitment: &str, source_tx: &str, now: u64) -> (r:
        Result<(), AtomicError>)
        requires
            old(self).wf(),
            old(self).pos(settlement_id@) matches Some(i) && old(self).all()[i].state is Prepared && now > old(
                self,
            ).all()[i].deadline ==> old(self).rolled_back() < u64::MAX,
        ensures
            final(self).wf(),
            final(self).committed() == old(self).committed(),
            final(self).failed() == old(self).failed(),
            old(self).pos(settlement_id@) is None ==> r == Err::<(), AtomicError>(AtomicError::NotFound)
                && final(self).all() == old(self).all() && final(self).rolled_back() == old(self).rolled_back(),
            old(self).pos(settlement_id@) matches Some(i) ==> {
                let s = old(self).all()[i];
                if !(s.state is Prepared) {
                    &&& r matches Err(AtomicError::InvalidTransition { from, to }) && to@ == "ProofReady"@ && from@ == state_text(s.state)
                    &&& final(self).all() == old(self).all()
                    &&& final(self).rolled_back() == old(self).rolled_back()
                } else if now > s.deadline {
                    &&& r == Err::<(), AtomicError>(AtomicError::Expired)
                    &&& final(self).all() == old(self).all().update(
                        i,
                        AtomicSettlement { state: SettlementState::RolledBack, updated_at: now, ..s },
                    )
                    &&& final(self).rolled_back() == old(self).rolled_back() + 1
                } else {
                    let t = final(self).all()[i];
                    &&& r is Ok
                    &&& final(self).all().len() == old(self).all().len()
                    &&& forall|k: int| 0 <= k < old(self).all().len() && k != i ==> final(self).all()[k] == old(
                        self,
                    ).all()[k]
                    &&& t.proof_commitment matches Some(c) && c@ == proof_commitment@
                    &&& t.source_tx matches Some(c) && c@ == source_tx@
                    &&& t == AtomicSettlement {
                        state: SettlementState::ProofReady,
                        updated_at: now,
                        proof_commitment: t.proof_commitment,
                        source_tx: t.source_tx,
                        ..s
                    }
                    &&& final(self).rolled_back() == old(self).rolled_back()
                }
            },
    {
        let i = match self.find(settlement_id) {
            Some(i) => i,
            None => return Err(AtomicError::NotFound),
        };
        let prepared = match self.settlements[i].state {
            SettlementState::Prepared => true,
            _ => false,
        };
        if !prepared {
            return Err(
                AtomicError::InvalidTransition {
                    from: self.settlements[i].state.debug_text(),
                    to: "ProofReady".to_owned(),
                },
            );
        }
        if now > self.settlements[i].deadline {
            self.settlements[i].state = SettlementState::RolledBack;
            self.settlements[i].updated_at = now;
            self.total_rolled_back = self.total_rolled_back + 1;
            return Err(AtomicError::Expired);
        }
        self.settlements[i].proof_commitment = Some(proof_commitment.to_owned());
        self.settlements[i].source_tx = Some(source_tx.to_owned());
        self.settlements[i].state = SettlementState::ProofReady;
        self.settlements[i].updated_at = now;
        Ok(())
    }

    /// Phase 2a (commit): the destination confirmed receipt
    /// (`ProofReady` → `Committed`); past the deadline the settlement is
    /// rolled back instead and `Expired` is returned.
    pub fn commit(&mut self, settlement_id: &str, dest_tx: &str, now: u64) -> (r: Result<(), AtomicError>)
        requires
            old(self).wf(),
            old(self).pos(settlement_id@) matches Some(i) && old(self).all()[i].state is ProofReady && now > old(
                self,
            ).all()[i].deadline ==> old(self).rolled_back() < u64::MAX,
            old(self).pos(settlement_id@) matches Some(i) && old(self).all()[i].state is ProofReady && now <= old(
                self,
            ).all()[i].deadline ==> old(self).committed() < u64::MAX,
        ensures
            final(self).wf(),
            final(self).failed() == old(self).failed(),
            old(self).pos(settlement_id@) is None ==> r == Err::<(), AtomicError>(AtomicError::NotFound)
                && final(self).all() == old(self).all() && final(self).rolled_back() == old(self).rolled_back()
                && final(self).committed() == old(self).committed(),
            old(self).pos(settlement_id@) matches Some(i) ==> {
                let s = old(self).all()[i];
                if !(s.state is ProofReady) {
                    &&& r matches Err(AtomicError::InvalidTransition { from, to }) && to@ == "Committed"@ && from@ == state_text(s.state)
                    &&& final(self).all() == old(self).all()
                    &&& final(self).rolled_back() == old(self).rolled_back()
                    &&& final(self).committed() == old(self).committed()
                } else if now > s.deadline {
                    &&& r == Err::<(), AtomicError>(AtomicError::Expired)
                    &&& final(self).all() == old(self).all().update(
                        i,
                        AtomicSettlement { state: SettlementState::RolledBack, updated_at: now, ..s },
                    )
                    &&& final(self).rolled_back() == old(self).rolled_back() + 1
                    &&& final(self).committed() == old(self).committed()
                } else {
                    let t = final(self).all()[i];
                    &&& r is Ok
                    &&& final(self).all().len() == old(self).all().len()
                    &&& forall|k: int| 0 <= k < old(self).all().len() && k != i ==> final(self).all()[k] == old(
                        self,
                    ).all()[k]
                    &&& t.dest_tx matches Some(c) && c@ == dest_tx@
                    &&& t == AtomicSettlement {
                        state: SettlementState::Committed,
                        updated_at: now,
                        dest_tx: t.dest_tx,
                        ..s
                    }
                    &&& final(self).rolled_back() == old(self).rolled_back()
                    &&& final(self).committed() == old(self).committed() + 1
                }
            },
    {
        let i = match self.find(settlement_id) {
            Some(i) => i,
            None => return Err(AtomicError::NotFound),
        };
        let ready = match self.settlements[i].state {
            SettlementState::ProofReady => true,
            _ => false,
        };
        if !ready {
            return Err(
                AtomicError::InvalidTransition {
                    from: self.settlements[i].state.debug_text(),
                    to: "Committed".to_owned(),
                },
            );
        }
        if now > self.settlements[i].deadline {
            self.settlements[i].state = SettlementState::RolledBack;
            self.settlements[i].updated_at = now;
            self.total_rolled_back = self.total_rolled_back + 1;
            return Err(AtomicError::Expired);
        }
        self.settlements[i].dest_tx = Some(dest_tx.to_owned());
        self.settlements[i].state = SettlementState::Committed;
        self.settlements[i].updated_at = now;
        self.total_committed = self.total_committed + 1;
        Ok(())
    }

    /// `Committed` → `Finalized` (both chains confirmed).
    pub fn finalize(&mut self, settlement_id: &str, now: u64) -> (r: Result<(), AtomicError>)
        requires
            old(self).wf(),
        ensures
            final(self).wf(),
            final(self).committed() == old(self).committed(),
            final(self).rolled_back() == old(self).rolled_back(),
            final(self).failed() == old(self).failed(),
            old(self).pos(settlement_id@) is None ==> r == Err::<(), AtomicError>(AtomicError::NotFound)
                && final(self).all() == old(self).all(),
            old(self).pos(settlement_id@) matches Some(i) ==> {
                let s = old(self).all()[i];
                if !(s.state is Committed) {
                    &&& r matches Err(AtomicError::InvalidTransition { from, to }) && to@ == "Finalized"@ && from@ == state_text(s.state)
                    &&& final(self).all() == old(self).all()
                } else {
                    &&& r is Ok
                    &&& final(self).all() == old(self).all().update(
                        i,
                        AtomicSettlement { state: SettlementState::Finalized, updated_at: now, ..s },
                    )
                }
            },
    {
        let i = match self.find(settlement_id) {
            Some(i) => i,
            None => return Err(AtomicError::NotFound),
        };
        let committed = match self.settlements[i].state {
            SettlementState::Committed => true,
            _ => false,
        };
        if !committed {
            return Err(
                AtomicError::InvalidTransition {
                    from: self.settlements[i].state.debug_text(),
                    to: "Finalized".to_owned(),
                },
            );
        }
        self.settlements[i].state = SettlementState::Finalized;
        self.settlements[i].updated_at = now;
        Ok(())
    }

    /// Phase 2b (rollback): return an open settlement's funds to the sender.
    /// Committed and finalized settlements cannot be rolled back.
    pub fn rollback(&mut self, settlement_id: &str, reason: &str, now: u64) -> (r: Result<(), AtomicError>)
        requires
            old(self).wf(),
            old(self).pos(settlement_id@) matches Some(i) && is_open(old(self).all()[i].state) ==> old(
                self,
            ).rolled_back() < u64::MAX,
        ensures
            final(self).wf(),
            final(self).committed() == old(self).committed(),
            final(self).failed() == old(self).failed(),
            old(self).pos(settlement_id@) is None ==> r == Err::<(), AtomicError>(AtomicError::NotFound)
                && final(self).all() == old(self).all() && final(self).rolled_back() == old(self).rolled_back(),
            old(self).pos(settlement_id@) matches Some(i) ==> {
                let s = old(self).all()[i];
                if is_open(s.state) {
                    &&& r is Ok
                    &&& final(self).all() == old(self).all().update(
                        i,
                        AtomicSettlement { state: SettlementState::RolledBack, updated_at: now, ..s },
                    )
                    &&& final(self).rolled_back() == old(self).rolled_back() + 1
                } else if s.state is Committed || s.state is Finalized {
                    &&& r == Err::<(), AtomicError>(AtomicError::CannotRollbackCommitted)
                    &&& final(self).all() == old(self).all()
                    &&& final(self).rolled_back() == old(self).rolled_back()
                } else {
                    &&& r matches Err(AtomicError::InvalidTransition { from, to }) && to@ == "RolledBack"@ && from@ == state_text(s.state)
                    &&& final(self).all() == old(self).all()
                    &&& final(self).rolled_back() == old(self).rolled_back()
                }
            },
    {
        let i = match self.find(settlement_id) {
            Some(i) => i,
            None => return Err(AtomicError::NotFound),
        };
        let kind: u8 = match self.settlements[i].state {
            SettlementState::Prepared | SettlementState::ProofReady => 0,
            SettlementState::Committed | SettlementState::Finalized => 1,
            _ => 2,
        };
        if kind == 0 {
            self.settlements[i].state = SettlementState::RolledBack;
            self.settlements[i].updated_at = now;
            self.total_rolled_back = self.total_rolled_back + 1;
            Ok(())
        } else if kind == 1 {
            Err(AtomicError::CannotRollbackCommitted)
        } else {
            Err(
                AtomicError::InvalidTransition {
                    from: self.settlements[i].state.debug_text(),
                    to: "RolledBack".to_owned(),
                },
            )
        }
    }

    /// Roll back every open settlement whose deadline and grace period have
    /// passed; returns their IDs in creation order.
    pub fn process_timeouts(&mut self, now: u64) -> (r: Vec<String>)
        requires
            old(self).wf(),
            old(self).rolled_back() + old(self).all().len() <= u64::MAX,
        ensures
            final(self).wf(),
            final(self).committed() == old(self).committed(),
            final(self).failed() == old(self).failed(),
            final(self).all().len() == old(self).all().len(),
            forall|k: int| 0 <= k < old(self).all().len() ==> #[trigger] final(self).all()[k] == (if timed_out(
                old(self).all()[k],
                now,
            ) {
                AtomicSettlement { state: SettlementState::RolledBack, updated_at: now, ..old(self).all()[k] }
            } else {
                old(self).all()[k]
            }),
            r@.map_values(|s: String| s@) == old(self).all().filter(|s: AtomicSettlement| timed_out(s, now)).map_values(
                |s: AtomicSettlement| s.settlement_id@,
            ),
            final(self).rolled_back() == old(self).rolled_back() + r@.len(),
    {
        let mut rolled: Vec<String> = Vec::new();
        let ghost pred = |s: AtomicSettlement| timed_out(s, now);
        let ghost idf = |s: AtomicSettlement| s.settlement_id@;
        let ghost orig = self.settlements@;
        let mut i: usize = 0;
        while i < self.settlements.len()
            invariant
                0 <= i <= self.settlements@.len(),
                self.settlements@.len() == orig.len(),
                orig == old(self).settlements@,
                self.next_id == old(self).next_id,
                self.total_committed == old(self).total_committed,
                self.total_failed == old(self).total_failed,
                old(self).wf(),
                pred == (|s: AtomicSettlement| timed_out(s, now)),
                idf == (|s: AtomicSettlement| s.settlement_id@),
                forall|k: int| 0 <= k < orig.len() ==> #[trigger] self.settlements@[k].settlement_id@
                    == orig[k].settlement_id@,
                forall|k: int| 0 <= k < i ==> #[trigger] self.settlements@[k] == (if timed_out(orig[k], now) {
                    AtomicSettlement { state: SettlementState::RolledBack, updated_at: now, ..orig[k] }
                } else {
                    orig[k]
                }),
                forall|k: int| i <= k < orig.len() ==> #[trigger] self.settlements@[k] == orig[k],
                rolled@.map_values(|s: String| s@) == orig.take(i as int).filter(pred).map_values(idf),
                self.total_rolled_back == old(self).total_rolled_back + rolled@.len(),
                rolled@.len() <= i,
                old(self).total_rolled_back + orig.len() <= u64::MAX,
            decreases self.settlements@.len() - i,
        {
            reveal_with_fuel(Seq::<_>::filter, 1);
            assert(orig.take(i + 1).drop_last() =~= orig.take(i as int));
            let open = match self.settlements[i].state {
                SettlementState::Prepared | SettlementState::ProofReady => true,
                _ => false,
            };
            let deadline = self.settlements[i].deadline;
            let ghost before = rolled@;
            let ghost f = orig.take(i as int).filter(pred);
            if open && now > deadline && now - deadline > ROLLBACK_GRACE_SECS {
                assert(pred(orig[i as int]));
                assert(orig.take(i + 1).filter(pred) == f.push(orig[i as int]));
                assert(f.push(orig[i as int]).map_values(idf) =~= f.map_values(idf).push(idf(orig[i as int])));
                self.settlements[i].state = SettlementState::RolledBack;
                self.settlements[i].updated_at = now;
                self.total_rolled_back = self.total_rolled_back + 1;
                let id = self.settlements[i].settlement_id.clone();
                rolled.push(id);
                assert(rolled@.map_values(|s: String| s@) =~= before.map_values(|s: String| s@).push(
                    orig[i as int].settlement_id@,
                ));
            } else {
                assert(!pred(orig[i as int]));
                assert(orig.take(i + 1).filter(pred) == f);
            }
            assert(rolled@.map_values(|s: String| s@) =~= orig.take(i + 1).filter(pred).map_values(idf));
            i = i + 1;
        }
        assert(orig.take(orig.len() as int) =~= orig);
        rolled
    }

    /// The settlement with this ID, if any.
    pub fn get(&self, settlement_id: &str) -> (r: Option<&AtomicSettlement>)
        requires
            self.wf(),
        ensures
            match self.pos(settlement_id@) {
                Some(i) => r == Some(&self.all()[i]),
                None => r is None,
            },
    {
        match self.find(settlement_id) {
            Some(i) => Some(&self.settlements[i]),
            None => None,
        }
    }

    /// All settlements of a sender, in creation order.
    pub fn get_by_sender(&self, sender: &str) -> (r: Vec<&AtomicSettlement>)
        ensures
            r@.map_values(|p: &AtomicSettlement| *p) == self.all().filter(
                |s: AtomicSettlement| s.sender@ == sender@,
            ),
    {
        let key = sender.to_owned();
        let mut r: Vec<&AtomicSettlement> = Vec::new();
        let ghost pred = |s: AtomicSettlement| s.sender@ == sender@;
        let mut i: usize = 0;
        while i < self.settlements.len()
            invariant
                0 <= i <= self.settlements@.len(),
                key@ == sender@,
                pred == (|s: AtomicSettlement| s.sender@ == sender@),
                r@.map_values(|p: &AtomicSettlement| *p) == self.settlements@.take(i as int).filter(pred),
            decreases self.settlements@.len() - i,
        {
            reveal_with_fuel(Seq::<_>::filter, 1);
            assert(self.settlements@.take(i + 1).drop_last() =~= self.settlements@.take(i as int));
            if self.settlements[i].sender == key {
                r.push(&self.settlements[i]);
            }
            assert(r@.map_values(|p: &AtomicSettlement| *p) =~= self.settlements@.take(i + 1).filter(pred));
            i = i + 1;
        }
        assert(self.settlements@.take(self.settlements@.len() as int) =~= self.settlements@);
        r
    }

    /// Number of active (prepared, proof-ready or committed) settlements.
    pub fn active_count(&self) -> (r: usize)
        ensures
            r == count_active(self.all()),
    {
        let mut n: usize = 0;
        let mut i: usize = 0;
        while i < self.settlements.len()
            invariant
                0 <= i <= self.settlements@.len(),
                n == count_active(self.settlements@.take(i as int)),
                n <= i,
            decreases self.settlements@.len() - i,
        {
            assert(self.settlements@.take(i + 1).drop_last() =~= self.settlements@.take(i as int));
            let active = match self.settlements[i].state {
                SettlementState::Prepared | SettlementState::ProofReady | SettlementState::Committed => true,
                _ => false,
            };
            if active {
                n = n + 1;
            }
            i = i + 1;
        }
        assert(self.settlements@.take(self.settlements@.len() as int) =~= self.settlements@);
        n
    }

    /// The engine's counters.
    pub fn stats(&self) -> (r: AtomicStats)
        requires
            self.all().len() <= u64::MAX,
        ensures
            r == (AtomicStats {
                total_settlements: self.all().len() as u64,
                active: count_active(self.all()) as u64,
                committed: self.committed(),
                rolled_back: self.rolled_back(),
                failed: self.failed(),
            }),
    {
        let active = self.active_count();
        proof { lemma_count_active_le(self.settlements@); }
        AtomicStats {
            total_settlements: self.settlements.len() as u64,
            active: active as u64,
            committed: self.total_committed,
            rolled_back: self.total_rolled_back,
            failed: self.total_failed,
        }
    }

    /// The counters as a JSON object with the keys `active`, `committed`,
    /// `failed`, `rolled_back` and `total_settlements`, in that order.
    pub fn stats_json(&self) -> (r: String)
        requires
            self.all().len() <= u64::MAX,
        ensures
            r@ == stats_json_text(
                AtomicStats {
                    total_settlements: self.all().len() as u64,
                    active: count_active(self.all()) as u64,
                    committed: self.committed(),
                    rolled_back: self.rolled_back(),
                    failed: self.failed(),
                },
            ),
    {
        let s = self.stats();
        let mut out = prefixed_decimal("{\"active\":", s.active);
        out.append(prefixed_decimal(",\"committed\":", s.committed).as_str());
        out.append(prefixed_decimal(",\"failed\":", s.failed).as_str());
        out.append(prefixed_decimal(",\"rolled_back\":", s.rolled_back).as_str());
        out.append(prefixed_decimal(",\"total_settlements\":", s.total_settlements).as_str());
        out.append("}");
        out
    }
}

/// JSON rendering of an engine's counters.
pub open spec fn stats_json_text(s: AtomicStats) -> Seq<char> {
    "{\"active\":"@ + dec_chars(s.active as nat) + ",\"committed\":"@ + dec_chars(s.committed as nat)
        + ",\"failed\":"@ + dec_chars(s.failed as nat) + ",\"rolled_back\":"@ + dec_chars(s.rolled_back as nat)
        + ",\"total_settlements\":"@ + dec_chars(s.total_settlements as nat) + "}"@
}

proof fn lemma_count_active_le(s: Seq<AtomicSettlement>)
    ensures
        count_active(s) <= s.len(),
    decreases s.len(),
{
    if s.len() > 0 {
        lemma_count_active_le(s.drop_last());
    }
}

} // verus!
