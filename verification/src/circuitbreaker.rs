//! Emergency circuit breaker: pauses the bridge on repeated proof or
//! settlement failures, on a TVL drain, or at a guardian's request, and
//! resumes automatically after a cooldown for recoverable reasons.
use vstd::prelude::*;
use crate::text::{concat3, dec_chars, decimal, hex_chars, hex_prefix, str_debug, str_debug_spec};

verus! {

/// Consecutive proof failures that trigger a pause.
pub const PROOF_FAILURE_THRESHOLD: u32 = 5;
/// Consecutive settlement failures that trigger a pause.
pub const SETTLEMENT_FAILURE_THRESHOLD: u32 = 3;
/// Outflow within the drain window that triggers a pause ($1M in cents).
pub const TVL_DRAIN_LIMIT_CENTS: u64 = 100_000_000;
/// Sliding window for outflow accounting (5 minutes).
pub const DRAIN_WINDOW_SECS: u64 = 300;
/// Cooldown before an automatic resume (5 minutes).
pub const COOLDOWN_SECS: u64 = 300;
/// Longest pause before escalation (1 hour).
pub const MAX_PAUSE_DURATION_SECS: u64 = 3600;

/// Why the bridge was paused.
#[derive(Debug, PartialEq, Eq)]
pub enum PauseReason {
    ProofFailures { count: u32 },
    SettlementFailures { count: u32 },
    GuardianPause { guardian: String, message: String },
    TvlDrain { outflow_cents: u64, window_secs: u64 },
    ValidatorCompromise,
}

/// The `Debug` text of a pause reason.
pub open spec fn pause_text(r: PauseReason) -> Seq<char> {
    match r {
        PauseReason::ProofFailures { count } => "ProofFailures { count: "@ + dec_chars(count as nat) + " }"@,
        PauseReason::SettlementFailures { count } => "SettlementFailures { count: "@ + dec_chars(count as nat)
            + " }"@,
        PauseReason::GuardianPause { guardian, message } => "GuardianPause { guardian: "@ + str_debug_spec(guardian@)
            + ", message: "@ + str_debug_spec(message@) + " }"@,
        PauseReason::TvlDrain { outflow_cents, window_secs } => "TvlDrain { outflow_cents: "@ + dec_chars(
            outflow_cents as nat,
        ) + ", window_secs: "@ + dec_chars(window_secs as nat) + " }"@,
        PauseReason::ValidatorCompromise => "ValidatorCompromise"@,
    }
}

impl PauseReason {
    /// The reason as its `Debug` text.
    pub fn debug_text(&self) -> (r: String)
        ensures
            r@ == pause_text(*self),
    {
        match self {
            PauseReason::ProofFailures { count } => {
                let d = decimal(*count as u64);
                concat3("ProofFailures { count: ", d.as_str(), " }")
            },
            PauseReason::SettlementFailures { count } => {
                let d = decimal(*count as u64);
                concat3("SettlementFailures { count: ", d.as_str(), " }")
            },
            PauseReason::GuardianPause { guardian, message } => {
                let g = str_debug(guardian.as_str());
                let m = str_debug(message.as_str());
                let head = concat3("GuardianPause { guardian: ", g.as_str(), ", message: ");
                concat3(head.as_str(), m.as_str(), " }")
            },
            PauseReason::TvlDrain { outflow_cents, window_secs } => {
                let o = decimal(*outflow_cents);
                let w = decimal(*window_secs);
                let head = concat3("TvlDrain { outflow_cents: ", o.as_str(), ", window_secs: ");
                concat3(head.as_str(), w.as_str(), " }")
            },
            PauseReason::ValidatorCompromise => "ValidatorCompromise".to_owned(),
        }
    }
}


impl Clone for PauseReason {
    fn clone(&self) -> (r: Self)
        ensures
            r == *self,
    {
        match self {
            PauseReason::ProofFailures { count } => PauseReason::ProofFailures { count: *count },
            PauseReason::SettlementFailures { count } => PauseReason::SettlementFailures { count: *count },
            PauseReason::GuardianPause { guardian, message } => PauseReason::GuardianPause {
                guardian: guardian.clone(),
                message: message.clone(),
            },
            PauseReason::TvlDrain { outflow_cents, window_secs } => PauseReason::TvlDrain {
                outflow_cents: *outflow_cents,
                window_secs: *window_secs,
            },
            PauseReason::ValidatorCompromise => PauseReason::ValidatorCompromise,
        }
    }
}

/// Severity label of a pause reason.
pub open spec fn severity_spec(r: PauseReason) -> Seq<char> {
    match r {
        PauseReason::ProofFailures { .. } => "HIGH"@,
        PauseReason::SettlementFailures { .. } => "CRITICAL"@,
        PauseReason::GuardianPause { .. } => "MANUAL"@,
        PauseReason::TvlDrain { .. } => "CRITICAL"@,
        PauseReason::ValidatorCompromise => "EMERGENCY"@,
    }
}

/// Only failure-count pauses resume automatically.
pub open spec fn recoverable(r: PauseReason) -> bool {
    r is ProofFailures || r is SettlementFailures
}

impl PauseReason {
    /// Severity label.
    pub fn severity(&self) -> (r: &'static str)
        ensures
            r@ == severity_spec(*self),
    {
        match self {
            PauseReason::ProofFailures { .. } => "HIGH",
            PauseReason::SettlementFailures { .. } => "CRITICAL",
            PauseReason::GuardianPause { .. } => "MANUAL",
            PauseReason::TvlDrain { .. } => "CRITICAL",
            PauseReason::ValidatorCompromise => "EMERGENCY",
        }
    }

    /// Whether the pause may end without an operator.
    pub fn auto_recoverable(&self) -> (r: bool)
        ensures
            r == recoverable(*self),
    {
        match self {
            PauseReason::ProofFailures { .. } => true,
            PauseReason::SettlementFailures { .. } => true,
            PauseReason::GuardianPause { .. } => false,
            PauseReason::TvlDrain { .. } => false,
            PauseReason::ValidatorCompromise => false,
        }
    }
}

/// One recorded outflow.
#[derive(Debug, Clone, Copy, PartialEq, Eq)]
pub struct OutflowRecord {
    pub amount_cents: u64,
    pub timestamp: u64,
}

/// Circuit breaker errors.
#[derive(Debug, PartialEq)]
pub enum CircuitBreakerError {
    NotPaused,
    ManualResumeRequired { reason: String },
    UnauthorizedGuardian,
}

/// Outflows left once those older than the window are dropped from the front.
pub open spec fn evict(s: Seq<OutflowRecord>, now: u64) -> Seq<OutflowRecord>
    decreases s.len(),
{
    if s.len() > 0 && now - s[0].timestamp > DRAIN_WINDOW_SECS {
        evict(s.drop_first(), now)
    } else {
        s
    }
}

/// Sum of outflow amounts.
pub open spec fn sum_outflows(s: Seq<OutflowRecord>) -> int
    decreases s.len(),
{
    if s.len() == 0 {
        0
    } else {
        sum_outflows(s.drop_last()) + s.last().amount_cents
    }
}

/// The bridge's pause state.
#[derive(Debug)]
pub struct CircuitBreaker {
    pub paused: bool,
    pub pause_reason: Option<PauseReason>,
    pub paused_at: u64,
    pub consecutive_proof_failures: u64,
    pub consecutive_settlement_failures: u64,
    pub total_pauses: u64,
    pub outflows: std::collections::VecDeque<OutflowRecord>,
    pub guardians: Vec<[u8; 32]>,
}

impl CircuitBreaker {
    pub open spec fn paused_spec(&self) -> bool {
        self.paused
    }

    pub open spec fn reason(&self) -> Option<PauseReason> {
        self.pause_reason
    }

    pub open spec fn paused_at_spec(&self) -> u64 {
        self.paused_at
    }

    pub open spec fn proof_failures(&self) -> u64 {
        self.consecutive_proof_failures
    }

    pub open spec fn settlement_failures(&self) -> u64 {
        self.consecutive_settlement_failures
    }

    pub open spec fn pauses(&self) -> u64 {
        self.total_pauses
    }

    pub open spec fn outflow_seq(&self) -> Seq<OutflowRecord> {
        self.outflows@
    }

    pub open spec fn guardian_seq(&self) -> Seq<[u8; 32]> {
        self.guardians@
    }

    /// An operational breaker with no guardians and no history.
    pub fn new() -> (r: Self)
        ensures
            !r.paused_spec(),
            r.reason() is None,
            r.paused_at_spec() == 0,
            r.proof_failures() == 0,
            r.settlement_failures() == 0,
            r.pauses() == 0,
            r.outflow_seq().len() == 0,
            r.guardian_seq().len() == 0,
    {
        CircuitBreaker {
            paused: false,
            pause_reason: None,
            paused_at: 0,
            consecutive_proof_failures: 0,
            consecutive_settlement_failures: 0,
            total_pauses: 0,
            outflows: std::collections::VecDeque::new(),
            guardians: Vec::new(),
        }
    }

    /// Whether the bridge is paused.
    pub fn is_paused(&self) -> (r: bool)
        ensures
            r == self.paused_spec(),
    {
        self.paused
    }

    /// Whether the bridge accepts transfers.
    pub fn is_operational(&self) -> (r: bool)
        ensures
            r == !self.paused_spec(),
    {
        !self.is_paused()
    }

    /// The reason of the current pause, if any.
    pub fn pause_reason(&self) -> (r: Option<PauseReason>)
        ensures
            r == self.reason(),
    {
        match &self.pause_reason {
            Some(reason) => Some(reason.clone()),
            None => None,
        }
    }

    /// Number of pauses so far.
    pub fn total_pauses(&self) -> (r: u64)
        ensures
            r == self.pauses(),
    {
        self.total_pauses
    }

    fn pause(&mut self, reason: PauseReason, now: u64)
        requires
            old(self).pauses() < u64::MAX,
        ensures
            *final(self) == (CircuitBreaker {
                paused: true,
                paused_at: now,
                total_pauses: (old(self).total_pauses + 1) as u64,
                pause_reason: Some(reason),
                ..*old(self)
            }),
    {
        self.paused = true;
        self.paused_at = now;
        self.total_pauses = self.total_pauses + 1;
        self.pause_reason = Some(reason);
    }

    /// Resume; a non-recoverable pause needs `force`.
    pub fn resume(&mut self, force: bool) -> (r: Result<(), CircuitBreakerError>)
        ensures
            !old(self).paused_spec() ==> r == Err::<(), CircuitBreakerError>(CircuitBreakerError::NotPaused)
                && *final(self) == *old(self),
            old(self).paused_spec() && (old(self).reason() matches Some(pr) && !recoverable(pr)) && !force ==> (
            r matches Err(CircuitBreakerError::ManualResumeRequired { reason }) && reason@ == pause_text(old(self).reason()->0))
                && *final(self) == *old(self),
            old(self).paused_spec() && !((old(self).reason() matches Some(pr) && !recoverable(pr)) && !force) ==> r
                is Ok && *final(self) == (CircuitBreaker {
                paused: false,
                consecutive_proof_failures: 0,
                consecutive_settlement_failures: 0,
                pause_reason: None,
                ..*old(self)
            }),
    {
        if !self.is_paused() {
            return Err(CircuitBreakerError::NotPaused);
        }
        let blocked = match &self.pause_reason {
            Some(r) => !r.auto_recoverable() && !force,
            None => false,
        };
        if blocked {
            let text = match &self.pause_reason {
                Some(r) => r.debug_text(),
                None => String::new(),
            };
            return Err(CircuitBreakerError::ManualResumeRequired { reason: text });
        }
        self.paused = false;
        self.consecutive_proof_failures = 0;
        self.consecutive_settlement_failures = 0;
        self.pause_reason = None;
        Ok(())
    }

    fn is_guardian(&self, key: &[u8; 32]) -> (r: bool)
        ensures
            r == exists|i: int| 0 <= i < self.guardian_seq().len() && #[trigger] self.guardian_seq()[i]@ == key@,
    {
        let mut i: usize = 0;
        while i < self.guardians.len()
            invariant
                0 <= i <= self.guardians@.len(),
                forall|k: int| 0 <= k < i ==> self.guardians@[k]@ != key@,
            decreases self.guardians@.len() - i,
        {
            let g = &self.guardians[i];
            let mut j: usize = 0;
            let mut same = true;
            while j < 32
                invariant
                    0 <= j <= 32,
                    g@.len() == 32,
                    key@.len() == 32,
                    same == (forall|k: int| 0 <= k < j ==> g@[k] == key@[k]),
                decreases 32 - j,
            {
                if g[j] != key[j] {
                    same = false;
                }
                j = j + 1;
            }
            if same {
                assert(g@ =~= key@);
                assert(self.guardian_seq()[i as int]@ == key@);
                return true;
            }
            i = i + 1;
        }
        assert forall|k: int| 0 <= k < self.guardian_seq().len() implies #[trigger] self.guardian_seq()[k]@ != key@ by {
            assert(self.guardians@[k]@ != key@);
        }
        false
    }

    /// A registered guardian pauses the bridge; the reason names the first
    /// 8 bytes of the guardian's key hash in hex.
    pub fn guardian_pause(&mut self, guardian_key_hash: &[u8; 32], message: &str, now: u64) -> (r: Result<
        (),
        CircuitBreakerError,
    >)
        requires
            old(self).pauses() < u64::MAX,
        ensures
            !(exists|i: int| 0 <= i < old(self).guardian_seq().len() && #[trigger] old(self).guardian_seq()[i]@
                == guardian_key_hash@) ==> r == Err::<(), CircuitBreakerError>(
                CircuitBreakerError::UnauthorizedGuardian,
            ) && *final(self) == *old(self),
            (exists|i: int| 0 <= i < old(self).guardian_seq().len() && #[trigger] old(self).guardian_seq()[i]@
                == guardian_key_hash@) ==> {
                &&& r is Ok
                &&& final(self).reason() matches Some(PauseReason::GuardianPause { guardian, message: m })
                &&& guardian@ == hex_chars(guardian_key_hash@.take(8))
                &&& m@ == message@
                &&& final(self).paused_spec()
                &&& final(self).paused_at_spec() == now
                &&& final(self).pauses() == old(self).pauses() + 1
                &&& final(self).proof_failures() == old(self).proof_failures()
                &&& final(self).settlement_failures() == old(self).settlement_failures()
                &&& final(self).outflow_seq() == old(self).outflow_seq()
                &&& final(self).guardian_seq() == old(self).guardian_seq()
            },
    {
        if !self.is_guardian(guardian_key_hash) {
            return Err(CircuitBreakerError::UnauthorizedGuardian);
        }
        let guardian_hex = hex_prefix(guardian_key_hash, 8);
        self.pause(PauseReason::GuardianPause { guardian: guardian_hex, message: message.to_owned() }, now);
        Ok(())
    }

    /// Register a guardian key hash.
    pub fn add_guardian(&mut self, key_hash: [u8; 32])
        ensures
            *final(self) == (CircuitBreaker { guardians: final(self).guardians, ..*old(self) }),
            final(self).guardian_seq() == old(self).guardian_seq().push(key_hash),
    {
        self.guardians.push(key_hash);
    }

    /// A successful proof resets the failure streak; the
    /// `PROOF_FAILURE_THRESHOLD`-th consecutive failure (and every later one)
    /// pauses the bridge.
    pub fn record_proof_result(&mut self, success: bool, now: u64)
        requires
            !success ==> old(self).proof_failures() < u64::MAX,
            !success && old(self).proof_failures() + 1 >= PROOF_FAILURE_THRESHOLD ==> old(self).pauses() < u64::MAX,
        ensures
            success ==> *final(self) == (CircuitBreaker { consecutive_proof_failures: 0, ..*old(self) }),
            !success && old(self).proof_failures() + 1 < PROOF_FAILURE_THRESHOLD ==> *final(self) == (
            CircuitBreaker { consecutive_proof_failures: (old(self).proof_failures() + 1) as u64, ..*old(self) }),
            !success && old(self).proof_failures() + 1 >= PROOF_FAILURE_THRESHOLD ==> *final(self) == (
            CircuitBreaker {
                consecutive_proof_failures: (old(self).proof_failures() + 1) as u64,
                paused: true,
                paused_at: now,
                total_pauses: (old(self).pauses() + 1) as u64,
                pause_reason: Some(PauseReason::ProofFailures { count: (old(self).proof_failures() + 1) as u32 }),
                ..*old(self)
            }),
    {
        if success {
            self.consecutive_proof_failures = 0;
        } else {
            self.consecutive_proof_failures = self.consecutive_proof_failures + 1;
            let failures = self.consecutive_proof_failures;
            if failures >= PROOF_FAILURE_THRESHOLD as u64 {
                self.pause(PauseReason::ProofFailures { count: #[verifier::truncate] (failures as u32) }, now);
            }
        }
    }

    /// A successful settlement resets the failure streak; the
    /// `SETTLEMENT_FAILURE_THRESHOLD`-th consecutive failure (and every later
    /// one) pauses the bridge.
    pub fn record_settlement_result(&mut self, success: bool, now: u64)
        requires
            !success ==> old(self).settlement_failures() < u64::MAX,
            !success && old(self).settlement_failures() + 1 >= SETTLEMENT_FAILURE_THRESHOLD ==> old(self).pauses() < u64::MAX,
        ensures
            success ==> *final(self) == (CircuitBreaker { consecutive_settlement_failures: 0, ..*old(self) }),
            !success && old(self).settlement_failures() + 1 < SETTLEMENT_FAILURE_THRESHOLD ==> *final(self) == (
            CircuitBreaker {
                consecutive_settlement_failures: (old(self).settlement_failures() + 1) as u64,
                ..*old(self)
            }),
            !success && old(self).settlement_failures() + 1 >= SETTLEMENT_FAILURE_THRESHOLD ==> *final(self) == (
            CircuitBreaker {
                consecutive_settlement_failures: (old(self).settlement_failures() + 1) as u64,
                paused: true,
                paused_at: now,
                total_pauses: (old(self).pauses() + 1) as u64,
                pause_reason: Some(
                    PauseReason::SettlementFailures { count: (old(self).settlement_failures() + 1) as u32 },
                ),
                ..*old(self)
            }),
    {
        if success {
            self.consecutive_settlement_failures = 0;
        } else {
            self.consecutive_settlement_failures = self.consecutive_settlement_failures + 1;
            let failures = self.consecutive_settlement_failures;
            if failures >= SETTLEMENT_FAILURE_THRESHOLD as u64 {
                self.pause(PauseReason::SettlementFailures { count: #[verifier::truncate] (failures as u32) }, now);
            }
        }
    }

    /// Record an outflow: records older than the drain window are dropped
    /// from the front, the new one is appended, and a total above
    /// `TVL_DRAIN_LIMIT_CENTS` pauses the bridge.
    pub fn record_outflow(&mut self, amount_cents: u64, now: u64)
        requires
            forall|i: int| 0 <= i < old(self).outflow_seq().len() ==> #[trigger] old(self).outflow_seq()[i].timestamp
                <= now,
            sum_outflows(evict(old(self).outflow_seq(), now)) + amount_cents <= u64::MAX,
            sum_outflows(evict(old(self).outflow_seq(), now)) + amount_cents > TVL_DRAIN_LIMIT_CENTS ==> old(
                self,
            ).pauses() < u64::MAX,
        ensures
            ({
                let kept = evict(old(self).outflow_seq(), now).push(
                    OutflowRecord { amount_cents, timestamp: now },
                );
                let total = sum_outflows(kept);
                &&& final(self).outflow_seq() == kept
                &&& total > TVL_DRAIN_LIMIT_CENTS ==> *final(self) == (CircuitBreaker {
                    paused: true,
                    paused_at: now,
                    total_pauses: (old(self).pauses() + 1) as u64,
                    pause_reason: Some(
                        PauseReason::TvlDrain { outflow_cents: total as u64, window_secs: DRAIN_WINDOW_SECS },
                    ),
                    outflows: final(self).outflows,
                    ..*old(self)
                })
                &&& total <= TVL_DRAIN_LIMIT_CENTS ==> *final(self) == (CircuitBreaker {
                    outflows: final(self).outflows,
                    ..*old(self)
                })
            }),
    {
        proof { lemma_evict_suffix(self.outflows@, now); }
        while self.outflows.len() > 0 && now - self.outflows[0].timestamp > DRAIN_WINDOW_SECS
            invariant
                evict(self.outflows@, now) == evict(old(self).outflows@, now),
                forall|i: int| 0 <= i < self.outflows@.len() ==> #[trigger] self.outflows@[i].timestamp <= now,
                self.paused == old(self).paused,
                self.pause_reason == old(self).pause_reason,
                self.paused_at == old(self).paused_at,
                self.consecutive_proof_failures == old(self).consecutive_proof_failures,
                self.consecutive_settlement_failures == old(self).consecutive_settlement_failures,
                self.total_pauses == old(self).total_pauses,
                self.guardians == old(self).guardians,
            decreases self.outflows@.len(),
        {
            self.outflows.pop_front();
        }
        assert(evict(self.outflows@, now) == self.outflows@);
        self.outflows.push_back(OutflowRecord { amount_cents, timestamp: now });
        let ghost kept = self.outflows@;
        assert(kept.drop_last() =~= evict(old(self).outflows@, now));
        assert(sum_outflows(kept) == sum_outflows(evict(old(self).outflows@, now)) + amount_cents);
        let mut total: u64 = 0;
        let mut i: usize = 0;
        while i < self.outflows.len()
            invariant
                0 <= i <= self.outflows@.len(),
                self.outflows@ == kept,
                sum_outflows(kept) <= u64::MAX,
                total == sum_outflows(kept.take(i as int)),
            decreases kept.len() - i,
        {
            assert(kept.take(i + 1).drop_last() =~= kept.take(i as int));
            proof { lemma_sum_prefix(kept, i + 1); }
            total = total + self.outflows[i].amount_cents;
            i = i + 1;
        }
        assert(kept.take(kept.len() as int) =~= kept);
        if total > TVL_DRAIN_LIMIT_CENTS {
            self.pause(PauseReason::TvlDrain { outflow_cents: total, window_secs: DRAIN_WINDOW_SECS }, now);
        }
    }

    /// Resume a recoverable pause once the cooldown has elapsed; returns
    /// whether it resumed.
    pub fn check_auto_recovery(&mut self, now: u64) -> (r: bool)
        ensures
            ({
                let elapsed = if now >= old(self).paused_at_spec() { now - old(self).paused_at_spec() } else { 0 };
                let resumes = old(self).paused_spec() && elapsed >= COOLDOWN_SECS && (old(self).reason() matches Some(
                    pr,
                ) && recoverable(pr));
                &&& r == resumes
                &&& resumes ==> *final(self) == (CircuitBreaker {
                    paused: false,
                    consecutive_proof_failures: 0,
                    consecutive_settlement_failures: 0,
                    pause_reason: None,
                    ..*old(self)
                })
                &&& !resumes ==> *final(self) == *old(self)
            }),
    {
        if !self.is_paused() {
            return false;
        }
        let elapsed = now.saturating_sub(self.paused_at);
        if elapsed < COOLDOWN_SECS {
            return false;
        }
        let recover = match &self.pause_reason {
            Some(r) => r.auto_recoverable(),
            None => false,
        };
        if recover {
            self.paused = false;
            self.consecutive_proof_failures = 0;
            self.consecutive_settlement_failures = 0;
            self.pause_reason = None;
            return true;
        }
        false
    }
}

proof fn lemma_sum_prefix(s: Seq<OutflowRecord>, k: int)
    requires
        0 <= k <= s.len(),
    ensures
        sum_outflows(s.take(k)) <= sum_outflows(s),
    decreases s.len(),
{
    if k < s.len() {
        lemma_sum_prefix(s.drop_last(), k);
        assert(s.drop_last().take(k) =~= s.take(k));
    } else {
        assert(s.take(k) =~= s);
    }
}

proof fn lemma_evict_suffix(s: Seq<OutflowRecord>, now: u64)
    ensures
        evict(s, now).len() <= s.len(),
    decreases s.len(),
{
    if s.len() > 0 && now - s[0].timestamp > DRAIN_WINDOW_SECS {
        lemma_evict_suffix(s.drop_first(), now);
    }
}

} // verus!
