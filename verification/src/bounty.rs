//! Bug bounty program: submission lifecycle and reward payout.
use vstd::prelude::*;
use crate::text::{concat3, dec_chars, decimal, str_debug, str_debug_spec};

verus! {

pub const CRITICAL_MIN: u64 = 100_000;
pub const CRITICAL_MAX: u64 = 500_000;
pub const HIGH_MIN: u64 = 10_000;
pub const HIGH_MAX: u64 = 100_000;
pub const MEDIUM_MIN: u64 = 1_000;
pub const MEDIUM_MAX: u64 = 10_000;
pub const LOW_MIN: u64 = 100;
pub const LOW_MAX: u64 = 1_000;

/// Severity of a reported vulnerability.
#[derive(Debug, Clone, Copy, PartialEq, Eq, Structural)]
pub enum Severity {
    Critical,
    High,
    Medium,
    Low,
}

/// Reward range `(min, max)` in USD for a severity.
pub open spec fn reward_range_spec(s: Severity) -> (u64, u64) {
    match s {
        Severity::Critical => (CRITICAL_MIN, CRITICAL_MAX),
        Severity::High => (HIGH_MIN, HIGH_MAX),
        Severity::Medium => (MEDIUM_MIN, MEDIUM_MAX),
        Severity::Low => (LOW_MIN, LOW_MAX),
    }
}

/// Name of a severity.
pub open spec fn severity_name_spec(s: Severity) -> Seq<char> {
    match s {
        Severity::Critical => "CRITICAL"@,
        Severity::High => "HIGH"@,
        Severity::Medium => "MEDIUM"@,
        Severity::Low => "LOW"@,
    }
}

impl Severity {
    /// Reward range `(min, max)` in USD.
    pub fn reward_range(&self) -> (r: (u64, u64))
        ensures
            r == reward_range_spec(*self),
    {
        match self {
            Severity::Critical => (CRITICAL_MIN, CRITICAL_MAX),
            Severity::High => (HIGH_MIN, HIGH_MAX),
            Severity::Medium => (MEDIUM_MIN, MEDIUM_MAX),
            Severity::Low => (LOW_MIN, LOW_MAX),
        }
    }

    /// Upper-case name.
    pub fn name(&self) -> (r: &'static str)
        ensures
            r@ == severity_name_spec(*self),
    {
        match self {
            Severity::Critical => "CRITICAL",
            Severity::High => "HIGH",
            Severity::Medium => "MEDIUM",
            Severity::Low => "LOW",
        }
    }

    /// Hours within which a first response is due.
    pub fn response_sla_hours(&self) -> (r: u32)
        ensures
            r == (match *self {
                Severity::Critical => 4u32,
                Severity::High => 24,
                Severity::Medium => 72,
                Severity::Low => 168,
            }),
    {
        match self {
            Severity::Critical => 4,
            Severity::High => 24,
            Severity::Medium => 72,
            Severity::Low => 168,
        }
    }
}

/// Status of a submission.
#[derive(Debug, Clone, PartialEq, Eq)]
pub enum SubmissionStatus {
    Pending,
    Triaging,
    Confirmed,
    RewardPending { amount: u64 },
    Paid { amount: u64 },
    Rejected { reason: String },
    Duplicate { original_id: u64 },
}

/// The `Debug` text of a submission status.
pub open spec fn status_text(s: SubmissionStatus) -> Seq<char> {
    match s {
        SubmissionStatus::Pending => "Pending"@,
        SubmissionStatus::Triaging => "Triaging"@,
        SubmissionStatus::Confirmed => "Confirmed"@,
        SubmissionStatus::RewardPending { amount } => "RewardPending { amount: "@ + dec_chars(amount as nat) + " }"@,
        SubmissionStatus::Paid { amount } => "Paid { amount: "@ + dec_chars(amount as nat) + " }"@,
        SubmissionStatus::Rejected { reason } => "Rejected { reason: "@ + str_debug_spec(reason@) + " }"@,
        SubmissionStatus::Duplicate { original_id } => "Duplicate { original_id: "@ + dec_chars(original_id as nat)
            + " }"@,
    }
}

impl SubmissionStatus {
    /// The status as its `Debug` text.
    pub fn debug_text(&self) -> (r: String)
        ensures
            r@ == status_text(*self),
    {
        match self {
            SubmissionStatus::Pending => "Pending".to_owned(),
            SubmissionStatus::Triaging => "Triaging".to_owned(),
            SubmissionStatus::Confirmed => "Confirmed".to_owned(),
            SubmissionStatus::RewardPending { amount } => {
                let d = decimal(*amount);
                concat3("RewardPending { amount: ", d.as_str(), " }")
            },
            SubmissionStatus::Paid { amount } => {
                let d = decimal(*amount);
                concat3("Paid { amount: ", d.as_str(), " }")
            },
            SubmissionStatus::Rejected { reason } => {
                let d = str_debug(reason.as_str());
                concat3("Rejected { reason: ", d.as_str(), " }")
            },
            SubmissionStatus::Duplicate { original_id } => {
                let d = decimal(*original_id);
                concat3("Duplicate { original_id: ", d.as_str(), " }")
            },
        }
    }
}


/// A vulnerability report.
#[derive(Debug, Clone)]
pub struct Submission {
    pub id: u64,
    pub reporter: String,
    pub severity: Severity,
    pub title: String,
    pub description: String,
    pub proof_of_concept: String,
    pub status: SubmissionStatus,
    pub submitted_at: u64,
    pub resolved_at: Option<u64>,
    pub affected_component: String,
}

/// Bounty errors.
#[derive(Debug, PartialEq)]
pub enum BountyError {
    SubmissionNotFound { id: u64 },
    InvalidTransition { from: String, to: String },
    RewardOutOfRange { amount: u64, min: u64, max: u64 },
}

/// Counts of submissions by severity and by status.
#[derive(Debug)]
pub struct BountyStats {
    pub total_submissions: u64,
    pub total_paid: u64,
    /// `(name, count)` for each severity, in the order Critical, High, Medium, Low.
    pub by_severity: Vec<(&'static str, u64)>,
    /// `(name, count)` for each status, in declaration order.
    pub by_status: Vec<(&'static str, u64)>,
}

/// Number of submissions in `s` with severity `sev`.
pub open spec fn count_severity(s: Seq<Submission>, sev: Severity) -> nat
    decreases s.len(),
{
    if s.len() == 0 {
        0
    } else {
        count_severity(s.drop_last(), sev) + if s.last().severity == sev { 1nat } else { 0nat }
    }
}

/// Index of a status variant in declaration order.
pub open spec fn status_index(st: SubmissionStatus) -> int {
    match st {
        SubmissionStatus::Pending => 0,
        SubmissionStatus::Triaging => 1,
        SubmissionStatus::Confirmed => 2,
        SubmissionStatus::RewardPending { .. } => 3,
        SubmissionStatus::Paid { .. } => 4,
        SubmissionStatus::Rejected { .. } => 5,
        SubmissionStatus::Duplicate { .. } => 6,
    }
}

/// Number of submissions in `s` whose status has index `k`.
pub open spec fn count_status(s: Seq<Submission>, k: int) -> nat
    decreases s.len(),
{
    if s.len() == 0 {
        0
    } else {
        count_status(s.drop_last(), k) + if status_index(s.last().status) == k { 1nat } else { 0nat }
    }
}

/// Registry of bounty submissions; IDs are assigned from 1 upwards.
pub struct BountyRegistry {
    submissions: Vec<Submission>,
    next_id: u64,
    pub total_paid: u64,
    pub total_submissions: u64,
}

impl BountyRegistry {
    /// All submissions; the one with ID `k` is at position `k - 1`.
    pub closed spec fn subs(&self) -> Seq<Submission> {
        self.submissions@
    }

    /// Total paid out so far.
    pub closed spec fn paid(&self) -> u64 {
        self.total_paid
    }

    /// Number of submissions ever made.
    pub closed spec fn submitted(&self) -> u64 {
        self.total_submissions
    }

    /// Submission IDs are consecutive from 1.
    pub closed spec fn wf(&self) -> bool {
        &&& self.next_id == self.submissions@.len() + 1
        &&& forall|i: int| 0 <= i < self.submissions@.len() ==> #[trigger] self.submissions@[i].id == i + 1
    }

    /// A submission with this ID exists.
    pub open spec fn has(&self, id: u64) -> bool {
        1 <= id <= self.subs().len()
    }

    /// The submission with this ID.
    pub open spec fn sub(&self, id: u64) -> Submission {
        self.subs()[id - 1]
    }

    /// Registry state after replacing submission `id` by `s`.
    pub open spec fn with_sub(old: Seq<Submission>, id: u64, s: Submission) -> Seq<Submission> {
        old.update(id - 1, s)
    }

    /// An empty registry.
    pub fn new() -> (r: Self)
        ensures
            r.wf(),
            r.subs() == Seq::<Submission>::empty(),
            r.paid() == 0,
            r.submitted() == 0,
    {
        BountyRegistry { submissions: Vec::new(), next_id: 1, total_paid: 0, total_submissions: 0 }
    }

    /// Record a new report in `Pending` status; returns its ID.
    pub fn submit(
        &mut self,
        reporter: &str,
        severity: Severity,
        title: &str,
        description: &str,
        proof_of_concept: &str,
        affected_component: &str,
        now: u64,
    ) -> (id: u64)
        requires
            old(self).wf(),
            old(self).subs().len() + 1 < u64::MAX,
            old(self).submitted() < u64::MAX,
        ensures
            final(self).wf(),
            id == old(self).subs().len() + 1,
            final(self).subs().len() == old(self).subs().len() + 1,
            final(self).subs().drop_last() == old(self).subs(),
            final(self).subs().last().id == id,
            final(self).subs().last().reporter@ == reporter@,
            final(self).subs().last().severity == severity,
            final(self).subs().last().title@ == title@,
            final(self).subs().last().description@ == description@,
            final(self).subs().last().proof_of_concept@ == proof_of_concept@,
            final(self).subs().last().affected_component@ == affected_component@,
            final(self).subs().last().status == SubmissionStatus::Pending,
            final(self).subs().last().submitted_at == now,
            final(self).subs().last().resolved_at == None::<u64>,
            final(self).submitted() == old(self).submitted() + 1,
            final(self).paid() == old(self).paid(),
    {
        let id = self.next_id;
        self.next_id = self.next_id + 1;
        self.total_submissions = self.total_submissions + 1;
        let submission = Submission {
            id,
            reporter: reporter.to_owned(),
            severity,
            title: title.to_owned(),
            description: description.to_owned(),
            proof_of_concept: proof_of_concept.to_owned(),
            status: SubmissionStatus::Pending,
            submitted_at: now,
            resolved_at: None,
            affected_component: affected_component.to_owned(),
        };
        self.submissions.push(submission);
        assert(self.submissions@.drop_last() =~= old(self).submissions@);
        id
    }

    /// `Pending` → `Triaging`.
    pub fn triage(&mut self, id: u64) -> (r: Result<(), BountyError>)
        requires
            old(self).wf(),
        ensures
            final(self).wf(),
            final(self).paid() == old(self).paid(),
            final(self).submitted() == old(self).submitted(),
            !old(self).has(id) ==> r == Err::<(), BountyError>(BountyError::SubmissionNotFound { id })
                && final(self).subs() == old(self).subs(),
            old(self).has(id) && old(self).sub(id).status != SubmissionStatus::Pending ==> (r matches Err(
                BountyError::InvalidTransition { from, to },
            ) && to@ == "Triaging"@ && from@ == status_text(old(self).sub(id).status)) && final(self).subs() == old(self).subs(),
            old(self).has(id) && old(self).sub(id).status == SubmissionStatus::Pending ==> r is Ok
                && final(self).subs() == Self::with_sub(
                old(self).subs(),
                id,
                Submission { status: SubmissionStatus::Triaging, ..old(self).sub(id) },
            ),
    {
        if !(id >= 1 && id <= self.submissions.len() as u64) {
            return Err(BountyError::SubmissionNotFound { id });
        }
        let i = (id - 1) as usize;
        assert(self.submissions@[i as int] == old(self).sub(id));
        let pending = match self.submissions[i].status {
            SubmissionStatus::Pending => true,
            _ => false,
        };
        if !pending {
            return Err(
                BountyError::InvalidTransition {
                    from: self.submissions[i].status.debug_text(),
                    to: "Triaging".to_owned(),
                },
            );
        }
        self.submissions[i].status = SubmissionStatus::Triaging;
        Ok(())
    }
    /// `Triaging` → `RewardPending { amount }` once the reward lies within
    /// the severity's range.
    pub fn confirm(&mut self, id: u64, reward_amount: u64) -> (r: Result<(), BountyError>)
        requires
            old(self).wf(),
        ensures
            final(self).wf(),
            final(self).paid() == old(self).paid(),
            final(self).submitted() == old(self).submitted(),
            !old(self).has(id) ==> r == Err::<(), BountyError>(BountyError::SubmissionNotFound { id })
                && final(self).subs() == old(self).subs(),
            old(self).has(id) && old(self).sub(id).status != SubmissionStatus::Triaging ==> (r matches Err(
                BountyError::InvalidTransition { from, to },
            ) && to@ == "Confirmed"@ && from@ == status_text(old(self).sub(id).status)) && final(self).subs() == old(self).subs(),
            old(self).has(id) && old(self).sub(id).status == SubmissionStatus::Triaging ==> {
                let (min, max) = reward_range_spec(old(self).sub(id).severity);
                if reward_amount < min || reward_amount > max {
                    r == Err::<(), BountyError>(BountyError::RewardOutOfRange { amount: reward_amount, min, max })
                        && final(self).subs() == old(self).subs()
                } else {
                    r is Ok && final(self).subs() == Self::with_sub(
                        old(self).subs(),
                        id,
                        Submission { status: SubmissionStatus::RewardPending { amount: reward_amount }, ..old(self).sub(id) },
                    )
                }
            },
    {
        if !(id >= 1 && id <= self.submissions.len() as u64) {
            return Err(BountyError::SubmissionNotFound { id });
        }
        let i = (id - 1) as usize;
        let triaging = match self.submissions[i].status {
            SubmissionStatus::Triaging => true,
            _ => false,
        };
        if !triaging {
            return Err(
                BountyError::InvalidTransition {
                    from: self.submissions[i].status.debug_text(),
                    to: "Confirmed".to_owned(),
                },
            );
        }
        let (min, max) = self.submissions[i].severity.reward_range();
        if reward_amount < min || reward_amount > max {
            return Err(BountyError::RewardOutOfRange { amount: reward_amount, min, max });
        }
        self.submissions[i].status = SubmissionStatus::RewardPending { amount: reward_amount };
        Ok(())
    }

    /// `RewardPending { amount }` → `Paid { amount }`; adds the amount to the
    /// total paid and returns it.
    pub fn pay(&mut self, id: u64, now: u64) -> (r: Result<u64, BountyError>)
        requires
            old(self).wf(),
            old(self).has(id) ==> (old(self).sub(id).status matches SubmissionStatus::RewardPending { amount }
                ==> old(self).paid() + amount <= u64::MAX),
        ensures
            final(self).wf(),
            final(self).submitted() == old(self).submitted(),
            !old(self).has(id) ==> r == Err::<u64, BountyError>(BountyError::SubmissionNotFound { id })
                && final(self).subs() == old(self).subs() && final(self).paid() == old(self).paid(),
            old(self).has(id) ==> match old(self).sub(id).status {
                SubmissionStatus::RewardPending { amount } => {
                    &&& r == Ok::<u64, BountyError>(amount)
                    &&& final(self).paid() == old(self).paid() + amount
                    &&& final(self).subs() == Self::with_sub(
                        old(self).subs(),
                        id,
                        Submission { status: SubmissionStatus::Paid { amount }, resolved_at: Some(now), ..old(self).sub(id) },
                    )
                },
                _ => (r matches Err(BountyError::InvalidTransition { from, to }) && to@ == "Paid"@ && from@ == status_text(old(self).sub(id).status))
                    && final(self).subs() == old(self).subs() && final(self).paid() == old(self).paid(),
            },
    {
        if !(id >= 1 && id <= self.submissions.len() as u64) {
            return Err(BountyError::SubmissionNotFound { id });
        }
        let i = (id - 1) as usize;
        let amount = match self.submissions[i].status {
            SubmissionStatus::RewardPending { amount } => amount,
            _ => {
                return Err(
                    BountyError::InvalidTransition {
                        from: self.submissions[i].status.debug_text(),
                        to: "Paid".to_owned(),
                    },
                );
            },
        };
        self.submissions[i].status = SubmissionStatus::Paid { amount };
        self.submissions[i].resolved_at = Some(now);
        self.total_paid = self.total_paid + amount;
        Ok(amount)
    }

    /// Reject a submission (from any status) with a reason.
    pub fn reject(&mut self, id: u64, reason: &str, now: u64) -> (r: Result<(), BountyError>)
        requires
            old(self).wf(),
        ensures
            final(self).wf(),
            final(self).paid() == old(self).paid(),
            final(self).submitted() == old(self).submitted(),
            !old(self).has(id) ==> r == Err::<(), BountyError>(BountyError::SubmissionNotFound { id })
                && final(self).subs() == old(self).subs(),
            old(self).has(id) ==> r is Ok && final(self).subs().len() == old(self).subs().len() && (forall|k: u64|
                #[trigger] old(self).has(k) && k != id ==> final(self).sub(k) == old(self).sub(k)) && (
            final(self).sub(id).status matches SubmissionStatus::Rejected { reason: rr } && rr@ == reason@)
                && final(self).sub(id) == (Submission {
                status: final(self).sub(id).status,
                resolved_at: Some(now),
                ..old(self).sub(id)
            }),
    {
        if !(id >= 1 && id <= self.submissions.len() as u64) {
            return Err(BountyError::SubmissionNotFound { id });
        }
        let i = (id - 1) as usize;
        self.submissions[i].status = SubmissionStatus::Rejected { reason: reason.to_owned() };
        self.submissions[i].resolved_at = Some(now);
        Ok(())
    }

    /// Mark a submission as a duplicate of an existing one.
    pub fn mark_duplicate(&mut self, id: u64, original_id: u64, now: u64) -> (r: Result<(), BountyError>)
        requires
            old(self).wf(),
        ensures
            final(self).wf(),
            final(self).paid() == old(self).paid(),
            final(self).submitted() == old(self).submitted(),
            !old(self).has(original_id) ==> r == Err::<(), BountyError>(
                BountyError::SubmissionNotFound { id: original_id },
            ) && final(self).subs() == old(self).subs(),
            old(self).has(original_id) && !old(self).has(id) ==> r == Err::<(), BountyError>(
                BountyError::SubmissionNotFound { id },
            ) && final(self).subs() == old(self).subs(),
            old(self).has(original_id) && old(self).has(id) ==> r is Ok && final(self).subs() == Self::with_sub(
                old(self).subs(),
                id,
                Submission {
                    status: SubmissionStatus::Duplicate { original_id },
                    resolved_at: Some(now),
                    ..old(self).sub(id)
                },
            ),
    {
        if !(original_id >= 1 && original_id <= self.submissions.len() as u64) {
            return Err(BountyError::SubmissionNotFound { id: original_id });
        }
        if !(id >= 1 && id <= self.submissions.len() as u64) {
            return Err(BountyError::SubmissionNotFound { id });
        }
        let i = (id - 1) as usize;
        self.submissions[i].status = SubmissionStatus::Duplicate { original_id };
        self.submissions[i].resolved_at = Some(now);
        Ok(())
    }

    /// The submission with this ID, if any.
    pub fn get(&self, id: u64) -> (r: Option<&Submission>)
        requires
            self.wf(),
        ensures
            self.has(id) ==> r == Some(&self.sub(id)),
            !self.has(id) ==> r is None,
    {
        if id >= 1 && id <= self.submissions.len() as u64 {
            Some(&self.submissions[(id - 1) as usize])
        } else {
            None
        }
    }

    /// Submissions still in `Pending` status, in ID order.
    pub fn by_status_pending(&self) -> (r: Vec<&Submission>)
        ensures
            r@.map_values(|p: &Submission| *p) == self.subs().filter(|s: Submission| s.status is Pending),
    {
        let mut r: Vec<&Submission> = Vec::new();
        let ghost pred = |s: Submission| s.status is Pending;
        let mut i: usize = 0;
        while i < self.submissions.len()
            invariant
                0 <= i <= self.submissions@.len(),
                pred == (|s: Submission| s.status is Pending),
                r@.map_values(|p: &Submission| *p) == self.submissions@.take(i as int).filter(pred),
            decreases self.submissions@.len() - i,
        {
            reveal_with_fuel(Seq::<_>::filter, 1);
            assert(self.submissions@.take(i + 1).drop_last() =~= self.submissions@.take(i as int));
            let is_pending = match self.submissions[i].status {
                SubmissionStatus::Pending => true,
                _ => false,
            };
            if is_pending {
                r.push(&self.submissions[i]);
            }
            assert(r@.map_values(|p: &Submission| *p) =~= self.submissions@.take(i + 1).filter(pred));
            i = i + 1;
        }
        assert(self.submissions@.take(self.submissions@.len() as int) =~= self.submissions@);
        r
    }

    /// Submissions of the given severity, in ID order.
    pub fn by_severity(&self, severity: &Severity) -> (r: Vec<&Submission>)
        ensures
            r@.map_values(|p: &Submission| *p) == self.subs().filter(|s: Submission| s.severity == *severity),
    {
        let mut r: Vec<&Submission> = Vec::new();
        let ghost pred = |s: Submission| s.severity == *severity;
        let mut i: usize = 0;
        while i < self.submissions.len()
            invariant
                0 <= i <= self.submissions@.len(),
                pred == (|s: Submission| s.severity == *severity),
                r@.map_values(|p: &Submission| *p) == self.submissions@.take(i as int).filter(pred),
            decreases self.submissions@.len() - i,
        {
            reveal_with_fuel(Seq::<_>::filter, 1);
            assert(self.submissions@.take(i + 1).drop_last() =~= self.submissions@.take(i as int));
            if self.submissions[i].severity == *severity {
                r.push(&self.submissions[i]);
            }
            assert(r@.map_values(|p: &Submission| *p) =~= self.submissions@.take(i + 1).filter(pred));
            i = i + 1;
        }
        assert(self.submissions@.take(self.submissions@.len() as int) =~= self.submissions@);
        r
    }

    /// Totals plus counts by severity and by status.
    pub fn stats(&self) -> (r: BountyStats)
        requires
            self.subs().len() <= u64::MAX,
        ensures
            r.total_submissions == self.submitted(),
            r.total_paid == self.paid(),
            r.by_severity@.len() == 4,
            r.by_severity@[0].0@ == "CRITICAL"@ && r.by_severity@[0].1 == count_severity(self.subs(), Severity::Critical),
            r.by_severity@[1].0@ == "HIGH"@ && r.by_severity@[1].1 == count_severity(self.subs(), Severity::High),
            r.by_severity@[2].0@ == "MEDIUM"@ && r.by_severity@[2].1 == count_severity(self.subs(), Severity::Medium),
            r.by_severity@[3].0@ == "LOW"@ && r.by_severity@[3].1 == count_severity(self.subs(), Severity::Low),
            r.by_status@.len() == 7,
            r.by_status@[0].0@ == "pending"@,
            r.by_status@[1].0@ == "triaging"@,
            r.by_status@[2].0@ == "confirmed"@,
            r.by_status@[3].0@ == "reward_pending"@,
            r.by_status@[4].0@ == "paid"@,
            r.by_status@[5].0@ == "rejected"@,
            r.by_status@[6].0@ == "duplicate"@,
            forall|k: int| 0 <= k < 7 ==> #[trigger] r.by_status@[k].1 == count_status(self.subs(), k),
    {
        let mut sev: [u64; 4] = [0, 0, 0, 0];
        let mut st: [u64; 7] = [0, 0, 0, 0, 0, 0, 0];
        let mut i: usize = 0;
        while i < self.submissions.len()
            invariant
                0 <= i <= self.submissions@.len(),
                self.submissions@.len() <= u64::MAX,
                sev@.len() == 4,
                st@.len() == 7,
                sev@[0] == count_severity(self.submissions@.take(i as int), Severity::Critical),
                sev@[1] == count_severity(self.submissions@.take(i as int), Severity::High),
                sev@[2] == count_severity(self.submissions@.take(i as int), Severity::Medium),
                sev@[3] == count_severity(self.submissions@.take(i as int), Severity::Low),
                forall|k: int| 0 <= k < 7 ==> #[trigger] st@[k] == count_status(self.submissions@.take(i as int), k),
                forall|k: int| 0 <= k < 4 ==> #[trigger] sev@[k] <= i,
                forall|k: int| 0 <= k < 7 ==> #[trigger] st@[k] <= i,
            decreases self.submissions@.len() - i,
        {
            let ghost prev = self.submissions@.take(i as int);
            assert(self.submissions@.take(i + 1).drop_last() =~= prev);
            let k: usize = match self.submissions[i].severity {
                Severity::Critical => 0,
                Severity::High => 1,
                Severity::Medium => 2,
                Severity::Low => 3,
            };
            sev[k] = sev[k] + 1;
            let j: usize = match self.submissions[i].status {
                SubmissionStatus::Pending => 0,
                SubmissionStatus::Triaging => 1,
                SubmissionStatus::Confirmed => 2,
                SubmissionStatus::RewardPending { .. } => 3,
                SubmissionStatus::Paid { .. } => 4,
                SubmissionStatus::Rejected { .. } => 5,
                SubmissionStatus::Duplicate { .. } => 6,
            };
            st[j] = st[j] + 1;
            i = i + 1;
        }
        assert(self.submissions@.take(self.submissions@.len() as int) =~= self.submissions@);
        let mut by_severity: Vec<(&'static str, u64)> = Vec::new();
        by_severity.push(("CRITICAL", sev[0]));
        by_severity.push(("HIGH", sev[1]));
        by_severity.push(("MEDIUM", sev[2]));
        by_severity.push(("LOW", sev[3]));
        let mut by_status: Vec<(&'static str, u64)> = Vec::new();
        by_status.push(("pending", st[0]));
        by_status.push(("triaging", st[1]));
        by_status.push(("confirmed", st[2]));
        by_status.push(("reward_pending", st[3]));
        by_status.push(("paid", st[4]));
        by_status.push(("rejected", st[5]));
        by_status.push(("duplicate", st[6]));
        BountyStats { total_submissions: self.total_submissions, total_paid: self.total_paid, by_severity, by_status }
    }
}

} // verus!
