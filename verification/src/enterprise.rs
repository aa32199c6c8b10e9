//! Enterprise controls: destination whitelists, per-transaction, daily and
//! monthly spend limits, delayed settlement and N-of-M approval of large
//! transfers.
use vstd::prelude::*;
use vstd::string::StringExecFns;
use crate::arith::sat_sub_spec;
use crate::keyed::{has_key, keyed_map, lemma_keyed_at, lemma_keyed_empty, lemma_keyed_len, lemma_keyed_push, lemma_keyed_remove, lemma_keyed_update, unique_keys};
use crate::text::{dec_chars, decimal, lemma_prefixed_injective, prefixed_decimal};

verus! {

/// Default daily spend limit in USD cents.
pub const DEFAULT_DAILY_LIMIT_CENTS: u64 = 100_000_000;
/// Default monthly spend limit in USD cents.
pub const DEFAULT_MONTHLY_LIMIT_CENTS: u64 = 1_000_000_000;
/// Default per-transaction limit in USD cents.
pub const DEFAULT_PER_TX_LIMIT_CENTS: u64 = 50_000_000;
/// Default hold period before settlement, in seconds.
pub const DEFAULT_HOLD_PERIOD_SECS: u64 = 3600;
/// Transfers from this amount (USD cents) up need approvals.
pub const LARGE_TRANSFER_THRESHOLD_CENTS: u64 = 10_000_000;
/// Most approvers an organization may have.
pub const MAX_APPROVERS: usize = 20;
/// Seconds after which the daily spend restarts.
pub const DAY_SECS: u64 = 86_400;
/// Seconds after which the monthly spend restarts.
pub const MONTH_SECS: u64 = 2_592_000;

pub open spec fn string_key() -> spec_fn(String) -> Seq<char> {
    |s: String| s@
}

/// A set of addresses.
#[derive(Debug)]
pub struct AddressSet {
    items: Vec<String>,
}

impl AddressSet {
    /// No address occurs twice.
    #[verifier::type_invariant]
    spec fn no_repeats(self) -> bool {
        unique_keys(self.items@, string_key())
    }

    /// The addresses in the set.
    pub closed spec fn view_set(self) -> Set<Seq<char>> {
        keyed_map(self.items@, string_key()).dom()
    }

    /// The empty set.
    pub fn new() -> (r: Self)
        ensures
            r.view_set() == Set::<Seq<char>>::empty(),
    {
        proof {
            lemma_keyed_empty(string_key());
        }
        let r = AddressSet { items: Vec::new() };
        assert(r.items@ =~= Seq::<String>::empty());
        r
    }

    fn find(&self, a: &str) -> (r: Option<usize>)
        ensures
            match r {
                Some(i) => i < self.items@.len() && self.items@[i as int]@ == a@,
                None => !has_key(self.items@, string_key(), a@),
            },
    {
        let key = a.to_owned();
        let mut i: usize = 0;
        while i < self.items.len()
            invariant
                0 <= i <= self.items@.len(),
                key@ == a@,
                forall|k: int| 0 <= k < i ==> (#[trigger] self.items@[k])@ != a@,
            decreases self.items@.len() - i,
        {
            if self.items[i] == key {
                return Some(i);
            }
            i = i + 1;
        }
        None
    }

    /// Whether the address is in the set.
    pub fn contains(&self, a: &str) -> (r: bool)
        ensures
            r == self.view_set().contains(a@),
    {
        proof {
            use_type_invariant(self);
        }
        match self.find(a) {
            Some(i) => {
                proof {
                    lemma_keyed_at(self.items@, string_key(), i as int);
                }
                true
            },
            None => false,
        }
    }

    /// Add an address.
    pub fn insert(&mut self, a: &str)
        ensures
            final(self).view_set() == old(self).view_set().insert(a@),
    {
        proof {
            use_type_invariant(&*self);
        }
        match self.find(a) {
            Some(i) => {
                proof {
                    lemma_keyed_at(self.items@, string_key(), i as int);
                    assert(old(self).view_set().insert(a@) =~= old(self).view_set());
                }
            },
            None => {
                let mut items = Vec::new();
                std::mem::swap(&mut items, &mut self.items);
                let ghost before = items@;
                let s = a.to_owned();
                proof {
                    lemma_keyed_push(before, string_key(), s);
                }
                items.push(s);
                self.items = items;
                proof {
                    assert(keyed_map(before, string_key()).insert(a@, s).dom() =~= keyed_map(before, string_key()).dom().insert(
                        a@,
                    ));
                }
            },
        }
    }

    /// Remove an address.
    pub fn remove(&mut self, a: &str)
        ensures
            final(self).view_set() == old(self).view_set().remove(a@),
    {
        proof {
            use_type_invariant(&*self);
        }
        match self.find(a) {
            Some(i) => {
                let mut items = Vec::new();
                std::mem::swap(&mut items, &mut self.items);
                let ghost before = items@;
                proof {
                    lemma_keyed_remove(before, string_key(), i as int);
                }
                items.remove(i);
                self.items = items;
                proof {
                    assert(keyed_map(before, string_key()).remove(a@).dom() =~= keyed_map(before, string_key()).dom().remove(
                        a@,
                    ));
                }
            },
            None => {
                proof {
                    assert(old(self).view_set().remove(a@) =~= old(self).view_set());
                }
            },
        }
    }

    /// Number of addresses in the set.
    pub fn len(&self) -> (r: usize)
        ensures
            self.view_set().finite(),
            r == self.view_set().len(),
    {
        proof {
            use_type_invariant(self);
            lemma_keyed_len(self.items@, string_key());
        }
        self.items.len()
    }

    /// Whether the set is empty.
    pub fn is_empty(&self) -> (r: bool)
        ensures
            r == (self.view_set().len() == 0),
    {
        self.len() == 0
    }
}

impl Clone for AddressSet {
    fn clone(&self) -> (r: Self)
        ensures
            r.view_set() == self.view_set(),
    {
        proof {
            use_type_invariant(self);
        }
        let mut items: Vec<String> = Vec::new();
        let mut i: usize = 0;
        while i < self.items.len()
            invariant
                i <= self.items@.len(),
                unique_keys(self.items@, string_key()),
                items@.len() == i,
                forall|k: int| 0 <= k < i ==> (#[trigger] items@[k])@ == self.items@[k]@,
            decreases self.items@.len() - i,
        {
            items.push(self.items[i].clone());
            i = i + 1;
        }
        proof {
            assert forall|p: int, q: int| 0 <= p < items@.len() && 0 <= q < items@.len() && p != q implies string_key()(
                #[trigger] items@[p],
            ) != string_key()(#[trigger] items@[q]) by {
                assert(string_key()(self.items@[p]) != string_key()(self.items@[q]));
            }
            assert forall|a: Seq<char>| has_key(items@, string_key(), a) == has_key(self.items@, string_key(), a) by {
                if has_key(items@, string_key(), a) {
                    let k = choose|k: int| 0 <= k < items@.len() && string_key()(#[trigger] items@[k]) == a;
                    assert(string_key()(self.items@[k]) == a);
                }
                if has_key(self.items@, string_key(), a) {
                    let k = choose|k: int| 0 <= k < self.items@.len() && string_key()(#[trigger] self.items@[k]) == a;
                    assert(string_key()(items@[k]) == a);
                }
            }
        }
        let r = AddressSet { items };
        assert(r.view_set() =~= self.view_set());
        r
    }
}

/// Settings of an organization.
#[derive(Debug, Clone)]
pub struct OrgConfig {
    pub org_id: String,
    pub name: String,
    pub whitelist: AddressSet,
    pub whitelist_enabled: bool,
    pub per_tx_limit_cents: u64,
    pub daily_limit_cents: u64,
    pub monthly_limit_cents: u64,
    pub hold_period_secs: u64,
    pub approvers: Vec<String>,
    pub required_approvals: u32,
}

impl OrgConfig {
    /// An organization with the default limits, no whitelist and no approvers.
    pub fn new(org_id: &str, name: &str) -> (r: Self)
        ensures
            r.org_id@ == org_id@,
            r.name@ == name@,
            r.whitelist.view_set() == Set::<Seq<char>>::empty(),
            !r.whitelist_enabled,
            r.per_tx_limit_cents == DEFAULT_PER_TX_LIMIT_CENTS,
            r.daily_limit_cents == DEFAULT_DAILY_LIMIT_CENTS,
            r.monthly_limit_cents == DEFAULT_MONTHLY_LIMIT_CENTS,
            r.hold_period_secs == DEFAULT_HOLD_PERIOD_SECS,
            r.approvers@.len() == 0,
            r.required_approvals == 1,
    {
        OrgConfig {
            org_id: org_id.to_owned(),
            name: name.to_owned(),
            whitelist: AddressSet::new(),
            whitelist_enabled: false,
            per_tx_limit_cents: DEFAULT_PER_TX_LIMIT_CENTS,
            daily_limit_cents: DEFAULT_DAILY_LIMIT_CENTS,
            monthly_limit_cents: DEFAULT_MONTHLY_LIMIT_CENTS,
            hold_period_secs: DEFAULT_HOLD_PERIOD_SECS,
            approvers: Vec::new(),
            required_approvals: 1,
        }
    }
}

/// Spend of an organization in the current day and month.
#[derive(Debug, Clone, Copy, PartialEq, Eq, Structural)]
pub struct SpendTracker {
    pub daily_spent_cents: u64,
    pub monthly_spent_cents: u64,
    pub daily_reset_at: u64,
    pub monthly_reset_at: u64,
}

impl SpendTracker {
    pub open spec fn zero() -> Self {
        SpendTracker { daily_spent_cents: 0, monthly_spent_cents: 0, daily_reset_at: 0, monthly_reset_at: 0 }
    }
}

/// The spend after restarting the day and the month if they are over.
pub open spec fn reset_spend(t: SpendTracker, now: u64) -> SpendTracker {
    let t1 = if sat_sub_spec(now as int, t.daily_reset_at as int) >= DAY_SECS {
        SpendTracker { daily_spent_cents: 0, daily_reset_at: now, ..t }
    } else {
        t
    };
    if sat_sub_spec(now as int, t1.monthly_reset_at as int) >= MONTH_SECS {
        SpendTracker { monthly_spent_cents: 0, monthly_reset_at: now, ..t1 }
    } else {
        t1
    }
}

fn reset_spend_if_needed(spend: &mut SpendTracker, now: u64)
    ensures
        *final(spend) == reset_spend(*old(spend), now),
{
    if now.saturating_sub(spend.daily_reset_at) >= DAY_SECS {
        spend.daily_spent_cents = 0;
        spend.daily_reset_at = now;
    }
    if now.saturating_sub(spend.monthly_reset_at) >= MONTH_SECS {
        spend.monthly_spent_cents = 0;
        spend.monthly_reset_at = now;
    }
}

/// Where a transfer stands.
#[derive(Debug, Clone, Copy, PartialEq, Eq, Structural)]
pub enum TransferApprovalStatus {
    PendingApproval,
    PendingHold,
    ReadyToSettle,
    Settled,
    Rejected,
}

/// A transfer awaiting approvals, its hold period or settlement.
#[derive(Debug, Clone)]
pub struct PendingTransfer {
    pub transfer_id: String,
    pub org_id: String,
    pub destination: String,
    pub amount_cents: u64,
    pub approvals: AddressSet,
    pub required_approvals: u32,
    pub approved: bool,
    pub release_at: u64,
    pub created_at: u64,
    pub status: TransferApprovalStatus,
}

/// Outcome of checking a transfer.
#[derive(Debug, Clone, PartialEq, Eq)]
pub enum ValidationResult {
    Approved,
    NeedsApproval { required: u32, current: u32 },
    InHoldPeriod { release_at: u64 },
    Rejected { reason: String },
}

/// Enterprise errors.
#[derive(Debug, PartialEq, Eq, Clone, Copy, Structural)]
pub enum EnterpriseError {
    OrgNotFound,
    TransferNotFound,
    TooManyApprovers,
    InvalidApprovalThreshold,
    UnauthorizedApprover,
    NotPendingApproval,
    NotApproved,
}

/// Identifier of the `n`-th transfer.
pub open spec fn transfer_id_of(n: int) -> Seq<char> {
    "ent_tx_"@ + dec_chars(n as nat)
}

pub open spec fn org_key() -> spec_fn(OrgConfig) -> Seq<char> {
    |o: OrgConfig| o.org_id@
}

/// The spend of one organization.
#[derive(Debug, Clone)]
pub struct SpendEntry {
    pub org_id: String,
    pub tracker: SpendTracker,
}

pub open spec fn spend_key() -> spec_fn(SpendEntry) -> Seq<char> {
    |e: SpendEntry| e.org_id@
}

/// Whether a transfer is still open: neither settled nor rejected.
pub open spec fn is_open(t: PendingTransfer) -> bool {
    t.status != TransferApprovalStatus::Settled && t.status != TransferApprovalStatus::Rejected
}

/// Approval bookkeeping of a transfer: it awaits approvals exactly when it
/// is not approved, and an approved transfer that needed approvals has at
/// least as many distinct approvers as required.
pub open spec fn approval_ok(t: PendingTransfer) -> bool {
    &&& (t.status == TransferApprovalStatus::PendingApproval) == !t.approved
    &&& t.approved && t.required_approvals > 0 ==> t.approvals.view_set().len() as u32 >= t.required_approvals
}

/// A transfer needs approvals when it is large and the organization has
/// approvers and a positive threshold.
pub open spec fn needs_approval(o: OrgConfig, amount: u64) -> bool {
    amount >= LARGE_TRANSFER_THRESHOLD_CENTS && o.approvers@.len() > 0 && o.required_approvals > 0
}

/// Status of a new transfer.
pub open spec fn initial_status(o: OrgConfig, amount: u64) -> TransferApprovalStatus {
    if needs_approval(o, amount) {
        TransferApprovalStatus::PendingApproval
    } else if o.hold_period_secs > 0 {
        TransferApprovalStatus::PendingHold
    } else {
        TransferApprovalStatus::ReadyToSettle
    }
}

/// The destination passes the whitelist and the amount the per-transaction limit.
pub open spec fn passes_static_checks(o: OrgConfig, destination: Seq<char>, amount: u64) -> bool {
    (!o.whitelist_enabled || o.whitelist.view_set().contains(destination)) && amount <= o.per_tx_limit_cents
}

fn contains_string(v: &Vec<String>, a: &str) -> (r: bool)
    ensures
        r == exists|i: int| 0 <= i < v@.len() && #[trigger] v@[i]@ == a@,
{
    let key = a.to_owned();
    let mut i: usize = 0;
    while i < v.len()
        invariant
            0 <= i <= v@.len(),
            key@ == a@,
            forall|k: int| 0 <= k < i ==> v@[k]@ != a@,
        decreases v@.len() - i,
    {
        if v[i] == key {
            return true;
        }
        i = i + 1;
    }
    false
}

/// Reason given when the destination is not whitelisted.
pub open spec fn whitelist_reason(destination: Seq<char>) -> Seq<char> {
    "destination "@ + destination + " not in whitelist"@
}

/// Reason given when the amount exceeds the per-transaction limit.
pub open spec fn per_tx_reason(amount: u64, limit: u64) -> Seq<char> {
    "amount "@ + dec_chars(amount as nat) + "c exceeds per-tx limit "@ + dec_chars(limit as nat) + "c"@
}

/// Reason given when the amount would exceed the daily limit.
pub open spec fn daily_reason(spent: u64, amount: u64, limit: u64) -> Seq<char> {
    "daily limit exceeded: "@ + dec_chars(spent as nat) + "c spent + "@ + dec_chars(amount as nat) + "c = "@
        + dec_chars((spent + amount) as nat) + "c > "@ + dec_chars(limit as nat) + "c limit"@
}

/// What a transfer that passed every check is answered.
pub open spec fn accepted_result(o: OrgConfig, amount: u64, now: u64) -> ValidationResult {
    match initial_status(o, amount) {
        TransferApprovalStatus::PendingApproval => ValidationResult::NeedsApproval {
            required: o.required_approvals,
            current: 0,
        },
        TransferApprovalStatus::PendingHold => ValidationResult::InHoldPeriod {
            release_at: (now + o.hold_period_secs) as u64,
        },
        _ => ValidationResult::Approved,
    }
}

/// Organizations, their spend and their transfers.
pub struct EnterpriseManager {
    orgs: Vec<OrgConfig>,
    spend: Vec<SpendEntry>,
    pending: Vec<PendingTransfer>,
    next_id: u64,
}

impl EnterpriseManager {
    /// Organizations by identifier.
    pub closed spec fn org_map(&self) -> Map<Seq<char>, OrgConfig> {
        keyed_map(self.orgs@, org_key())
    }

    /// Spend records by organization.
    pub closed spec fn spend_map(&self) -> Map<Seq<char>, SpendEntry> {
        keyed_map(self.spend@, spend_key())
    }

    /// Transfers in the order they were created; the `n`-th has identifier
    /// `transfer_id_of(n)`.
    pub closed spec fn transfers(&self) -> Seq<PendingTransfer> {
        self.pending@
    }

    /// The spend of an organization (nothing spent if it has no record).
    pub open spec fn spend_of(&self, org: Seq<char>) -> SpendTracker {
        if self.spend_map().dom().contains(org) {
            self.spend_map()[org].tracker
        } else {
            SpendTracker::zero()
        }
    }

    /// One organization and one spend record per identifier, transfers
    /// numbered in order, approvals accounted for.
    pub closed spec fn wf(&self) -> bool {
        &&& unique_keys(self.orgs@, org_key())
        &&& unique_keys(self.spend@, spend_key())
        &&& self.next_id == self.pending@.len()
        &&& forall|i: int| 0 <= i < self.pending@.len() ==> (#[trigger] self.pending@[i]).transfer_id@ == transfer_id_of(i)
        &&& forall|i: int| 0 <= i < self.pending@.len() ==> approval_ok(#[trigger] self.pending@[i])
    }

    proof fn lemma_transfer_index(&self, i: int, j: int)
        requires
            self.wf(),
            0 <= i < self.pending@.len(),
            0 <= j < self.pending@.len(),
            self.pending@[i].transfer_id@ == self.pending@[j].transfer_id@,
        ensures
            i == j,
    {
        lemma_prefixed_injective("ent_tx_"@, i as nat, j as nat);
    }

    fn find_org(&self, org_id: &str) -> (r: Option<usize>)
        requires
            self.wf(),
        ensures
            match r {
                Some(i) => i < self.orgs@.len() && self.orgs@[i as int].org_id@ == org_id@ && self.org_map().dom().contains(
                    org_id@,
                ) && self.org_map()[org_id@] == self.orgs@[i as int],
                None => !self.org_map().dom().contains(org_id@),
            },
    {
        let key = org_id.to_owned();
        let mut i: usize = 0;
        while i < self.orgs.len()
            invariant
                0 <= i <= self.orgs@.len(),
                key@ == org_id@,
                self.wf(),
                forall|k: int| 0 <= k < i ==> (#[trigger] self.orgs@[k]).org_id@ != org_id@,
            decreases self.orgs@.len() - i,
        {
            if self.orgs[i].org_id == key {
                proof {
                    lemma_keyed_at(self.orgs@, org_key(), i as int);
                }
                return Some(i);
            }
            i = i + 1;
        }
        None
    }

    fn find_spend(&self, org_id: &str) -> (r: Option<usize>)
        requires
            self.wf(),
        ensures
            match r {
                Some(i) => i < self.spend@.len() && self.spend@[i as int].org_id@ == org_id@ && self.spend_map().dom().contains(
                    org_id@,
                ) && self.spend_map()[org_id@] == self.spend@[i as int],
                None => !has_key(self.spend@, spend_key(), org_id@) && !self.spend_map().dom().contains(org_id@),
            },
    {
        let key = org_id.to_owned();
        let mut i: usize = 0;
        while i < self.spend.len()
            invariant
                0 <= i <= self.spend@.len(),
                key@ == org_id@,
                self.wf(),
                forall|k: int| 0 <= k < i ==> (#[trigger] self.spend@[k]).org_id@ != org_id@,
            decreases self.spend@.len() - i,
        {
            if self.spend[i].org_id == key {
                proof {
                    lemma_keyed_at(self.spend@, spend_key(), i as int);
                }
                return Some(i);
            }
            i = i + 1;
        }
        None
    }

    fn find_transfer(&self, transfer_id: &str) -> (r: Option<usize>)
        requires
            self.wf(),
        ensures
            match r {
                Some(i) => i < self.pending@.len() && self.pending@[i as int].transfer_id@ == transfer_id@,
                None => forall|k: int| 0 <= k < self.pending@.len() ==> (#[trigger] self.pending@[k]).transfer_id@ != transfer_id@,
            },
    {
        let key = transfer_id.to_owned();
        let mut i: usize = 0;
        while i < self.pending.len()
            invariant
                0 <= i <= self.pending@.len(),
                key@ == transfer_id@,
                forall|k: int| 0 <= k < i ==> (#[trigger] self.pending@[k]).transfer_id@ != transfer_id@,
            decreases self.pending@.len() - i,
        {
            if self.pending[i].transfer_id == key {
                return Some(i);
            }
            i = i + 1;
        }
        None
    }

    /// No organization, no transfer.
    pub fn new() -> (r: Self)
        ensures
            r.wf(),
            r.org_map() == Map::<Seq<char>, OrgConfig>::empty(),
            r.spend_map() == Map::<Seq<char>, SpendEntry>::empty(),
            r.transfers().len() == 0,
    {
        let r = EnterpriseManager { orgs: Vec::new(), spend: Vec::new(), pending: Vec::new(), next_id: 0 };
        proof {
            lemma_keyed_empty(org_key());
            lemma_keyed_empty(spend_key());
            assert(r.orgs@ =~= Seq::<OrgConfig>::empty());
            assert(r.spend@ =~= Seq::<SpendEntry>::empty());
        }
        r
    }

    /// Register (or replace) an organization. It may have at most
    /// `MAX_APPROVERS` approvers, and when it has approvers no more required
    /// approvals than approvers.
    pub fn register_org(&mut self, config: OrgConfig) -> (r: Result<(), EnterpriseError>)
        requires
            old(self).wf(),
        ensures
            final(self).wf(),
            final(self).transfers() == old(self).transfers(),
            config.approvers@.len() > MAX_APPROVERS ==> r == Err::<(), EnterpriseError>(EnterpriseError::TooManyApprovers)
                && final(self).org_map() == old(self).org_map() && final(self).spend_map() == old(self).spend_map(),
            config.approvers@.len() <= MAX_APPROVERS && config.required_approvals > config.approvers@.len()
                && config.approvers@.len() > 0 ==> r == Err::<(), EnterpriseError>(
                EnterpriseError::InvalidApprovalThreshold,
            ) && final(self).org_map() == old(self).org_map() && final(self).spend_map() == old(self).spend_map(),
            config.approvers@.len() <= MAX_APPROVERS && !(config.required_approvals > config.approvers@.len()
                && config.approvers@.len() > 0) ==> {
                &&& r is Ok
                &&& final(self).org_map() == old(self).org_map().insert(config.org_id@, config)
                &&& final(self).spend_map().dom() == old(self).spend_map().dom().insert(config.org_id@)
                &&& forall|o: Seq<char>| #[trigger] final(self).spend_of(o) == old(self).spend_of(o)
            },
    {
        if config.approvers.len() > MAX_APPROVERS {
            return Err(EnterpriseError::TooManyApprovers);
        }
        if config.required_approvals as usize > config.approvers.len() && config.approvers.len() > 0 {
            return Err(EnterpriseError::InvalidApprovalThreshold);
        }
        let ghost old_spend = self.spend@;
        match self.find_spend(config.org_id.as_str()) {
            Some(_) => {
                proof {
                    assert(self.spend_map().dom().insert(config.org_id@) =~= self.spend_map().dom());
                }
            },
            None => {
                let e = SpendEntry { org_id: config.org_id.clone(), tracker: SpendTracker {
                    daily_spent_cents: 0,
                    monthly_spent_cents: 0,
                    daily_reset_at: 0,
                    monthly_reset_at: 0,
                } };
                let ghost ge = e;
                self.spend.push(e);
                proof {
                    lemma_keyed_push(old_spend, spend_key(), ge);
                    assert(keyed_map(old_spend, spend_key()).insert(config.org_id@, ge).dom() =~= keyed_map(
                        old_spend,
                        spend_key(),
                    ).dom().insert(config.org_id@));
                }
            },
        }
        let ghost old_orgs = self.orgs@;
        let ghost cfg = config;
        match self.find_org(config.org_id.as_str()) {
            Some(i) => {
                self.orgs.set(i, config);
                proof {
                    lemma_keyed_update(old_orgs, org_key(), i as int, cfg);
                    assert(self.orgs@ == old_orgs.update(i as int, cfg));
                }
            },
            None => {
                self.orgs.push(config);
                proof {
                    lemma_keyed_push(old_orgs, org_key(), cfg);
                }
            },
        }
        Ok(())
    }

    /// Whitelist an address for an organization.
    pub fn add_to_whitelist(&mut self, org_id: &str, address: &str) -> (r: Result<(), EnterpriseError>)
        requires
            old(self).wf(),
        ensures
            final(self).wf(),
            final(self).transfers() == old(self).transfers(),
            final(self).spend_map() == old(self).spend_map(),
            final(self).org_map().dom() == old(self).org_map().dom(),
            !old(self).org_map().dom().contains(org_id@) ==> r == Err::<(), EnterpriseError>(EnterpriseError::OrgNotFound)
                && final(self).org_map() == old(self).org_map(),
            old(self).org_map().dom().contains(org_id@) ==> {
                let o = old(self).org_map()[org_id@];
                let q = final(self).org_map()[org_id@];
                &&& r is Ok
                &&& final(self).org_map().remove(org_id@) == old(self).org_map().remove(org_id@)
                &&& q.whitelist.view_set() == o.whitelist.view_set().insert(address@)
                &&& q.org_id == o.org_id && q.name == o.name && q.whitelist_enabled == o.whitelist_enabled
                &&& q.per_tx_limit_cents == o.per_tx_limit_cents && q.daily_limit_cents == o.daily_limit_cents
                &&& q.monthly_limit_cents == o.monthly_limit_cents && q.hold_period_secs == o.hold_period_secs
                &&& q.approvers == o.approvers && q.required_approvals == o.required_approvals
            },
    {
        let i = match self.find_org(org_id) {
            Some(i) => i,
            None => return Err(EnterpriseError::OrgNotFound),
        };
        let ghost old_orgs = self.orgs@;
        self.orgs[i].whitelist.insert(address);
        proof {
            let after = self.orgs@[i as int];
            assert(self.orgs@ == old_orgs.update(i as int, after));
            lemma_keyed_update(old_orgs, org_key(), i as int, after);
            lemma_keyed_at(self.orgs@, org_key(), i as int);
            assert(final(self).org_map().remove(org_id@) =~= old(self).org_map().remove(org_id@));
            assert(final(self).org_map().dom() =~= old(self).org_map().dom());
        }
        Ok(())
    }

    /// Remove an address from an organization's whitelist.
    pub fn remove_from_whitelist(&mut self, org_id: &str, address: &str) -> (r: Result<(), EnterpriseError>)
        requires
            old(self).wf(),
        ensures
            final(self).wf(),
            final(self).transfers() == old(self).transfers(),
            final(self).spend_map() == old(self).spend_map(),
            final(self).org_map().dom() == old(self).org_map().dom(),
            !old(self).org_map().dom().contains(org_id@) ==> r == Err::<(), EnterpriseError>(EnterpriseError::OrgNotFound)
                && final(self).org_map() == old(self).org_map(),
            old(self).org_map().dom().contains(org_id@) ==> {
                let o = old(self).org_map()[org_id@];
                let q = final(self).org_map()[org_id@];
                &&& r is Ok
                &&& final(self).org_map().remove(org_id@) == old(self).org_map().remove(org_id@)
                &&& q.whitelist.view_set() == o.whitelist.view_set().remove(address@)
                &&& q.org_id == o.org_id && q.name == o.name && q.whitelist_enabled == o.whitelist_enabled
                &&& q.per_tx_limit_cents == o.per_tx_limit_cents && q.daily_limit_cents == o.daily_limit_cents
                &&& q.monthly_limit_cents == o.monthly_limit_cents && q.hold_period_secs == o.hold_period_secs
                &&& q.approvers == o.approvers && q.required_approvals == o.required_approvals
            },
    {
        let i = match self.find_org(org_id) {
            Some(i) => i,
            None => return Err(EnterpriseError::OrgNotFound),
        };
        let ghost old_orgs = self.orgs@;
        self.orgs[i].whitelist.remove(address);
        proof {
            let after = self.orgs@[i as int];
            assert(self.orgs@ == old_orgs.update(i as int, after));
            lemma_keyed_update(old_orgs, org_key(), i as int, after);
            lemma_keyed_at(self.orgs@, org_key(), i as int);
            assert(final(self).org_map().remove(org_id@) =~= old(self).org_map().remove(org_id@));
            assert(final(self).org_map().dom() =~= old(self).org_map().dom());
        }
        Ok(())
    }

    /// The configuration of an organization.
    pub fn get_org(&self, org_id: &str) -> (r: Option<&OrgConfig>)
        requires
            self.wf(),
        ensures
            match r {
                Some(o) => self.org_map().dom().contains(org_id@) && *o == self.org_map()[org_id@],
                None => !self.org_map().dom().contains(org_id@),
            },
    {
        match self.find_org(org_id) {
            Some(i) => Some(&self.orgs[i]),
            None => None,
        }
    }

    /// The transfer with this identifier.
    pub fn get_pending(&self, transfer_id: &str) -> (r: Option<&PendingTransfer>)
        requires
            self.wf(),
        ensures
            match r {
                Some(t) => exists|i: int| 0 <= i < self.transfers().len() && *t == #[trigger] self.transfers()[i] && t.transfer_id@
                    == transfer_id@,
                None => forall|i: int| 0 <= i < self.transfers().len() ==> (#[trigger] self.transfers()[i]).transfer_id@ != transfer_id@,
            },
    {
        match self.find_transfer(transfer_id) {
            Some(i) => Some(&self.pending[i]),
            None => None,
        }
    }
    /// Check a transfer against the organization's whitelist and limits and,
    /// if it passes, record it and its spend. A rejection is answered with an
    /// empty identifier and a reason; the day and month restart before the
    /// spend limits are checked, also when the transfer is then rejected.
    pub fn initiate_transfer(&mut self, org_id: &str, destination: &str, amount_cents: u64, now: u64) -> (r: Result<
        (String, ValidationResult),
        EnterpriseError,
    >)
        requires
            old(self).wf(),
            old(self).org_map().dom().contains(org_id@) && passes_static_checks(
                old(self).org_map()[org_id@],
                destination@,
                amount_cents,
            ) ==> {
                let o = old(self).org_map()[org_id@];
                let t = reset_spend(old(self).spend_of(org_id@), now);
                &&& t.daily_spent_cents + amount_cents <= u64::MAX
                &&& t.daily_spent_cents + amount_cents <= o.daily_limit_cents ==> t.monthly_spent_cents + amount_cents
                    <= u64::MAX
                &&& t.daily_spent_cents + amount_cents <= o.daily_limit_cents && t.monthly_spent_cents + amount_cents
                    <= o.monthly_limit_cents ==> now + o.hold_period_secs <= u64::MAX && old(self).transfers().len()
                    < u64::MAX
            },
        ensures
            final(self).wf(),
            final(self).org_map() == old(self).org_map(),
            !old(self).org_map().dom().contains(org_id@) ==> r == Err::<(String, ValidationResult), EnterpriseError>(
                EnterpriseError::OrgNotFound,
            ) && final(self).spend_map() == old(self).spend_map() && final(self).transfers() == old(self).transfers(),
            old(self).org_map().dom().contains(org_id@) ==> {
                let o = old(self).org_map()[org_id@];
                let t = reset_spend(old(self).spend_of(org_id@), now);
                let n = old(self).transfers().len();
                if o.whitelist_enabled && !o.whitelist.view_set().contains(destination@) {
                    &&& r matches Ok((id, ValidationResult::Rejected { reason })) && id@.len() == 0 && reason@
                        == whitelist_reason(destination@)
                    &&& final(self).spend_map() == old(self).spend_map()
                    &&& final(self).transfers() == old(self).transfers()
                } else if amount_cents > o.per_tx_limit_cents {
                    &&& r matches Ok((id, ValidationResult::Rejected { reason })) && id@.len() == 0 && reason@
                        == per_tx_reason(amount_cents, o.per_tx_limit_cents)
                    &&& final(self).spend_map() == old(self).spend_map()
                    &&& final(self).transfers() == old(self).transfers()
                } else if t.daily_spent_cents + amount_cents > o.daily_limit_cents {
                    &&& r matches Ok((id, ValidationResult::Rejected { reason })) && id@.len() == 0 && reason@
                        == daily_reason(t.daily_spent_cents, amount_cents, o.daily_limit_cents)
                    &&& forall|x: Seq<char>| #[trigger] final(self).spend_of(x) == if x == org_id@ {
                        t
                    } else {
                        old(self).spend_of(x)
                    }
                    &&& final(self).transfers() == old(self).transfers()
                } else if t.monthly_spent_cents + amount_cents > o.monthly_limit_cents {
                    &&& r matches Ok((id, ValidationResult::Rejected { reason })) && id@.len() == 0 && reason@
                        == "monthly limit exceeded"@
                    &&& forall|x: Seq<char>| #[trigger] final(self).spend_of(x) == if x == org_id@ {
                        t
                    } else {
                        old(self).spend_of(x)
                    }
                    &&& final(self).transfers() == old(self).transfers()
                } else {
                    &&& r matches Ok((id, v)) && id@ == transfer_id_of(n as int) && v == accepted_result(
                        o,
                        amount_cents,
                        now,
                    )
                    &&& forall|x: Seq<char>| #[trigger] final(self).spend_of(x) == if x == org_id@ {
                        SpendTracker {
                            daily_spent_cents: (t.daily_spent_cents + amount_cents) as u64,
                            monthly_spent_cents: (t.monthly_spent_cents + amount_cents) as u64,
                            ..t
                        }
                    } else {
                        old(self).spend_of(x)
                    }
                    &&& final(self).spend_of(org_id@).daily_spent_cents <= o.daily_limit_cents
                    &&& final(self).spend_of(org_id@).monthly_spent_cents <= o.monthly_limit_cents
                    &&& final(self).transfers().len() == n + 1
                    &&& final(self).transfers().take(n as int) == old(self).transfers()
                    &&& {
                        let p = final(self).transfers()[n as int];
                        &&& p.transfer_id@ == transfer_id_of(n as int)
                        &&& p.org_id@ == org_id@
                        &&& p.destination@ == destination@
                        &&& p.amount_cents == amount_cents
                        &&& p.approvals.view_set() == Set::<Seq<char>>::empty()
                        &&& p.required_approvals == if needs_approval(o, amount_cents) {
                            o.required_approvals
                        } else {
                            0
                        }
                        &&& p.approved == !needs_approval(o, amount_cents)
                        &&& p.release_at == now + o.hold_period_secs
                        &&& p.created_at == now
                        &&& p.status == initial_status(o, amount_cents)
                    }
                }
            },
    {
        let oi = match self.find_org(org_id) {
            Some(i) => i,
            None => return Err(EnterpriseError::OrgNotFound),
        };
        if self.orgs[oi].whitelist_enabled && !self.orgs[oi].whitelist.contains(destination) {
            let mut reason = "destination ".to_owned();
            reason.append(destination);
            reason.append(" not in whitelist");
            return Ok((String::new(), ValidationResult::Rejected { reason }));
        }
        let per_tx = self.orgs[oi].per_tx_limit_cents;
        if amount_cents > per_tx {
            let mut reason = prefixed_decimal("amount ", amount_cents);
            reason.append("c exceeds per-tx limit ");
            reason.append(decimal(per_tx).as_str());
            reason.append("c");
            return Ok((String::new(), ValidationResult::Rejected { reason }));
        }
        let daily_limit = self.orgs[oi].daily_limit_cents;
        let monthly_limit = self.orgs[oi].monthly_limit_cents;
        let hold = self.orgs[oi].hold_period_secs;
        let required = self.orgs[oi].required_approvals;
        let has_approvers = self.orgs[oi].approvers.len() > 0;
        let ghost o = self.orgs@[oi as int];

        let ghost old_spend = self.spend@;
        let si = match self.find_spend(org_id) {
            Some(i) => i,
            None => {
                let e = SpendEntry { org_id: org_id.to_owned(), tracker: SpendTracker {
                    daily_spent_cents: 0,
                    monthly_spent_cents: 0,
                    daily_reset_at: 0,
                    monthly_reset_at: 0,
                } };
                let ghost ge = e;
                self.spend.push(e);
                proof {
                    lemma_keyed_push(old_spend, spend_key(), ge);
                }
                self.spend.len() - 1
            },
        };
        proof {
            lemma_keyed_at(self.spend@, spend_key(), si as int);
            assert forall|x: Seq<char>| #[trigger] self.spend_of(x) == old(self).spend_of(x) by {}
        }
        let ghost mid_spend = self.spend@;
        let mut t = self.spend[si].tracker;
        reset_spend_if_needed(&mut t, now);
        self.spend[si].tracker = t;
        proof {
            let after = self.spend@[si as int];
            assert(self.spend@ == mid_spend.update(si as int, after));
            lemma_keyed_update(mid_spend, spend_key(), si as int, after);
            assert forall|x: Seq<char>| #[trigger] self.spend_of(x) == if x == org_id@ {
                t
            } else {
                old(self).spend_of(x)
            } by {}
        }

        if t.daily_spent_cents + amount_cents > daily_limit {
            let mut reason = prefixed_decimal("daily limit exceeded: ", t.daily_spent_cents);
            reason.append("c spent + ");
            reason.append(decimal(amount_cents).as_str());
            reason.append("c = ");
            reason.append(decimal(t.daily_spent_cents + amount_cents).as_str());
            reason.append("c > ");
            reason.append(decimal(daily_limit).as_str());
            reason.append("c limit");
            return Ok((String::new(), ValidationResult::Rejected { reason }));
        }
        if t.monthly_spent_cents + amount_cents > monthly_limit {
            return Ok((String::new(), ValidationResult::Rejected { reason: "monthly limit exceeded".to_owned() }));
        }

        let n = self.next_id;
        let transfer_id = prefixed_decimal("ent_tx_", n);
        self.next_id = self.next_id + 1;
        let needs = amount_cents >= LARGE_TRANSFER_THRESHOLD_CENTS && has_approvers && required > 0;
        let release_at = now + hold;
        let status = if needs {
            TransferApprovalStatus::PendingApproval
        } else if hold > 0 {
            TransferApprovalStatus::PendingHold
        } else {
            TransferApprovalStatus::ReadyToSettle
        };
        let pending = PendingTransfer {
            transfer_id: prefixed_decimal("ent_tx_", n),
            org_id: org_id.to_owned(),
            destination: destination.to_owned(),
            amount_cents,
            approvals: AddressSet::new(),
            required_approvals: if needs {
                required
            } else {
                0
            },
            approved: !needs,
            release_at,
            created_at: now,
            status,
        };
        let ghost before_pending = self.pending@;
        self.pending.push(pending);

        let ghost spend_before = self.spend@;
        self.spend[si].tracker.daily_spent_cents = t.daily_spent_cents + amount_cents;
        self.spend[si].tracker.monthly_spent_cents = t.monthly_spent_cents + amount_cents;
        proof {
            let after = self.spend@[si as int];
            assert(self.spend@ == spend_before.update(si as int, after));
            lemma_keyed_update(spend_before, spend_key(), si as int, after);
            lemma_keyed_at(self.spend@, spend_key(), si as int);
            assert(self.pending@.take(n as int) =~= before_pending);
            assert forall|i: int| 0 <= i < self.pending@.len() implies (#[trigger] self.pending@[i]).transfer_id@
                == transfer_id_of(i) by {
                if i < n {
                    assert(self.pending@[i] == before_pending[i]);
                }
            }
            assert forall|i: int| 0 <= i < self.pending@.len() implies approval_ok(#[trigger] self.pending@[i]) by {
                if i < n {
                    assert(self.pending@[i] == before_pending[i]);
                }
            }
        }
        let result = if needs {
            ValidationResult::NeedsApproval { required, current: 0 }
        } else if hold > 0 {
            ValidationResult::InHoldPeriod { release_at }
        } else {
            ValidationResult::Approved
        };
        Ok((transfer_id, result))
    }

    /// Record the approval of an authorized approver. Once enough distinct
    /// approvers agreed, the transfer is approved and waits out its hold
    /// period (or is ready at once without one).
    pub fn approve_transfer(&mut self, transfer_id: &str, approver: &str) -> (r: Result<ValidationResult, EnterpriseError>)
        requires
            old(self).wf(),
        ensures
            final(self).wf(),
            final(self).org_map() == old(self).org_map(),
            final(self).spend_map() == old(self).spend_map(),
            final(self).transfers().len() == old(self).transfers().len(),
            match r {
                Err(e) => final(self).transfers() == old(self).transfers() && (e == EnterpriseError::TransferNotFound
                    || e == EnterpriseError::NotPendingApproval || e == EnterpriseError::OrgNotFound || e
                    == EnterpriseError::UnauthorizedApprover),
                Ok(_) => true,
            },
            (forall|i: int| 0 <= i < old(self).transfers().len() ==> (#[trigger] old(self).transfers()[i]).transfer_id@ != transfer_id@)
                ==> r == Err::<ValidationResult, EnterpriseError>(EnterpriseError::TransferNotFound),
            forall|i: int|
                0 <= i < old(self).transfers().len() && (#[trigger] old(self).transfers()[i]).transfer_id@
                    == transfer_id@ ==> {
                    let t = old(self).transfers()[i];
                    let q = final(self).transfers()[i];
                    if t.status != TransferApprovalStatus::PendingApproval {
                        r == Err::<ValidationResult, EnterpriseError>(EnterpriseError::NotPendingApproval)
                    } else if !old(self).org_map().dom().contains(t.org_id@) {
                        r == Err::<ValidationResult, EnterpriseError>(EnterpriseError::OrgNotFound)
                    } else if !(exists|k: int|
                        0 <= k < old(self).org_map()[t.org_id@].approvers@.len()
                            && #[trigger] old(self).org_map()[t.org_id@].approvers@[k]@ == approver@) {
                        r == Err::<ValidationResult, EnterpriseError>(EnterpriseError::UnauthorizedApprover)
                    } else {
                        let count = q.approvals.view_set().len() as u32;
                        let o = old(self).org_map()[t.org_id@];
                        &&& q.approvals.view_set() == t.approvals.view_set().insert(approver@)
                        &&& final(self).transfers() == old(self).transfers().update(i, q)
                        &&& q.transfer_id == t.transfer_id && q.org_id == t.org_id && q.destination == t.destination
                        &&& q.amount_cents == t.amount_cents && q.required_approvals == t.required_approvals
                        &&& q.release_at == t.release_at && q.created_at == t.created_at
                        &&& if count >= t.required_approvals {
                            &&& q.approved
                            &&& if o.hold_period_secs > 0 {
                                q.status == TransferApprovalStatus::PendingHold && r == Ok::<
                                    ValidationResult,
                                    EnterpriseError,
                                >(ValidationResult::InHoldPeriod { release_at: t.release_at })
                            } else {
                                q.status == TransferApprovalStatus::ReadyToSettle && r == Ok::<
                                    ValidationResult,
                                    EnterpriseError,
                                >(ValidationResult::Approved)
                            }
                        } else {
                            &&& q.approved == t.approved && q.status == t.status
                            &&& r == Ok::<ValidationResult, EnterpriseError>(
                                ValidationResult::NeedsApproval { required: t.required_approvals, current: count },
                            )
                        }
                    }
                },
    {
        let ti = match self.find_transfer(transfer_id) {
            Some(i) => i,
            None => return Err(EnterpriseError::TransferNotFound),
        };
        proof {
            assert forall|i: int|
                0 <= i < self.pending@.len() && (#[trigger] self.pending@[i]).transfer_id@ == transfer_id@ implies i
                == ti by {
                self.lemma_transfer_index(i, ti as int);
            }
        }
        if self.pending[ti].status != TransferApprovalStatus::PendingApproval {
            return Err(EnterpriseError::NotPendingApproval);
        }
        let oi = match self.find_org(self.pending[ti].org_id.as_str()) {
            Some(i) => i,
            None => return Err(EnterpriseError::OrgNotFound),
        };
        if !contains_string(&self.orgs[oi].approvers, approver) {
            return Err(EnterpriseError::UnauthorizedApprover);
        }
        let hold = self.orgs[oi].hold_period_secs;
        let ghost old_pending = self.pending@;
        self.pending[ti].approvals.insert(approver);
        let count = self.pending[ti].approvals.len() as u32;
        let required = self.pending[ti].required_approvals;
        let result = if count >= required {
            self.pending[ti].approved = true;
            if hold > 0 {
                self.pending[ti].status = TransferApprovalStatus::PendingHold;
                ValidationResult::InHoldPeriod { release_at: self.pending[ti].release_at }
            } else {
                self.pending[ti].status = TransferApprovalStatus::ReadyToSettle;
                ValidationResult::Approved
            }
        } else {
            ValidationResult::NeedsApproval { required, current: count }
        };
        proof {
            let q = self.pending@[ti as int];
            assert(self.pending@ == old_pending.update(ti as int, q));
            assert forall|i: int| 0 <= i < self.pending@.len() implies (#[trigger] self.pending@[i]).transfer_id@
                == transfer_id_of(i) by {
                if i != ti {
                    assert(self.pending@[i] == old_pending[i]);
                }
            }
            assert forall|i: int| 0 <= i < self.pending@.len() implies approval_ok(#[trigger] self.pending@[i]) by {
                if i != ti {
                    assert(self.pending@[i] == old_pending[i]);
                }
            }
        }
        Ok(result)
    }

    /// Whether a transfer is approved and past its hold period.
    pub fn check_ready(&self, transfer_id: &str, now: u64) -> (r: Result<bool, EnterpriseError>)
        requires
            self.wf(),
        ensures
            (forall|i: int| 0 <= i < self.transfers().len() ==> (#[trigger] self.transfers()[i]).transfer_id@ != transfer_id@)
                ==> r == Err::<bool, EnterpriseError>(EnterpriseError::TransferNotFound),
            forall|i: int|
                0 <= i < self.transfers().len() && (#[trigger] self.transfers()[i]).transfer_id@ == transfer_id@ ==> r
                    == Ok::<bool, EnterpriseError>(self.transfers()[i].approved && now >= self.transfers()[i].release_at),
    {
        let ti = match self.find_transfer(transfer_id) {
            Some(i) => i,
            None => return Err(EnterpriseError::TransferNotFound),
        };
        proof {
            assert forall|i: int|
                0 <= i < self.pending@.len() && (#[trigger] self.pending@[i]).transfer_id@ == transfer_id@ implies i
                == ti by {
                self.lemma_transfer_index(i, ti as int);
            }
        }
        Ok(self.pending[ti].approved && now >= self.pending[ti].release_at)
    }

    /// Mark an approved transfer as settled.
    pub fn mark_settled(&mut self, transfer_id: &str) -> (r: Result<(), EnterpriseError>)
        requires
            old(self).wf(),
        ensures
            final(self).wf(),
            final(self).org_map() == old(self).org_map(),
            final(self).spend_map() == old(self).spend_map(),
            (forall|i: int| 0 <= i < old(self).transfers().len() ==> (#[trigger] old(self).transfers()[i]).transfer_id@ != transfer_id@)
                ==> r == Err::<(), EnterpriseError>(EnterpriseError::TransferNotFound) && final(self).transfers() == old(
                self,
            ).transfers(),
            forall|i: int|
                0 <= i < old(self).transfers().len() && (#[trigger] old(self).transfers()[i]).transfer_id@
                    == transfer_id@ ==> if old(self).transfers()[i].approved {
                    let q = final(self).transfers()[i];
                    &&& r is Ok
                    &&& final(self).transfers() == old(self).transfers().update(i, q)
                    &&& q.status == TransferApprovalStatus::Settled
                    &&& q.transfer_id == old(self).transfers()[i].transfer_id
                    &&& q.approved
                    &&& q.approvals.view_set() == old(self).transfers()[i].approvals.view_set()
                    &&& q.required_approvals == old(self).transfers()[i].required_approvals
                } else {
                    r == Err::<(), EnterpriseError>(EnterpriseError::NotApproved) && final(self).transfers() == old(
                        self,
                    ).transfers()
                },
    {
        let ti = match self.find_transfer(transfer_id) {
            Some(i) => i,
            None => return Err(EnterpriseError::TransferNotFound),
        };
        proof {
            assert forall|i: int|
                0 <= i < self.pending@.len() && (#[trigger] self.pending@[i]).transfer_id@ == transfer_id@ implies i
                == ti by {
                self.lemma_transfer_index(i, ti as int);
            }
        }
        if !self.pending[ti].approved {
            return Err(EnterpriseError::NotApproved);
        }
        let ghost old_pending = self.pending@;
        self.pending[ti].status = TransferApprovalStatus::Settled;
        proof {
            let q = self.pending@[ti as int];
            assert(self.pending@ == old_pending.update(ti as int, q));
            assert forall|i: int| 0 <= i < self.pending@.len() implies (#[trigger] self.pending@[i]).transfer_id@
                == transfer_id_of(i) by {
                if i != ti {
                    assert(self.pending@[i] == old_pending[i]);
                }
            }
            assert forall|i: int| 0 <= i < self.pending@.len() implies approval_ok(#[trigger] self.pending@[i]) by {
                if i != ti {
                    assert(self.pending@[i] == old_pending[i]);
                }
            }
        }
        Ok(())
    }

    /// Numbers of organizations, of open transfers and of all transfers.
    pub fn stats_counts(&self) -> (r: (usize, usize, usize))
        requires
            self.wf(),
        ensures
            r.0 == self.org_map().len(),
            r.1 == self.transfers().filter(|t: PendingTransfer| is_open(t)).len(),
            r.2 == self.transfers().len(),
    {
        proof {
            lemma_keyed_len(self.orgs@, org_key());
        }
        let mut open: usize = 0;
        let mut i: usize = 0;
        while i < self.pending.len()
            invariant
                i <= self.pending@.len(),
                open <= i,
                open == self.pending@.take(i as int).filter(|t: PendingTransfer| is_open(t)).len(),
            decreases self.pending@.len() - i,
        {
            proof {
                reveal_with_fuel(Seq::filter, 1);
                assert(self.pending@.take(i as int + 1).drop_last() =~= self.pending@.take(i as int));
            }
            if self.pending[i].status != TransferApprovalStatus::Settled && self.pending[i].status
                != TransferApprovalStatus::Rejected {
                open = open + 1;
            }
            i = i + 1;
        }
        proof {
            assert(self.pending@.take(i as int) =~= self.pending@);
        }
        (self.orgs.len(), open, self.pending.len())
    }

    /// A transfer that is ready to settle was approved, and if it needed
    /// approvals it has at least as many distinct approvers as required.
    pub proof fn law_ready_implies_approved(&self, i: int, now: u64)
        requires
            self.wf(),
            0 <= i < self.transfers().len(),
            self.transfers()[i].approved && now >= self.transfers()[i].release_at,
        ensures
            self.transfers()[i].status != TransferApprovalStatus::PendingApproval,
            self.transfers()[i].required_approvals > 0 ==> self.transfers()[i].approvals.view_set().len() as u32
                >= self.transfers()[i].required_approvals,
    {
        assert(approval_ok(self.pending@[i]));
    }
}


/// The manager's counts as JSON (keys in sorted order).
pub open spec fn enterprise_stats_text(pending: nat, orgs: nat, total: nat) -> Seq<char> {
    "{\"pending_transfers\":"@ + dec_chars(pending) + ",\"total_orgs\":"@ + dec_chars(orgs) + ",\"total_transfers\":"@
        + dec_chars(total) + "}"@
}

impl EnterpriseManager {
    /// The counts of outstanding transfers, organizations and all
    /// transfers, as JSON.
    pub fn stats_json(&self) -> (r: String)
        requires
            self.wf(),
        ensures
            r@ == enterprise_stats_text(
                self.transfers().filter(|t: PendingTransfer| is_open(t)).len(),
                self.org_map().len(),
                self.transfers().len(),
            ),
    {
        let (orgs, open, total) = self.stats_counts();
        let mut out = prefixed_decimal("{\"pending_transfers\":", open as u64);
        out.append(prefixed_decimal(",\"total_orgs\":", orgs as u64).as_str());
        out.append(prefixed_decimal(",\"total_transfers\":", total as u64).as_str());
        out.append("}");
        out
    }
}

} // verus!
