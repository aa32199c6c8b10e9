//! Optional compliance screening: sanctions list, KYC attestations and a
//! whitelist. With screening disabled every address is allowed.
use vstd::prelude::*;
use vstd::string::StringExecFns;
use crate::text::{concat3, dec_chars, prefixed_decimal, str_debug, str_debug_spec};
use crate::keyed::{has_key, keyed_map, lemma_keyed_at, lemma_keyed_empty, lemma_keyed_len, lemma_keyed_push, lemma_keyed_remove, lemma_keyed_update, unique_keys};

verus! {

/// Capacity of the sanctions list.
pub const MAX_SANCTIONS_ENTRIES: usize = 10_000;
/// Capacity of the KYC registry.
pub const MAX_KYC_RECORDS: usize = 1_000_000;
/// Risk score from which an address is flagged.
pub const AUTO_FLAG_RISK_THRESHOLD: u8 = 75;
/// Risk score from which an address is blocked.
pub const AUTO_BLOCK_RISK_THRESHOLD: u8 = 90;

/// Risk classification, from least to most severe.
#[derive(Debug, Clone, Copy, PartialEq, Eq, PartialOrd, Ord, Structural)]
pub enum RiskLevel {
    Low,
    Medium,
    High,
    Blocked,
}

/// Risk level of a score.
pub open spec fn risk_of(score: u8) -> RiskLevel {
    if score >= AUTO_BLOCK_RISK_THRESHOLD {
        RiskLevel::Blocked
    } else if score >= AUTO_FLAG_RISK_THRESHOLD {
        RiskLevel::High
    } else if score >= 40 {
        RiskLevel::Medium
    } else {
        RiskLevel::Low
    }
}

impl RiskLevel {
    /// Risk level of a score: 90+ blocked, 75+ high, 40+ medium, else low.
    pub fn from_score(score: u8) -> (r: Self)
        ensures
            r == risk_of(score),
    {
        if score >= AUTO_BLOCK_RISK_THRESHOLD {
            RiskLevel::Blocked
        } else if score >= AUTO_FLAG_RISK_THRESHOLD {
            RiskLevel::High
        } else if score >= 40 {
            RiskLevel::Medium
        } else {
            RiskLevel::Low
        }
    }
}

/// Why an address is sanctioned.
#[derive(Debug, Clone, PartialEq, Eq)]
pub enum SanctionReason {
    OfacSdn,
    ExploitRelated,
    Ransomware,
    SandwichAttack,
    CommunityFlag,
    Custom(String),
}

/// The `Debug` text of a sanction reason.
pub open spec fn sanction_reason_text(r: SanctionReason) -> Seq<char> {
    match r {
        SanctionReason::OfacSdn => "OfacSdn"@,
        SanctionReason::ExploitRelated => "ExploitRelated"@,
        SanctionReason::Ransomware => "Ransomware"@,
        SanctionReason::SandwichAttack => "SandwichAttack"@,
        SanctionReason::CommunityFlag => "CommunityFlag"@,
        SanctionReason::Custom(t) => "Custom("@ + str_debug_spec(t@) + ")"@,
    }
}

impl SanctionReason {
    /// The reason as its `Debug` text.
    pub fn debug_text(&self) -> (r: String)
        ensures
            r@ == sanction_reason_text(*self),
    {
        match self {
            SanctionReason::OfacSdn => "OfacSdn".to_owned(),
            SanctionReason::ExploitRelated => "ExploitRelated".to_owned(),
            SanctionReason::Ransomware => "Ransomware".to_owned(),
            SanctionReason::SandwichAttack => "SandwichAttack".to_owned(),
            SanctionReason::CommunityFlag => "CommunityFlag".to_owned(),
            SanctionReason::Custom(t) => {
                let d = str_debug(t.as_str());
                concat3("Custom(", d.as_str(), ")")
            },
        }
    }
}

/// The reason a sanctioned address is blocked with.
pub open spec fn sanction_block_text(e: SanctionEntry) -> Seq<char> {
    "address on sanctions list: "@ + sanction_reason_text(e.reason) + " (proposal #"@ + dec_chars(e.proposal_id as nat)
        + ")"@
}


/// An entry of the sanctions list.
#[derive(Debug, Clone)]
pub struct SanctionEntry {
    pub address: String,
    pub reason: SanctionReason,
    pub added_at: u64,
    pub proposal_id: u64,
}

/// A KYC attestation.
#[derive(Debug, Clone)]
pub struct KycRecord {
    pub address: String,
    pub attestation_hash: [u8; 32],
    pub provider: String,
    pub risk_score: u8,
    pub attested_at: u64,
    pub expires_at: u64,
}

impl KycRecord {
    /// The attestation has not expired at `now`.
    pub fn is_valid_at(&self, now: u64) -> (r: bool)
        ensures
            r == (now < self.expires_at),
    {
        now < self.expires_at
    }

    /// Risk level of the attested score.
    pub fn risk_level(&self) -> (r: RiskLevel)
        ensures
            r == risk_of(self.risk_score),
    {
        RiskLevel::from_score(self.risk_score)
    }
}

/// Outcome of screening an address.
#[derive(Debug, Clone)]
pub struct ScreeningResult {
    pub address: String,
    pub blocked: bool,
    pub flagged: bool,
    pub risk_level: RiskLevel,
    pub reason: String,
}

/// KYC registry errors.
#[derive(Debug, PartialEq, Eq)]
pub enum KycError {
    SanctionsListFull,
    KycRegistryFull,
}

impl ScreeningResult {
    fn allow(address: &str) -> (r: Self)
        ensures
            r.address@ == address@,
            !r.blocked && !r.flagged && r.risk_level == RiskLevel::Low,
            r.reason@ == "address not on sanctions list"@,
    {
        ScreeningResult {
            address: address.to_owned(),
            blocked: false,
            flagged: false,
            risk_level: RiskLevel::Low,
            reason: "address not on sanctions list".to_owned(),
        }
    }

    fn block(address: &str, reason: String) -> (r: Self)
        ensures
            r.address@ == address@,
            r.blocked && r.flagged && r.risk_level == RiskLevel::Blocked,
            r.reason@ == reason@,
    {
        ScreeningResult { address: address.to_owned(), blocked: true, flagged: true, risk_level: RiskLevel::Blocked, reason }
    }

    fn flag(address: &str, reason: String, risk: RiskLevel) -> (r: Self)
        ensures
            r.address@ == address@,
            !r.blocked && r.flagged && r.risk_level == risk,
            r.reason@ == reason@,
    {
        ScreeningResult { address: address.to_owned(), blocked: false, flagged: true, risk_level: risk, reason }
    }
}

/// Screening verdict for an address: `(blocked, flagged, risk)`.
pub open spec fn verdict(
    enabled: bool,
    require_kyc: bool,
    whitelisted: bool,
    sanctioned: bool,
    record: Option<KycRecord>,
    now: u64,
) -> (bool, bool, RiskLevel) {
    if !enabled || whitelisted {
        (false, false, RiskLevel::Low)
    } else if sanctioned {
        (true, true, RiskLevel::Blocked)
    } else {
        match record {
            None => if require_kyc {
                (true, true, RiskLevel::Blocked)
            } else {
                (false, false, RiskLevel::Low)
            },
            Some(rec) => if now >= rec.expires_at {
                if require_kyc {
                    (true, true, RiskLevel::Blocked)
                } else {
                    (false, false, RiskLevel::Low)
                }
            } else if risk_of(rec.risk_score) == RiskLevel::Blocked {
                (true, true, RiskLevel::Blocked)
            } else if risk_of(rec.risk_score) == RiskLevel::High {
                (false, true, RiskLevel::High)
            } else {
                (false, false, RiskLevel::Low)
            },
        }
    }
}

/// Key of a sanctions entry: its address.
pub open spec fn sanction_key() -> spec_fn(SanctionEntry) -> Seq<char> {
    |e: SanctionEntry| e.address@
}

/// Key of a KYC record: its address.
pub open spec fn record_key() -> spec_fn(KycRecord) -> Seq<char> {
    |r: KycRecord| r.address@
}

/// The compliance registry.
pub struct KycRegistry {
    screening_enabled: bool,
    sanctions: Vec<SanctionEntry>,
    kyc_records: Vec<KycRecord>,
    require_kyc: bool,
    whitelist: Vec<String>,
}

fn find_sanction(s: &Vec<SanctionEntry>, key: &String) -> (r: Option<usize>)
    ensures
        match r {
            Some(i) => i < s@.len() && s@[i as int].address@ == key@,
            None => !has_key(s@, sanction_key(), key@),
        },
{
    let mut i: usize = 0;
    while i < s.len()
        invariant
            0 <= i <= s@.len(),
            forall|k: int| 0 <= k < i ==> (#[trigger] s@[k]).address@ != key@,
        decreases s@.len() - i,
    {
        if s[i].address == *key {
            return Some(i);
        }
        i = i + 1;
    }
    None
}

fn find_record(s: &Vec<KycRecord>, key: &String) -> (r: Option<usize>)
    ensures
        match r {
            Some(i) => i < s@.len() && s@[i as int].address@ == key@,
            None => !has_key(s@, record_key(), key@),
        },
{
    let mut i: usize = 0;
    while i < s.len()
        invariant
            0 <= i <= s@.len(),
            forall|k: int| 0 <= k < i ==> (#[trigger] s@[k]).address@ != key@,
        decreases s@.len() - i,
    {
        if s[i].address == *key {
            return Some(i);
        }
        i = i + 1;
    }
    None
}

fn find_string(s: &Vec<String>, key: &String) -> (r: bool)
    ensures
        r == exists|i: int| 0 <= i < s@.len() && #[trigger] s@[i]@ == key@,
{
    let mut i: usize = 0;
    while i < s.len()
        invariant
            0 <= i <= s@.len(),
            forall|k: int| 0 <= k < i ==> s@[k]@ != key@,
        decreases s@.len() - i,
    {
        if s[i] == *key {
            return true;
        }
        i = i + 1;
    }
    false
}

impl KycRegistry {
    /// Whether screening is on.
    pub closed spec fn enabled(&self) -> bool {
        self.screening_enabled
    }

    /// Whether a valid KYC record is mandatory.
    pub closed spec fn kyc_required(&self) -> bool {
        self.require_kyc
    }

    /// The sanctions list, by address.
    pub closed spec fn sanction_map(&self) -> Map<Seq<char>, SanctionEntry> {
        keyed_map(self.sanctions@, sanction_key())
    }

    /// The KYC records, by address.
    pub closed spec fn record_map(&self) -> Map<Seq<char>, KycRecord> {
        keyed_map(self.kyc_records@, record_key())
    }

    /// The whitelisted addresses.
    pub closed spec fn whitelist_set(&self) -> Set<Seq<char>> {
        Set::new(|a: Seq<char>| exists|i: int| 0 <= i < self.whitelist@.len() && #[trigger] self.whitelist@[i]@ == a)
    }

    /// Internal consistency: no address appears twice in a list.
    pub closed spec fn wf(&self) -> bool {
        &&& unique_keys(self.sanctions@, sanction_key())
        &&& unique_keys(self.kyc_records@, record_key())
    }

    /// The address is whitelisted.
    pub open spec fn whitelisted(&self, a: Seq<char>) -> bool {
        self.whitelist_set().contains(a)
    }

    /// The address is on the sanctions list.
    pub open spec fn sanctioned(&self, a: Seq<char>) -> bool {
        self.sanction_map().dom().contains(a)
    }

    /// The KYC record of an address, if any.
    pub open spec fn record_of(&self, a: Seq<char>) -> Option<KycRecord> {
        if self.record_map().dom().contains(a) {
            Some(self.record_map()[a])
        } else {
            None
        }
    }

    /// The sanctions list has as many entries as addresses, and so has the
    /// KYC registry.
    proof fn lemma_counts(&self)
        requires
            self.wf(),
        ensures
            self.sanction_map().dom().finite(),
            self.record_map().dom().finite(),
            self.sanction_map().len() == self.sanctions@.len(),
            self.record_map().len() == self.kyc_records@.len(),
    {
        lemma_keyed_len(self.sanctions@, sanction_key());
        lemma_keyed_len(self.kyc_records@, record_key());
    }

    /// A permissionless registry: screening off, KYC not required, empty lists.
    pub fn new() -> (r: Self)
        ensures
            r.wf(),
            !r.enabled(),
            !r.kyc_required(),
            r.sanction_map() == Map::<Seq<char>, SanctionEntry>::empty(),
            r.record_map() == Map::<Seq<char>, KycRecord>::empty(),
            r.whitelist_set() == Set::<Seq<char>>::empty(),
    {
        let r = KycRegistry {
            screening_enabled: false,
            sanctions: Vec::new(),
            kyc_records: Vec::new(),
            require_kyc: false,
            whitelist: Vec::new(),
        };
        proof {
            lemma_keyed_empty(sanction_key());
            lemma_keyed_empty(record_key());
            assert(r.sanctions@ =~= Seq::<SanctionEntry>::empty());
            assert(r.kyc_records@ =~= Seq::<KycRecord>::empty());
            assert(r.whitelist_set() =~= Set::<Seq<char>>::empty());
        }
        r
    }

    /// Turn screening on or off.
    pub fn set_screening_enabled(&mut self, enabled: bool)
        ensures
            final(self).enabled() == enabled,
            final(self).wf() == old(self).wf(),
            final(self).kyc_required() == old(self).kyc_required(),
            final(self).sanction_map() == old(self).sanction_map(),
            final(self).record_map() == old(self).record_map(),
            final(self).whitelist_set() == old(self).whitelist_set(),
    {
        self.screening_enabled = enabled;
    }

    /// Require (or stop requiring) a valid KYC record.
    pub fn set_require_kyc(&mut self, required: bool)
        ensures
            final(self).kyc_required() == required,
            final(self).wf() == old(self).wf(),
            final(self).enabled() == old(self).enabled(),
            final(self).sanction_map() == old(self).sanction_map(),
            final(self).record_map() == old(self).record_map(),
            final(self).whitelist_set() == old(self).whitelist_set(),
    {
        self.require_kyc = required;
    }

    /// Whether screening is on.
    pub fn screening_enabled(&self) -> (r: bool)
        ensures
            r == self.enabled(),
    {
        self.screening_enabled
    }

    /// Add (or replace) the sanctions entry of an address, unless the list
    /// already holds `MAX_SANCTIONS_ENTRIES` addresses.
    pub fn add_sanction(&mut self, address: &str, reason: SanctionReason, added_at: u64, proposal_id: u64) -> (r:
        Result<(), KycError>)
        requires
            old(self).wf(),
        ensures
            final(self).wf(),
            final(self).enabled() == old(self).enabled(),
            final(self).kyc_required() == old(self).kyc_required(),
            final(self).record_map() == old(self).record_map(),
            final(self).whitelist_set() == old(self).whitelist_set(),
            old(self).sanction_map().len() >= MAX_SANCTIONS_ENTRIES ==> r == Err::<(), KycError>(
                KycError::SanctionsListFull,
            ) && final(self).sanction_map() == old(self).sanction_map(),
            old(self).sanction_map().len() < MAX_SANCTIONS_ENTRIES ==> {
                &&& r is Ok
                &&& final(self).sanction_map().dom() == old(self).sanction_map().dom().insert(address@)
                &&& final(self).sanction_map().remove(address@) == old(self).sanction_map().remove(address@)
                &&& final(self).sanction_map()[address@].address@ == address@
                &&& final(self).sanction_map()[address@].reason == reason
                &&& final(self).sanction_map()[address@].added_at == added_at
                &&& final(self).sanction_map()[address@].proposal_id == proposal_id
            },
    {
        proof { self.lemma_counts(); }
        if self.sanctions.len() >= MAX_SANCTIONS_ENTRIES {
            return Err(KycError::SanctionsListFull);
        }
        let key = address.to_owned();
        let entry = SanctionEntry { address: address.to_owned(), reason, added_at, proposal_id };
        let ghost old_s = self.sanctions@;
        let ghost e = entry;
        match find_sanction(&self.sanctions, &key) {
            Some(i) => {
                self.sanctions.set(i, entry);
                proof {
                    lemma_keyed_update(old_s, sanction_key(), i as int, e);
                    assert(self.sanctions@ == old_s.update(i as int, e));
                }
            },
            None => {
                self.sanctions.push(entry);
                proof {
                    lemma_keyed_push(old_s, sanction_key(), e);
                }
            },
        }
        proof {
            assert(self.sanction_map() == keyed_map(old_s, sanction_key()).insert(address@, e));
            assert(self.sanction_map().remove(address@) =~= old(self).sanction_map().remove(address@));
        }
        Ok(())
    }

    /// Remove the address from the sanctions list; returns whether it was on it.
    pub fn remove_sanction(&mut self, address: &str) -> (r: bool)
        requires
            old(self).wf(),
        ensures
            r == old(self).sanctioned(address@),
            final(self).wf(),
            final(self).sanction_map() == old(self).sanction_map().remove(address@),
            final(self).enabled() == old(self).enabled(),
            final(self).kyc_required() == old(self).kyc_required(),
            final(self).record_map() == old(self).record_map(),
            final(self).whitelist_set() == old(self).whitelist_set(),
    {
        let key = address.to_owned();
        let ghost old_s = self.sanctions@;
        match find_sanction(&self.sanctions, &key) {
            Some(i) => {
                proof {
                    lemma_keyed_at(old_s, sanction_key(), i as int);
                    lemma_keyed_remove(old_s, sanction_key(), i as int);
                }
                self.sanctions.remove(i);
                true
            },
            None => {
                proof {
                    assert(old(self).sanction_map().remove(address@) =~= old(self).sanction_map());
                }
                false
            },
        }
    }

    /// Add (or replace) the KYC record of its address, unless the registry
    /// already holds `MAX_KYC_RECORDS` addresses.
    pub fn register_kyc(&mut self, record: KycRecord) -> (r: Result<(), KycError>)
        requires
            old(self).wf(),
        ensures
            final(self).wf(),
            final(self).enabled() == old(self).enabled(),
            final(self).kyc_required() == old(self).kyc_required(),
            final(self).sanction_map() == old(self).sanction_map(),
            final(self).whitelist_set() == old(self).whitelist_set(),
            old(self).record_map().len() >= MAX_KYC_RECORDS ==> r == Err::<(), KycError>(KycError::KycRegistryFull)
                && final(self).record_map() == old(self).record_map(),
            old(self).record_map().len() < MAX_KYC_RECORDS ==> r is Ok && final(self).record_map()
                == old(self).record_map().insert(record.address@, record),
    {
        proof { self.lemma_counts(); }
        if self.kyc_records.len() >= MAX_KYC_RECORDS {
            return Err(KycError::KycRegistryFull);
        }
        let ghost old_s = self.kyc_records@;
        let ghost rec = record;
        let key = record.address.clone();
        match find_record(&self.kyc_records, &key) {
            Some(i) => {
                self.kyc_records.set(i, record);
                proof {
                    lemma_keyed_update(old_s, record_key(), i as int, rec);
                    assert(self.kyc_records@ == old_s.update(i as int, rec));
                }
            },
            None => {
                self.kyc_records.push(record);
                proof {
                    lemma_keyed_push(old_s, record_key(), rec);
                }
            },
        }
        Ok(())
    }

    /// Add an address to the whitelist.
    pub fn whitelist(&mut self, address: &str)
        ensures
            final(self).whitelist_set() == old(self).whitelist_set().insert(address@),
            final(self).wf() == old(self).wf(),
            final(self).enabled() == old(self).enabled(),
            final(self).kyc_required() == old(self).kyc_required(),
            final(self).sanction_map() == old(self).sanction_map(),
            final(self).record_map() == old(self).record_map(),
    {
        let key = address.to_owned();
        if !find_string(&self.whitelist, &key) {
            let ghost old_w = self.whitelist@;
            self.whitelist.push(key);
            proof {
                assert forall|a: Seq<char>| #[trigger] self.whitelist_set().contains(a) == old(self).whitelist_set().insert(
                    address@,
                ).contains(a) by {
                    if a == address@ {
                        assert(self.whitelist@[old_w.len() as int]@ == a);
                    }
                    if self.whitelist_set().contains(a) && a != address@ {
                        let i = choose|i: int| 0 <= i < self.whitelist@.len() && #[trigger] self.whitelist@[i]@ == a;
                        assert(old_w[i]@ == a);
                    }
                    if old(self).whitelist_set().contains(a) {
                        let i = choose|i: int| 0 <= i < old_w.len() && #[trigger] old_w[i]@ == a;
                        assert(self.whitelist@[i]@ == a);
                    }
                }
                assert(self.whitelist_set() =~= old(self).whitelist_set().insert(address@));
            }
        } else {
            proof {
                assert(old(self).whitelist_set().insert(address@) =~= old(self).whitelist_set());
            }
        }
    }

    /// Screen an address. Screening off or a whitelisted address: allowed.
    /// Sanctioned: blocked. Otherwise a valid KYC record with a blocking
    /// score blocks and one with a high score flags; without a valid record
    /// the address is blocked if KYC is mandatory and allowed if not.
    pub fn screen(&self, address: &str, now: u64) -> (r: ScreeningResult)
        requires
            self.wf(),
        ensures
            r.address@ == address@,
            (r.blocked, r.flagged, r.risk_level) == verdict(
                self.enabled(),
                self.kyc_required(),
                self.whitelisted(address@),
                self.sanctioned(address@),
                self.record_of(address@),
                now,
            ),
            !r.blocked && !r.flagged ==> r.reason@ == "address not on sanctions list"@,
            self.enabled() && !self.whitelisted(address@) && self.sanctioned(address@) ==> r.reason@
                == sanction_block_text(self.sanction_map()[address@]),
            self.enabled() && !self.whitelisted(address@) && !self.sanctioned(address@) ==> match self.record_of(
                address@,
            ) {
                None => self.kyc_required() ==> r.reason@ == "mandatory KYC required: no record found"@,
                Some(rec) => {
                    &&& now >= rec.expires_at && self.kyc_required() ==> r.reason@
                        == "mandatory KYC required: record expired"@
                    &&& now < rec.expires_at && risk_of(rec.risk_score) == RiskLevel::Blocked ==> r.reason@
                        == "KYC risk score "@ + dec_chars(rec.risk_score as nat) + " exceeds block threshold"@
                    &&& now < rec.expires_at && risk_of(rec.risk_score) == RiskLevel::High ==> r.reason@
                        == "KYC risk score "@ + dec_chars(rec.risk_score as nat) + " exceeds flag threshold"@
                },
            },
    {
        if !self.screening_enabled {
            return ScreeningResult::allow(address);
        }
        let key = address.to_owned();
        if find_string(&self.whitelist, &key) {
            return ScreeningResult::allow(address);
        }
        match find_sanction(&self.sanctions, &key) {
            Some(i) => {
                proof { lemma_keyed_at(self.sanctions@, sanction_key(), i as int); }
                let mut reason = "address on sanctions list: ".to_owned();
                reason.append(self.sanctions[i].reason.debug_text().as_str());
                reason.append(prefixed_decimal(" (proposal #", self.sanctions[i].proposal_id).as_str());
                reason.append(")");
                return ScreeningResult::block(address, reason);
            },
            None => {},
        }
        match find_record(&self.kyc_records, &key) {
            None => {
                if self.require_kyc {
                    return ScreeningResult::block(address, "mandatory KYC required: no record found".to_owned());
                }
            },
            Some(i) => {
                proof { lemma_keyed_at(self.kyc_records@, record_key(), i as int); }
                let record = &self.kyc_records[i];
                if !record.is_valid_at(now) {
                    if self.require_kyc {
                        return ScreeningResult::block(address, "mandatory KYC required: record expired".to_owned());
                    }
                } else {
                    let risk = record.risk_level();
                    if risk == RiskLevel::Blocked {
                        let mut reason = prefixed_decimal("KYC risk score ", record.risk_score as u64);
                        reason.append(" exceeds block threshold");
                        return ScreeningResult::block(address, reason);
                    }
                    if risk == RiskLevel::High {
                        let mut reason = prefixed_decimal("KYC risk score ", record.risk_score as u64);
                        reason.append(" exceeds flag threshold");
                        return ScreeningResult::flag(address, reason, risk);
                    }
                }
            },
        }
        ScreeningResult::allow(address)
    }

    /// Number of sanctioned addresses.
    pub fn sanctions_count(&self) -> (r: usize)
        requires
            self.wf(),
        ensures
            r == self.sanction_map().len(),
    {
        proof { self.lemma_counts(); }
        self.sanctions.len()
    }

    /// Number of addresses with a KYC record.
    pub fn kyc_count(&self) -> (r: usize)
        requires
            self.wf(),
        ensures
            r == self.record_map().len(),
    {
        proof { self.lemma_counts(); }
        self.kyc_records.len()
    }

    /// Whether the address is on the sanctions list.
    pub fn is_sanctioned(&self, address: &str) -> (r: bool)
        requires
            self.wf(),
        ensures
            r == self.sanctioned(address@),
    {
        let key = address.to_owned();
        match find_sanction(&self.sanctions, &key) {
            Some(i) => {
                proof { lemma_keyed_at(self.sanctions@, sanction_key(), i as int); }
                true
            },
            None => false,
        }
    }

    /// The KYC record of an address, if any.
    pub fn get_kyc_record(&self, address: &str) -> (r: Option<&KycRecord>)
        requires
            self.wf(),
        ensures
            match self.record_of(address@) {
                Some(rec) => r == Some(&rec),
                None => r is None,
            },
    {
        let key = address.to_owned();
        match find_record(&self.kyc_records, &key) {
            Some(i) => {
                proof { lemma_keyed_at(self.kyc_records@, record_key(), i as int); }
                Some(&self.kyc_records[i])
            },
            None => None,
        }
    }
}

} // verus!
