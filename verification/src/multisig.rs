//! Threshold signatures of validators over proof commitments: validator
//! sets with a majority threshold, signature bundles, their checks and their
//! byte encoding.
use vstd::prelude::*;
use vstd::string::StringExecFns;
use crate::bytes::{be_bytes, push_be, push_bytes, sha256_digest, sha256_spec};
use crate::text::{dec_chars, decimal, prefixed_decimal};

pub mod hex_commitment;
pub mod hex_sig;

verus! {

/// Default number of signatures required.
pub const DEFAULT_THRESHOLD: usize = 3;
/// Default number of validators.
pub const DEFAULT_VALIDATOR_COUNT: usize = 5;
/// Largest validator set.
pub const MAX_VALIDATORS: usize = 50;
/// Smallest threshold, in basis points of the set size.
pub const MIN_THRESHOLD_BPS_OF_N: u32 = 5_001;
/// Threshold of a comparable guardian network.
pub const WORMHOLE_THRESHOLD: usize = 13;
/// Size of a comparable guardian network.
pub const WORMHOLE_VALIDATOR_COUNT: usize = 19;

/// A validator's key, position and name.
#[derive(Debug, Clone, PartialEq, Eq)]
pub struct ValidatorId {
    pub pubkey_bytes: [u8; 32],
    pub index: usize,
    pub alias: String,
}

impl ValidatorId {
    pub fn new(pubkey_bytes: [u8; 32], index: usize, alias: &str) -> (r: Self)
        ensures
            r.pubkey_bytes == pubkey_bytes,
            r.index == index,
            r.alias@ == alias@,
    {
        ValidatorId { pubkey_bytes, index, alias: alias.to_owned() }
    }
}

/// One validator's signature.
#[derive(Debug, Clone, Copy)]
pub struct ValidatorSignature {
    pub validator_index: usize,
    pub signature: [u8; 64],
    pub signed_at: u64,
}

/// Signatures collected over one commitment.
#[derive(Debug, Clone)]
pub struct MultiSigBundle {
    pub commitment: [u8; 32],
    pub signatures: Vec<ValidatorSignature>,
    pub validator_count: usize,
    pub threshold: usize,
    pub sequence: u64,
    pub source_chain_id: u64,
}

/// Multi-signature errors.
#[derive(Debug, Clone, Copy, PartialEq, Eq, Structural)]
pub enum MultiSigError {
    EmptyValidatorSet,
    TooManyValidators { count: usize, max: usize },
    InvalidThreshold { threshold: usize, n: usize },
    ThresholdTooLow { threshold_bps: u32, min_bps: u32 },
    InsufficientSignatures { got: usize, need: usize },
    DuplicateValidator { index: usize },
    UnknownValidator { index: usize },
    InvalidSignatureLength { got: usize },
    CommitmentMismatch,
}

/// Human-readable text of an error.
pub open spec fn error_text(e: MultiSigError) -> Seq<char> {
    match e {
        MultiSigError::EmptyValidatorSet => "validator set is empty"@,
        MultiSigError::TooManyValidators { count, max } => "too many validators: "@ + dec_chars(count as nat) + " > "@
            + dec_chars(max as nat),
        MultiSigError::InvalidThreshold { threshold, n } => "invalid threshold "@ + dec_chars(threshold as nat)
            + " for "@ + dec_chars(n as nat) + " validators"@,
        MultiSigError::ThresholdTooLow { threshold_bps, min_bps } => "threshold "@ + dec_chars(threshold_bps as nat)
            + " bps below minimum "@ + dec_chars(min_bps as nat) + " bps (must be >50%)"@,
        MultiSigError::InsufficientSignatures { got, need } => "insufficient signatures: got "@ + dec_chars(
            got as nat,
        ) + ", need "@ + dec_chars(need as nat),
        MultiSigError::DuplicateValidator { index } => "duplicate validator signature at index "@ + dec_chars(
            index as nat,
        ),
        MultiSigError::UnknownValidator { index } => "unknown validator at index "@ + dec_chars(index as nat),
        MultiSigError::InvalidSignatureLength { got } => "invalid signature length: "@ + dec_chars(got as nat)
            + " (expected 64)"@,
        MultiSigError::CommitmentMismatch => "bundle commitment does not match expected commitment"@,
    }
}

impl MultiSigError {
    /// Human-readable text of the error.
    pub fn message(&self) -> (r: String)
        ensures
            r@ == error_text(*self),
    {
        match *self {
            MultiSigError::EmptyValidatorSet => "validator set is empty".to_owned(),
            MultiSigError::TooManyValidators { count, max } => {
                let mut s = prefixed_decimal("too many validators: ", count as u64);
                s.append(" > ");
                s.append(decimal(max as u64).as_str());
                s
            },
            MultiSigError::InvalidThreshold { threshold, n } => {
                let mut s = prefixed_decimal("invalid threshold ", threshold as u64);
                s.append(" for ");
                s.append(decimal(n as u64).as_str());
                s.append(" validators");
                s
            },
            MultiSigError::ThresholdTooLow { threshold_bps, min_bps } => {
                let mut s = prefixed_decimal("threshold ", threshold_bps as u64);
                s.append(" bps below minimum ");
                s.append(decimal(min_bps as u64).as_str());
                s.append(" bps (must be >50%)");
                s
            },
            MultiSigError::InsufficientSignatures { got, need } => {
                let mut s = prefixed_decimal("insufficient signatures: got ", got as u64);
                s.append(", need ");
                s.append(decimal(need as u64).as_str());
                s
            },
            MultiSigError::DuplicateValidator { index } => prefixed_decimal(
                "duplicate validator signature at index ",
                index as u64,
            ),
            MultiSigError::UnknownValidator { index } => prefixed_decimal("unknown validator at index ", index as u64),
            MultiSigError::InvalidSignatureLength { got } => {
                let mut s = prefixed_decimal("invalid signature length: ", got as u64);
                s.append(" (expected 64)");
                s
            },
            MultiSigError::CommitmentMismatch => "bundle commitment does not match expected commitment".to_owned(),
        }
    }
}

/// A validator set and its threshold.
#[derive(Debug, Clone)]
pub struct ValidatorSet {
    pub validators: Vec<ValidatorId>,
    pub threshold: usize,
    pub epoch: u64,
}

/// Whether `threshold` of `n` validators is a strict majority as the
/// set requires: above 50% in whole basis points.
pub open spec fn threshold_bps(threshold: usize, n: usize) -> int {
    threshold * 10_000 / (n as int)
}

impl ValidatorSet {
    /// A set of the given validators requiring `threshold` signatures: the
    /// set must be non-empty and at most `MAX_VALIDATORS`, the threshold
    /// between 1 and the set size and above half of it.
    pub fn new(validators: Vec<ValidatorId>, threshold: usize) -> (r: Result<Self, MultiSigError>)
        ensures
            validators@.len() == 0 ==> r == Err::<ValidatorSet, MultiSigError>(MultiSigError::EmptyValidatorSet),
            validators@.len() > MAX_VALIDATORS ==> r == Err::<ValidatorSet, MultiSigError>(
                MultiSigError::TooManyValidators { count: validators@.len() as usize, max: MAX_VALIDATORS },
            ),
            0 < validators@.len() <= MAX_VALIDATORS && (threshold == 0 || threshold > validators@.len()) ==> r == Err::<
                ValidatorSet,
                MultiSigError,
            >(MultiSigError::InvalidThreshold { threshold, n: validators@.len() as usize }),
            0 < validators@.len() <= MAX_VALIDATORS && 0 < threshold <= validators@.len() && threshold_bps(
                threshold,
                validators@.len() as usize,
            ) < MIN_THRESHOLD_BPS_OF_N ==> r == Err::<ValidatorSet, MultiSigError>(
                MultiSigError::ThresholdTooLow {
                    threshold_bps: threshold_bps(threshold, validators@.len() as usize) as u32,
                    min_bps: MIN_THRESHOLD_BPS_OF_N,
                },
            ),
            0 < validators@.len() <= MAX_VALIDATORS && 0 < threshold <= validators@.len() && threshold_bps(
                threshold,
                validators@.len() as usize,
            ) >= MIN_THRESHOLD_BPS_OF_N ==> (r matches Ok(s) && s.validators == validators && s.threshold == threshold
                && s.epoch == 0),
    {
        let n = validators.len();
        if n == 0 {
            return Err(MultiSigError::EmptyValidatorSet);
        }
        if n > MAX_VALIDATORS {
            return Err(MultiSigError::TooManyValidators { count: n, max: MAX_VALIDATORS });
        }
        if threshold == 0 {
            return Err(MultiSigError::InvalidThreshold { threshold, n });
        }
        if threshold > n {
            return Err(MultiSigError::InvalidThreshold { threshold, n });
        }
        let bps = threshold * 10_000 / n;
        proof {
            assert(bps <= 10_000) by (nonlinear_arith)
                requires
                    bps == threshold * 10_000 / (n as int),
                    threshold <= n,
                    n > 0,
            {
                vstd::arithmetic::div_mod::lemma_div_is_ordered(threshold * 10_000, n * 10_000, n as int);
                vstd::arithmetic::div_mod::lemma_div_by_multiple(10_000, n as int);
            }
        }
        if bps < MIN_THRESHOLD_BPS_OF_N as usize {
            return Err(MultiSigError::ThresholdTooLow { threshold_bps: bps as u32, min_bps: MIN_THRESHOLD_BPS_OF_N });
        }
        Ok(ValidatorSet { validators, threshold, epoch: 0 })
    }

    /// Five placeholder validators, the `i`-th with key byte `i + 1` and
    /// name `validator-i`, three signatures required.
    pub fn default_3_of_5() -> (r: Self)
        ensures
            r.validators@.len() == 5,
            r.threshold == DEFAULT_THRESHOLD,
            r.epoch == 0,
            forall|i: int|
                0 <= i < 5 ==> {
                    let v = #[trigger] r.validators@[i];
                    &&& v.index == i
                    &&& v.pubkey_bytes[0] == i + 1
                    &&& forall|k: int| 1 <= k < 32 ==> v.pubkey_bytes[k] == 0
                    &&& v.alias@ == "validator-"@ + dec_chars(i as nat)
                },
    {
        let mut validators: Vec<ValidatorId> = Vec::new();
        let mut i: usize = 0;
        while i < 5
            invariant
                i <= 5,
                validators@.len() == i,
                forall|j: int|
                    0 <= j < i ==> {
                        let v = #[trigger] validators@[j];
                        &&& v.index == j
                        &&& v.pubkey_bytes[0] == j + 1
                        &&& forall|k: int| 1 <= k < 32 ==> v.pubkey_bytes[k] == 0
                        &&& v.alias@ == "validator-"@ + dec_chars(j as nat)
                    },
            decreases 5 - i,
        {
            let mut key = [0u8; 32];
            key[0] = i as u8 + 1;
            let alias = prefixed_decimal("validator-", i as u64);
            validators.push(ValidatorId { pubkey_bytes: key, index: i, alias });
            i = i + 1;
        }
        ValidatorSet { validators, threshold: DEFAULT_THRESHOLD, epoch: 0 }
    }

    /// The validator at a position.
    pub fn get(&self, index: usize) -> (r: Option<&ValidatorId>)
        ensures
            index < self.validators@.len() ==> r == Some(&self.validators@[index as int]),
            index >= self.validators@.len() ==> r is None,
    {
        if index < self.validators.len() {
            Some(&self.validators[index])
        } else {
            None
        }
    }

    /// Number of validators.
    pub fn n(&self) -> (r: usize)
        ensures
            r == self.validators@.len(),
    {
        self.validators.len()
    }

    /// How many validators may be offline while the others still reach the threshold.
    pub fn fault_tolerance(&self) -> (r: usize)
        ensures
            r == if self.validators@.len() >= self.threshold {
                self.validators@.len() - self.threshold
            } else {
                0
            },
    {
        self.validators.len().saturating_sub(self.threshold)
    }
}

impl MultiSigBundle {
    /// Whether the bundle has as many signatures as required.
    pub fn is_valid(&self) -> (r: bool)
        ensures
            r == (self.signatures@.len() >= self.threshold),
    {
        self.signatures.len() >= self.threshold
    }

    /// Share of the validators that signed, in basis points.
    pub fn participation_bps(&self) -> (r: u32)
        requires
            self.signatures@.len() * 10_000 <= usize::MAX,
        ensures
            self.validator_count == 0 ==> r == 0,
            self.validator_count > 0 ==> r == ((self.signatures@.len() * 10_000) as int / (self.validator_count as int)) as u32,
    {
        if self.validator_count == 0 {
            return 0;
        }
        (self.signatures.len() * 10_000 / self.validator_count) as u32
    }

    /// Positions of the validators that signed, in signing order.
    pub fn signers(&self) -> (r: Vec<usize>)
        ensures
            r@ == self.signatures@.map_values(|s: ValidatorSignature| s.validator_index),
    {
        let mut out: Vec<usize> = Vec::new();
        let mut i: usize = 0;
        while i < self.signatures.len()
            invariant
                i <= self.signatures@.len(),
                out@ == self.signatures@.take(i as int).map_values(|s: ValidatorSignature| s.validator_index),
            decreases self.signatures@.len() - i,
        {
            out.push(self.signatures[i].validator_index);
            proof {
                assert(self.signatures@.take(i as int + 1).map_values(|s: ValidatorSignature| s.validator_index)
                    =~= self.signatures@.take(i as int).map_values(|s: ValidatorSignature| s.validator_index).push(
                    self.signatures@[i as int].validator_index,
                ));
            }
            i = i + 1;
        }
        proof {
            assert(self.signatures@.take(i as int) =~= self.signatures@);
        }
        out
    }
}

/// The bytes hashed into a commitment: the proof, the sequence and the
/// source chain as 8-byte big-endian numbers, and the hub program.
pub open spec fn commitment_preimage(proof: Seq<u8>, sequence: u64, source_chain_id: u64, program: Seq<u8>) -> Seq<u8> {
    proof + be_bytes(sequence as nat, 8) + be_bytes(source_chain_id as nat, 8) + program
}

/// The commitment validators sign: the SHA-256 digest of the proof, the
/// sequence, the source chain and the hub program.
pub fn compute_commitment(proof_bytes: &[u8], sequence: u64, source_chain_id: u64, hub_program_id: &[u8; 32]) -> (r: [u8; 32])
    ensures
        r@ == sha256_spec(commitment_preimage(proof_bytes@, sequence, source_chain_id, hub_program_id@)),
{
    let mut pre: Vec<u8> = Vec::new();
    push_bytes(&mut pre, proof_bytes);
    push_be(&mut pre, sequence as u128, 8);
    push_be(&mut pre, source_chain_id as u128, 8);
    push_bytes(&mut pre, hub_program_id);
    assert(pre@ =~= commitment_preimage(proof_bytes@, sequence, source_chain_id, hub_program_id@));
    sha256_digest(pre.as_slice())
}

/// An empty bundle for a proof, with the set's size and threshold.
pub fn create_bundle(
    proof_bytes: &[u8],
    sequence: u64,
    source_chain_id: u64,
    hub_program_id: &[u8; 32],
    validator_set: &ValidatorSet,
) -> (r: MultiSigBundle)
    ensures
        r.commitment@ == sha256_spec(commitment_preimage(proof_bytes@, sequence, source_chain_id, hub_program_id@)),
        r.signatures@.len() == 0,
        r.validator_count == validator_set.validators@.len(),
        r.threshold == validator_set.threshold,
        r.sequence == sequence,
        r.source_chain_id == source_chain_id,
{
    let commitment = compute_commitment(proof_bytes, sequence, source_chain_id, hub_program_id);
    MultiSigBundle {
        commitment,
        signatures: Vec::new(),
        validator_count: validator_set.n(),
        threshold: validator_set.threshold,
        sequence,
        source_chain_id,
    }
}

/// Some signature of `sigs` is by the validator at `index`.
pub open spec fn signed_by(sigs: Seq<ValidatorSignature>, index: usize) -> bool {
    exists|k: int| 0 <= k < sigs.len() && (#[trigger] sigs[k]).validator_index == index
}

/// Add a validator's signature; the validator must be in the set and not
/// have signed already.
pub fn add_signature(
    bundle: &mut MultiSigBundle,
    validator_index: usize,
    signature: [u8; 64],
    validator_set: &ValidatorSet,
    signed_at: u64,
) -> (r: Result<(), MultiSigError>)
    ensures
        validator_index >= validator_set.validators@.len() ==> r == Err::<(), MultiSigError>(
            MultiSigError::UnknownValidator { index: validator_index },
        ) && *final(bundle) == *old(bundle),
        validator_index < validator_set.validators@.len() && signed_by(old(bundle).signatures@, validator_index)
            ==> r == Err::<(), MultiSigError>(MultiSigError::DuplicateValidator { index: validator_index })
            && *final(bundle) == *old(bundle),
        validator_index < validator_set.validators@.len() && !signed_by(old(bundle).signatures@, validator_index)
            ==> {
            &&& r is Ok
            &&& final(bundle).signatures@ == old(bundle).signatures@.push(
                ValidatorSignature { validator_index, signature, signed_at },
            )
            &&& final(bundle).commitment == old(bundle).commitment
            &&& final(bundle).validator_count == old(bundle).validator_count
            &&& final(bundle).threshold == old(bundle).threshold
            &&& final(bundle).sequence == old(bundle).sequence
            &&& final(bundle).source_chain_id == old(bundle).source_chain_id
        },
{
    if validator_index >= validator_set.n() {
        return Err(MultiSigError::UnknownValidator { index: validator_index });
    }
    let mut i: usize = 0;
    while i < bundle.signatures.len()
        invariant
            i <= bundle.signatures@.len(),
            bundle.signatures@ == old(bundle).signatures@,
            *bundle == *old(bundle),
            validator_index < validator_set.validators@.len(),
            forall|k: int| 0 <= k < i ==> (#[trigger] bundle.signatures@[k]).validator_index != validator_index,
        decreases bundle.signatures@.len() - i,
    {
        if bundle.signatures[i].validator_index == validator_index {
            return Err(MultiSigError::DuplicateValidator { index: validator_index });
        }
        i = i + 1;
    }
    bundle.signatures.push(ValidatorSignature { validator_index, signature, signed_at });
    Ok(())
}

/// Position of the first signature that repeats an earlier validator or
/// names one outside the set of `n`, if any.
pub open spec fn first_bad_signature(sigs: Seq<ValidatorSignature>, n: usize) -> Option<int>
    decreases sigs.len(),
{
    if sigs.len() == 0 {
        None
    } else {
        match first_bad_signature(sigs.drop_last(), n) {
            Some(k) => Some(k),
            None => {
                let last = sigs.last();
                if signed_by(sigs.drop_last(), last.validator_index) || last.validator_index >= n {
                    Some(sigs.len() - 1)
                } else {
                    None
                }
            },
        }
    }
}

/// Check a bundle before submission: enough signatures, no validator twice,
/// every validator in the set. (The signatures themselves are checked on chain.)
pub fn verify_bundle(bundle: &MultiSigBundle, validator_set: &ValidatorSet) -> (r: Result<(), MultiSigError>)
    ensures
        bundle.signatures@.len() < bundle.threshold ==> r == Err::<(), MultiSigError>(
            MultiSigError::InsufficientSignatures { got: bundle.signatures@.len() as usize, need: bundle.threshold },
        ),
        bundle.signatures@.len() >= bundle.threshold ==> match first_bad_signature(
            bundle.signatures@,
            validator_set.validators@.len() as usize,
        ) {
            None => r is Ok,
            Some(k) => {
                let s = bundle.signatures@[k];
                if signed_by(bundle.signatures@.take(k), s.validator_index) {
                    r == Err::<(), MultiSigError>(MultiSigError::DuplicateValidator { index: s.validator_index })
                } else {
                    r == Err::<(), MultiSigError>(MultiSigError::UnknownValidator { index: s.validator_index })
                }
            },
        },
{
    if bundle.signatures.len() < bundle.threshold {
        return Err(MultiSigError::InsufficientSignatures { got: bundle.signatures.len(), need: bundle.threshold });
    }
    let n = validator_set.n();
    let ghost sigs = bundle.signatures@;
    let mut i: usize = 0;
    while i < bundle.signatures.len()
        invariant
            i <= sigs.len(),
            sigs == bundle.signatures@,
            n == validator_set.validators@.len(),
            sigs.len() >= bundle.threshold,
            first_bad_signature(sigs.take(i as int), n) is None,
        decreases sigs.len() - i,
    {
        let idx = bundle.signatures[i].validator_index;
        let mut j: usize = 0;
        let mut dup = false;
        while j < i
            invariant
                j <= i < sigs.len(),
                sigs == bundle.signatures@,
                idx == sigs[i as int].validator_index,
                dup == signed_by(sigs.take(j as int), idx),
            decreases i - j,
        {
            proof {
                assert(sigs.take(j as int + 1).drop_last() =~= sigs.take(j as int));
                if signed_by(sigs.take(j as int), idx) {
                    let k = choose|k: int| 0 <= k < j && (#[trigger] sigs.take(j as int)[k]).validator_index == idx;
                    assert(sigs.take(j as int + 1)[k] == sigs.take(j as int)[k]);
                }
                if signed_by(sigs.take(j as int + 1), idx) && !signed_by(sigs.take(j as int), idx) {
                    let k = choose|k: int| 0 <= k < j + 1 && (#[trigger] sigs.take(j as int + 1)[k]).validator_index == idx;
                    if k < j {
                        assert(sigs.take(j as int)[k] == sigs.take(j as int + 1)[k]);
                    }
                }
                if sigs[j as int].validator_index == idx {
                    assert(sigs.take(j as int + 1)[j as int] == sigs[j as int]);
                }
            }
            if bundle.signatures[j].validator_index == idx {
                dup = true;
            }
            j = j + 1;
        }
        proof {
            let t = sigs.take(i as int + 1);
            assert(t.drop_last() =~= sigs.take(i as int));
            assert(t.last() == sigs[i as int]);
            assert(sigs.take(i as int + 1).take(i as int) =~= sigs.take(i as int));
        }
        if dup {
            proof {
                lemma_first_bad_extends(sigs, n, i as int);
            }
            return Err(MultiSigError::DuplicateValidator { index: idx });
        }
        if idx >= n {
            proof {
                lemma_first_bad_extends(sigs, n, i as int);
            }
            return Err(MultiSigError::UnknownValidator { index: idx });
        }
        i = i + 1;
    }
    proof {
        assert(sigs.take(i as int) =~= sigs);
    }
    Ok(())
}

/// Once a prefix has a bad signature at its end, that is the first bad one
/// of the whole sequence.
proof fn lemma_first_bad_extends(sigs: Seq<ValidatorSignature>, n: usize, i: int)
    requires
        0 <= i < sigs.len(),
        first_bad_signature(sigs.take(i), n) is None,
        first_bad_signature(sigs.take(i + 1), n) == Some(i),
    ensures
        first_bad_signature(sigs, n) == Some(i),
    decreases sigs.len() - i,
{
    if i + 1 < sigs.len() {
        lemma_first_bad_prefix(sigs, n, i + 1);
    } else {
        assert(sigs.take(i + 1) =~= sigs);
    }
}

/// A bad signature in a prefix stays the first bad one in any extension.
proof fn lemma_first_bad_prefix(sigs: Seq<ValidatorSignature>, n: usize, m: int)
    requires
        0 <= m <= sigs.len(),
        first_bad_signature(sigs.take(m), n) is Some,
    ensures
        first_bad_signature(sigs, n) == first_bad_signature(sigs.take(m), n),
    decreases sigs.len() - m,
{
    if m < sigs.len() {
        assert(sigs.take(m + 1).drop_last() =~= sigs.take(m));
        lemma_first_bad_prefix(sigs, n, m + 1);
    } else {
        assert(sigs.take(m) =~= sigs);
    }
}

/// Encoding of one signature: the validator position as a byte, then the signature.
pub open spec fn sig_bytes(s: ValidatorSignature) -> Seq<u8> {
    seq![s.validator_index as u8] + s.signature@
}

/// Encoding of a list of signatures, one after the other.
pub open spec fn sigs_bytes(v: Seq<ValidatorSignature>) -> Seq<u8>
    decreases v.len(),
{
    if v.len() == 0 {
        Seq::empty()
    } else {
        sigs_bytes(v.drop_last()) + sig_bytes(v.last())
    }
}

/// Encoding of a bundle for submission: threshold and signature count as
/// bytes, the commitment, then the signatures.
pub open spec fn bundle_bytes(b: MultiSigBundle) -> Seq<u8> {
    seq![b.threshold as u8, b.signatures@.len() as u8] + b.commitment@ + sigs_bytes(b.signatures@)
}

proof fn lemma_sigs_bytes(v: Seq<ValidatorSignature>)
    ensures
        sigs_bytes(v).len() == 65 * v.len(),
        forall|i: int, k: int|
            0 <= i < v.len() && 0 <= k < 65 ==> #[trigger] sigs_bytes(v)[65 * i + k] == sig_bytes(v[i])[k],
    decreases v.len(),
{
    if v.len() > 0 {
        let p = v.drop_last();
        lemma_sigs_bytes(p);
        assert forall|i: int, k: int| 0 <= i < v.len() && 0 <= k < 65 implies #[trigger] sigs_bytes(v)[65 * i + k]
            == sig_bytes(v[i])[k] by {
            if i < p.len() {
                assert(sigs_bytes(v)[65 * i + k] == sigs_bytes(p)[65 * i + k]);
                assert(p[i] == v[i]);
            } else {
                assert(sigs_bytes(v)[65 * i + k] == sig_bytes(v.last())[65 * i + k - 65 * p.len()]);
            }
        }
    }
}

/// Encode a bundle for submission.
pub fn serialize_bundle(bundle: &MultiSigBundle) -> (r: Vec<u8>)
    ensures
        r@ == bundle_bytes(*bundle),
{
    let mut out: Vec<u8> = Vec::new();
    out.push(bundle.threshold as u8);
    out.push(bundle.signatures.len() as u8);
    push_bytes(&mut out, &bundle.commitment);
    let ghost head = out@;
    let mut i: usize = 0;
    while i < bundle.signatures.len()
        invariant
            i <= bundle.signatures@.len(),
            out@ == head + sigs_bytes(bundle.signatures@.take(i as int)),
        decreases bundle.signatures@.len() - i,
    {
        let ghost before = out@;
        out.push(bundle.signatures[i].validator_index as u8);
        push_bytes(&mut out, &bundle.signatures[i].signature);
        proof {
            let t = bundle.signatures@.take(i as int + 1);
            assert(t.drop_last() =~= bundle.signatures@.take(i as int));
            assert(t.last() == bundle.signatures@[i as int]);
            assert(out@ =~= before + sig_bytes(bundle.signatures@[i as int]));
            assert(out@ =~= head + sigs_bytes(t));
        }
        i = i + 1;
    }
    proof {
        assert(bundle.signatures@.take(i as int) =~= bundle.signatures@);
        assert(out@ =~= bundle_bytes(*bundle));
    }
    out
}

/// Position of the first encoded signature whose validator is outside a set
/// of `count`, among the first `n`.
pub open spec fn first_unknown(bytes: Seq<u8>, n: int, count: usize) -> Option<int>
    decreases n,
{
    if n <= 0 {
        None
    } else {
        match first_unknown(bytes, n - 1, count) {
            Some(k) => Some(k),
            None => if bytes[34 + 65 * (n - 1)] >= count {
                Some(n - 1)
            } else {
                None
            },
        }
    }
}

/// `b` is the bundle encoded by `bytes`: threshold, commitment and each
/// signature read from their places, signing times unknown (zero).
pub open spec fn decodes_as(bytes: Seq<u8>, count: usize, sequence: u64, source_chain_id: u64, b: MultiSigBundle) -> bool {
    &&& b.threshold == bytes[0] as usize
    &&& b.commitment@ == bytes.subrange(2, 34)
    &&& b.signatures@.len() == bytes[1]
    &&& forall|i: int|
        0 <= i < b.signatures@.len() ==> {
            &&& (#[trigger] b.signatures@[i]).validator_index == bytes[34 + 65 * i] as usize
            &&& b.signatures@[i].signature@ == bytes.subrange(35 + 65 * i, 99 + 65 * i)
            &&& b.signatures@[i].signed_at == 0
        }
    &&& b.validator_count == count
    &&& b.sequence == sequence
    &&& b.source_chain_id == source_chain_id
}

fn copy64(s: &[u8], lo: usize) -> (r: [u8; 64])
    requires
        lo + 64 <= s@.len(),
    ensures
        r@ == s@.subrange(lo as int, lo + 64),
{
    let mut out = [0u8; 64];
    let slen = s.len();
    let mut i: usize = 0;
    while i < 64
        invariant
            i <= 64,
            lo + 64 <= s@.len(),
            slen == s@.len(),
            forall|k: int| 0 <= k < i ==> out@[k] == s@[lo + k],
        decreases 64 - i,
    {
        out[i] = s[lo + i];
        i = i + 1;
    }
    assert(out@ =~= s@.subrange(lo as int, lo + 64));
    out
}

/// Decode a bundle encoded by `serialize_bundle`.
pub fn deserialize_bundle(bytes: &[u8], validator_count: usize, sequence: u64, source_chain_id: u64) -> (r: Result<
    MultiSigBundle,
    MultiSigError,
>)
    ensures
        bytes@.len() < 34 ==> r == Err::<MultiSigBundle, MultiSigError>(
            MultiSigError::InvalidSignatureLength { got: bytes@.len() as usize },
        ),
        bytes@.len() >= 34 && bytes@.len() < 34 + 65 * bytes@[1] ==> r == Err::<MultiSigBundle, MultiSigError>(
            MultiSigError::InvalidSignatureLength { got: bytes@.len() as usize },
        ),
        bytes@.len() >= 34 && bytes@.len() >= 34 + 65 * bytes@[1] ==> match first_unknown(
            bytes@,
            bytes@[1] as int,
            validator_count,
        ) {
            Some(k) => r == Err::<MultiSigBundle, MultiSigError>(
                MultiSigError::UnknownValidator { index: bytes@[34 + 65 * k] as usize },
            ),
            None => r matches Ok(b) && decodes_as(bytes@, validator_count, sequence, source_chain_id, b),
        },
{
    if bytes.len() < 34 {
        return Err(MultiSigError::InvalidSignatureLength { got: bytes.len() });
    }
    let threshold = bytes[0] as usize;
    let n_sigs = bytes[1] as usize;
    let mut commitment = [0u8; 32];
    let mut c: usize = 0;
    while c < 32
        invariant
            c <= 32,
            bytes@.len() >= 34,
            forall|k: int| 0 <= k < c ==> commitment@[k] == bytes@[2 + k],
        decreases 32 - c,
    {
        commitment[c] = bytes[2 + c];
        c = c + 1;
    }
    assert(commitment@ =~= bytes@.subrange(2, 34));
    let expected_len = 34 + n_sigs * 65;
    if bytes.len() < expected_len {
        return Err(MultiSigError::InvalidSignatureLength { got: bytes.len() });
    }
    let mut signatures: Vec<ValidatorSignature> = Vec::new();
    let mut i: usize = 0;
    while i < n_sigs
        invariant
            i <= n_sigs,
            n_sigs == bytes@[1],
            bytes@.len() >= 34 + 65 * n_sigs,
            first_unknown(bytes@, i as int, validator_count) is None,
            signatures@.len() == i,
            forall|j: int|
                0 <= j < i ==> {
                    &&& (#[trigger] signatures@[j]).validator_index == bytes@[34 + 65 * j] as usize
                    &&& signatures@[j].signature@ == bytes@.subrange(35 + 65 * j, 99 + 65 * j)
                    &&& signatures@[j].signed_at == 0
                },
        decreases n_sigs - i,
    {
        let offset = 34 + i * 65;
        let validator_index = bytes[offset] as usize;
        if validator_index >= validator_count {
            proof {
                lemma_first_unknown_extends(bytes@, i as int, n_sigs as int, validator_count);
            }
            return Err(MultiSigError::UnknownValidator { index: validator_index });
        }
        let sig = copy64(bytes, offset + 1);
        signatures.push(ValidatorSignature { validator_index, signature: sig, signed_at: 0 });
        i = i + 1;
    }
    Ok(MultiSigBundle { commitment, signatures, validator_count, threshold, sequence, source_chain_id })
}

/// A validator outside the set at position `i`, with none before, is the
/// first one among any number of signatures from `i` on.
proof fn lemma_first_unknown_extends(bytes: Seq<u8>, i: int, n: int, count: usize)
    requires
        0 <= i < n,
        first_unknown(bytes, i, count) is None,
        bytes[34 + 65 * i] >= count,
    ensures
        first_unknown(bytes, n, count) == Some(i),
    decreases n - i,
{
    if n - 1 > i {
        lemma_first_unknown_extends(bytes, i, n - 1, count);
    }
}

/// Decoding an encoded bundle gives back its threshold, commitment and
/// signatures, provided the numbers fit in a byte and every signer is in
/// the set.
pub proof fn law_serialize_roundtrip(b: MultiSigBundle, out: MultiSigBundle)
    requires
        b.threshold < 256,
        b.signatures@.len() < 256,
        forall|k: int|
            0 <= k < b.signatures@.len() ==> (#[trigger] b.signatures@[k]).validator_index < 256
                && b.signatures@[k].validator_index < b.validator_count,
        decodes_as(bundle_bytes(b), b.validator_count, b.sequence, b.source_chain_id, out),
    ensures
        out.threshold == b.threshold,
        out.commitment == b.commitment,
        out.signatures@.len() == b.signatures@.len(),
        forall|k: int|
            0 <= k < b.signatures@.len() ==> (#[trigger] out.signatures@[k]).validator_index
                == b.signatures@[k].validator_index && out.signatures@[k].signature == b.signatures@[k].signature,
        out.validator_count == b.validator_count,
        out.sequence == b.sequence,
        out.source_chain_id == b.source_chain_id,
{
    let bytes = bundle_bytes(b);
    lemma_sigs_bytes(b.signatures@);
    assert(bytes.subrange(2, 34) =~= b.commitment@);
    assert(out.commitment@ =~= b.commitment@);
    assert forall|k: int| 0 <= k < b.signatures@.len() implies (#[trigger] out.signatures@[k]).validator_index
        == b.signatures@[k].validator_index && out.signatures@[k].signature == b.signatures@[k].signature by {
        let s = b.signatures@[k];
        assert(bytes[34 + 65 * k] == sigs_bytes(b.signatures@)[65 * k + 0]);
        assert(sig_bytes(s)[0] == s.validator_index as u8);
        assert forall|j: int| 0 <= j < 64 implies bytes.subrange(35 + 65 * k, 99 + 65 * k)[j] == s.signature@[j] by {
            assert(bytes[35 + 65 * k + j] == sigs_bytes(b.signatures@)[65 * k + (j + 1)]);
        }
        assert(bytes.subrange(35 + 65 * k, 99 + 65 * k) =~= s.signature@);
        assert(out.signatures@[k].signature@ =~= s.signature@);
    }
}

/// Every validator named in an encoded bundle is in the set, so decoding
/// reports no unknown validator.
pub proof fn law_serialize_all_known(b: MultiSigBundle)
    requires
        b.signatures@.len() < 256,
        forall|k: int|
            0 <= k < b.signatures@.len() ==> (#[trigger] b.signatures@[k]).validator_index < 256
                && b.signatures@[k].validator_index < b.validator_count,
    ensures
        bundle_bytes(b).len() == 34 + 65 * b.signatures@.len(),
        bundle_bytes(b)[1] == b.signatures@.len(),
        first_unknown(bundle_bytes(b), b.signatures@.len() as int, b.validator_count) is None,
{
    let bytes = bundle_bytes(b);
    lemma_sigs_bytes(b.signatures@);
    lemma_no_unknown(b, b.signatures@.len() as int);
}

proof fn lemma_no_unknown(b: MultiSigBundle, n: int)
    requires
        0 <= n <= b.signatures@.len(),
        b.signatures@.len() < 256,
        forall|k: int|
            0 <= k < b.signatures@.len() ==> (#[trigger] b.signatures@[k]).validator_index < 256
                && b.signatures@[k].validator_index < b.validator_count,
    ensures
        first_unknown(bundle_bytes(b), n, b.validator_count) is None,
    decreases n,
{
    if n > 0 {
        lemma_no_unknown(b, n - 1);
        lemma_sigs_bytes(b.signatures@);
        let k = n - 1;
        assert(bundle_bytes(b)[34 + 65 * k] == sigs_bytes(b.signatures@)[65 * k + 0]);
    }
}

} // verus!
