//! Witnesses of the consensus circuits: the public inputs that the
//! Ethereum sync-committee circuit and the Tendermint circuit expose for a
//! given assignment.
//!
//! Both circuits accumulate the weights (or voting powers) of the members
//! that took part, over the BN254 scalar field, and set a quorum flag from
//! the low 64 bits of the field elements: the sync committee when the
//! accumulated weight reaches the threshold, Tendermint when three times the
//! signed power exceeds twice the total power. Field elements are 32-byte
//! big-endian numbers.
use vstd::prelude::*;
use crate::bn254::{be_val, field_add, field_mul, lemma_be_push, lemma_be_split, lemma_pow256_table, pow256,
    scalar_from_u64, scalar_modulus};
use crate::recursion::{fr_add, fr_mul};

verus! {

/// The accumulated weight of the first `n` members: the field sum of
/// `weights[i] * bits[i]`.
pub open spec fn accumulated_value(weights: Seq<[u8; 32]>, bits: Seq<[u8; 32]>, n: int) -> nat
    decreases n,
{
    if n <= 0 {
        0
    } else {
        fr_add(
            accumulated_value(weights, bits, n - 1),
            fr_mul(be_val(weights[n - 1]@), be_val(bits[n - 1]@)),
        )
    }
}

/// The low 64 bits of a field element.
pub open spec fn low_u64(v: nat) -> nat {
    v % pow256(8)
}

/// The low 64 bits of a field element, as the circuits read counts and
/// weights from one.
fn field_to_u64(val: &[u8; 32]) -> (r: u64)
    ensures
        r == low_u64(be_val(val@)),
{
    proof {
        lemma_pow256_table();
    }
    let mut acc: u64 = 0;
    let mut k: usize = 24;
    assert(val@.subrange(24, 24).len() == 0);
    while k < 32
        invariant
            24 <= k <= 32,
            val@.len() == 32,
            acc == be_val(val@.subrange(24, k as int)),
            acc < pow256((k - 24) as nat),
            pow256(7) == 72057594037927936nat,
            pow256(8) == 18446744073709551616nat,
        decreases 32 - k,
    {
        proof {
            lemma_be_push(val@.subrange(24, k as int), val@[k as int]);
            assert(val@.subrange(24, k as int).push(val@[k as int]) =~= val@.subrange(24, k + 1));
            assert(pow256((k + 1 - 24) as nat) == 256 * pow256((k - 24) as nat));
            if k < 31 {
                assert(pow256((k - 24) as nat) <= pow256(7)) by {
                    lemma_pow256_mono((k - 24) as nat, 7);
                }
            }
            assert(acc * 256 + val@[k as int] < 256 * pow256((k - 24) as nat)) by (nonlinear_arith)
                requires
                    acc < pow256((k - 24) as nat),
                    val@[k as int] < 256,
            ;
        }
        acc = acc * 256 + val[k] as u64;
        k = k + 1;
    }
    proof {
        lemma_be_split(val@, 24);
        assert(val@.subrange(24, val@.len() as int) =~= val@.subrange(24, 32));
        let hi = be_val(val@.subrange(0, 24));
        vstd::arithmetic::div_mod::lemma_fundamental_div_mod_converse(
            be_val(val@) as int,
            pow256(8) as int,
            hi as int,
            acc as int,
        );
    }
    acc
}

proof fn lemma_pow256_mono(a: nat, b: nat)
    requires
        a <= b,
    ensures
        pow256(a) <= pow256(b),
    decreases b,
{
    if a < b {
        lemma_pow256_mono(a, (b - 1) as nat);
        crate::bn254::lemma_pow256_positive((b - 1) as nat);
    }
}

/// Field sum of `weights[i] * bits[i]` over all members.
fn accumulate(weights: &Vec<[u8; 32]>, bits: &Vec<[u8; 32]>) -> (r: [u8; 32])
    requires
        bits@.len() >= weights@.len(),
    ensures
        be_val(r@) == accumulated_value(weights@, bits@, weights@.len() as int),
        be_val(r@) < scalar_modulus(),
{
    let mut acc = scalar_from_u64(0);
    let mut i: usize = 0;
    while i < weights.len()
        invariant
            i <= weights@.len(),
            bits@.len() >= weights@.len(),
            be_val(acc@) == accumulated_value(weights@, bits@, i as int),
            be_val(acc@) < scalar_modulus(),
        decreases weights@.len() - i,
    {
        let term = field_mul(&weights[i], &bits[i]);
        proof {
            vstd::arithmetic::div_mod::lemma_mod_pos_bound(
                (be_val(weights@[i as int]@) * be_val(bits@[i as int]@)) as int,
                scalar_modulus() as int,
            );
        }
        acc = field_add(&acc, &term);
        proof {
            vstd::arithmetic::div_mod::lemma_mod_pos_bound(
                (accumulated_value(weights@, bits@, i as int) + be_val(term@)) as int,
                scalar_modulus() as int,
            );
        }
        i = i + 1;
    }
    acc
}

/// The public inputs of a consensus circuit: the block hash, the
/// accumulated weight and the quorum flag (1 or 0). The hash and the flag
/// are unknown where the circuit was given no hash or no threshold.
#[derive(Debug, Clone, Copy, PartialEq, Eq)]
pub struct ConsensusInstance {
    pub block_hash: Option<[u8; 32]>,
    pub accumulated: [u8; 32],
    pub quorum_flag: Option<[u8; 32]>,
}

/// A flag as a field element.
pub open spec fn flag_value(b: bool) -> nat {
    if b {
        1
    } else {
        0
    }
}

/// Assignment of the Ethereum sync-committee circuit.
#[derive(Debug, Clone)]
pub struct SyncCommitteeCircuit {
    /// Weight of each committee member.
    pub validator_weights: Vec<[u8; 32]>,
    /// Whether each member took part (1 or 0).
    pub participation_bits: Vec<[u8; 32]>,
    /// The block hash being attested.
    pub block_hash: Option<[u8; 32]>,
    /// Weight needed for a quorum.
    pub threshold: Option<[u8; 32]>,
}

impl SyncCommitteeCircuit {
    /// The sync committee reaches its quorum: the low 64 bits of the
    /// accumulated weight are at least those of the threshold.
    pub open spec fn quorum_spec(&self, threshold: [u8; 32]) -> bool {
        low_u64(accumulated_value(self.validator_weights@, self.participation_bits@,
            self.validator_weights@.len() as int)) >= low_u64(be_val(threshold@))
    }

    /// The public inputs the circuit exposes for this assignment.
    pub fn public_inputs(&self) -> (r: ConsensusInstance)
        requires
            self.participation_bits@.len() >= self.validator_weights@.len(),
            self.threshold matches Some(t) ==> be_val(t@) < scalar_modulus(),
        ensures
            r.block_hash == self.block_hash,
            be_val(r.accumulated@) == accumulated_value(
                self.validator_weights@,
                self.participation_bits@,
                self.validator_weights@.len() as int,
            ),
            self.threshold is None ==> r.quorum_flag is None,
            self.threshold matches Some(t) ==> (r.quorum_flag matches Some(f) && be_val(f@) == flag_value(
                self.quorum_spec(t),
            )),
    {
        let acc = accumulate(&self.validator_weights, &self.participation_bits);
        let quorum_flag = match &self.threshold {
            Some(t) => {
                let met = field_to_u64(&acc) >= field_to_u64(t);
                Some(scalar_from_u64(if met { 1 } else { 0 }))
            },
            None => None,
        };
        ConsensusInstance { block_hash: self.block_hash, accumulated: acc, quorum_flag }
    }
}

/// Assignment of the Tendermint circuit.
#[derive(Debug, Clone)]
pub struct TendermintCircuit {
    /// Voting power of each validator.
    pub voting_powers: Vec<[u8; 32]>,
    /// Whether each validator signed (1 or 0).
    pub signed_bits: Vec<[u8; 32]>,
    /// The block hash being committed.
    pub block_hash: Option<[u8; 32]>,
    /// Total voting power of the validator set.
    pub total_power: Option<[u8; 32]>,
}

impl TendermintCircuit {
    /// The low 64 bits of the signed power.
    pub open spec fn signed_low(&self) -> nat {
        low_u64(accumulated_value(self.voting_powers@, self.signed_bits@, self.voting_powers@.len() as int))
    }

    /// More than two thirds of the total power signed (on the low 64 bits).
    pub open spec fn quorum_spec(&self, total: [u8; 32]) -> bool {
        3 * self.signed_low() > 2 * low_u64(be_val(total@))
    }

    /// The public inputs the circuit exposes for this assignment.
    pub fn public_inputs(&self) -> (r: ConsensusInstance)
        requires
            self.signed_bits@.len() >= self.voting_powers@.len(),
            self.total_power matches Some(t) ==> be_val(t@) < scalar_modulus() && 3 * self.signed_low()
                <= u64::MAX && 2 * low_u64(be_val(t@)) <= u64::MAX,
        ensures
            r.block_hash == self.block_hash,
            be_val(r.accumulated@) == accumulated_value(
                self.voting_powers@,
                self.signed_bits@,
                self.voting_powers@.len() as int,
            ),
            self.total_power is None ==> r.quorum_flag is None,
            self.total_power matches Some(t) ==> (r.quorum_flag matches Some(f) && be_val(f@) == flag_value(
                self.quorum_spec(t),
            )),
    {
        let acc = accumulate(&self.voting_powers, &self.signed_bits);
        let quorum_flag = match &self.total_power {
            Some(t) => {
                let s = field_to_u64(&acc);
                let tp = field_to_u64(t);
                let met = 3 * s > 2 * tp;
                Some(scalar_from_u64(if met { 1 } else { 0 }))
            },
            None => None,
        };
        ConsensusInstance { block_hash: self.block_hash, accumulated: acc, quorum_flag }
    }
}

/// Members that took no part add nothing: where none of the first `n`
/// members took part, their accumulated weight is zero.
pub proof fn law_absent_members_add_nothing(weights: Seq<[u8; 32]>, bits: Seq<[u8; 32]>, n: int)
    requires
        0 <= n <= weights.len(),
        n <= bits.len(),
        forall|i: int| 0 <= i < n ==> be_val((#[trigger] bits[i])@) == 0,
    ensures
        accumulated_value(weights, bits, n) == 0,
    decreases n,
{
    if n > 0 {
        law_absent_members_add_nothing(weights, bits, n - 1);
        assert(be_val(bits[n - 1]@) == 0);
        assert(be_val(weights[n - 1]@) * 0 == 0);
        vstd::arithmetic::div_mod::lemma_small_mod(0, scalar_modulus());
    }
}

} // verus!
