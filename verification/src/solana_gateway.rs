//! The first Solana gateway program: a registry of processed sequences,
//! proof submission checked by a two-pair BN254 pairing, and the burn share
//! of bought-back tokens.
//!
//! The pairing itself runs in a syscall: its input is built here and its
//! outcome is handed in. A refused instruction changes nothing.
use vstd::prelude::*;

verus! {

/// The negated generator of G2, as the pairing syscall reads a G2 point:
/// `x_c1`, `x_c0`, `y_c1`, `y_c0`, each 32 bytes big-endian.
pub const NEG_G2_GEN: [u8; 128] = [
    0x18, 0x00, 0xde, 0xef, 0x12, 0x1f, 0x1e, 0x76, 0x42, 0x6a, 0x00, 0x66, 0x5e, 0x5c, 0x44, 0x79,
    0x67, 0x43, 0x22, 0xd4, 0xf7, 0x5e, 0xda, 0xdd, 0x46, 0xde, 0xbd, 0x5c, 0xd9, 0x92, 0xf6, 0xed,
    0x19, 0x8e, 0x93, 0x93, 0x92, 0x0d, 0x48, 0x3a, 0x72, 0x60, 0xbf, 0xb7, 0x31, 0xfb, 0x5d, 0x25,
    0xf1, 0xaa, 0x49, 0x33, 0x35, 0xa9, 0xe7, 0x12, 0x97, 0xe4, 0x85, 0xb7, 0xae, 0xf3, 0x12, 0xc2,
    0x12, 0xc8, 0x5e, 0xa5, 0xdb, 0x8c, 0x6d, 0xeb, 0x4a, 0xab, 0x71, 0x80, 0x8d, 0xcb, 0x40, 0x8f,
    0xe3, 0xd1, 0xe7, 0x69, 0x0c, 0x43, 0xd3, 0x7b, 0x4c, 0xe6, 0xcc, 0x01, 0x66, 0xfa, 0x7d, 0xaa,
    0x09, 0x06, 0x89, 0xd0, 0x58, 0x5f, 0xf0, 0x75, 0xec, 0x9e, 0x99, 0xad, 0x6b, 0x85, 0x63, 0xef,
    0x40, 0x66, 0x38, 0x0c, 0x10, 0x73, 0xd5, 0x28, 0x39, 0x9e, 0x71, 0x59, 0x2c, 0x34, 0xa2, 0x33,
];

/// Exact length of a proof in bytes.
pub const PROOF_LEN: usize = 256;

/// Share of bought-back tokens that is burned, in percent.
pub const BURN_PERCENT: u64 = 40;

/// Errors of the program.
#[derive(Debug, Clone, Copy, PartialEq, Eq, Structural)]
pub enum HubError {
    SequenceAlreadyProcessed,
    InvalidProof,
    InvalidProofLength,
}

impl HubError {
    /// The message of the error.
    pub fn message(&self) -> (r: &'static str)
        ensures
            *self == HubError::SequenceAlreadyProcessed ==> r@ == "This sequence has already been processed."@,
            *self == HubError::InvalidProof ==> r@ == "Invalid ZK proof: BN254 pairing check failed."@,
            *self == HubError::InvalidProofLength ==> r@ == "Proof must be exactly 256 bytes."@,
    {
        match self {
            HubError::SequenceAlreadyProcessed => "This sequence has already been processed.",
            HubError::InvalidProof => "Invalid ZK proof: BN254 pairing check failed.",
            HubError::InvalidProofLength => "Proof must be exactly 256 bytes.",
        }
    }
}

/// The program's state account.
#[derive(Debug, Clone, Copy, PartialEq, Eq)]
pub struct StateRegistry {
    pub admin: [u8; 32],
    pub fee_rate_bps: u16,
    /// The highest sequence accepted so far.
    pub processed_sequences: u64,
}

/// Emitted when a proof is accepted.
#[derive(Debug, Clone, Copy, PartialEq, Eq)]
pub struct ProofVerifiedEvent {
    pub sequence: u64,
    pub payload_hash: [u8; 32],
    pub relayer: [u8; 32],
}

/// Emitted when tokens are burned.
#[derive(Debug, Clone, Copy, PartialEq, Eq, Structural)]
pub struct TokenBurnedEvent {
    pub amount: u64,
}

/// A new registry: no sequence processed yet.
pub fn initialize(admin: [u8; 32], fee_rate_bps: u16) -> (r: StateRegistry)
    ensures
        r == (StateRegistry { admin, fee_rate_bps, processed_sequences: 0 }),
{
    StateRegistry { admin, fee_rate_bps, processed_sequences: 0 }
}

/// Input of the pairing check `e(A, B) e(C, -G2) = 1`: `A` and `B` from the
/// proof, then `C` and the negated generator; `None` for a proof that is
/// not 256 bytes (which the program refuses without a pairing).
pub fn pairing_input(proof: &[u8]) -> (r: Option<Vec<u8>>)
    ensures
        proof@.len() != PROOF_LEN ==> r is None,
        proof@.len() == PROOF_LEN ==> (r matches Some(v) && v@ == proof@ + NEG_G2_GEN@),
{
    if proof.len() != PROOF_LEN {
        return None;
    }
    let mut out: Vec<u8> = Vec::new();
    let mut i: usize = 0;
    while i < PROOF_LEN
        invariant
            i <= PROOF_LEN,
            proof@.len() == PROOF_LEN,
            out@ == proof@.subrange(0, i as int),
        decreases PROOF_LEN - i,
    {
        out.push(proof[i]);
        i = i + 1;
        assert(out@ =~= proof@.subrange(0, i as int));
    }
    let mut k: usize = 0;
    while k < 128
        invariant
            k <= 128,
            proof@.len() == PROOF_LEN,
            out@ == proof@ + NEG_G2_GEN@.subrange(0, k as int),
        decreases 128 - k,
    {
        out.push(NEG_G2_GEN[k]);
        k = k + 1;
        assert(out@ =~= proof@ + NEG_G2_GEN@.subrange(0, k as int));
    }
    assert(proof@.subrange(0, PROOF_LEN as int) =~= proof@);
    assert(NEG_G2_GEN@.subrange(0, 128) =~= NEG_G2_GEN@);
    Some(out)
}

/// The error `submit_proof` answers with, if any: an old sequence, then a
/// proof that is not 256 bytes or whose pairing failed.
pub open spec fn submit_error(registry: StateRegistry, sequence: u64, proof_len: nat, pairing_ok: bool) -> Option<
    HubError,
> {
    if sequence <= registry.processed_sequences {
        Some(HubError::SequenceAlreadyProcessed)
    } else if proof_len != PROOF_LEN || !pairing_ok {
        Some(HubError::InvalidProof)
    } else {
        None
    }
}

/// Accept the proof of message `sequence`. `pairing_ok` is the outcome of
/// the pairing syscall on `pairing_input(proof_data)`.
pub fn submit_proof(
    registry: &mut StateRegistry,
    relayer: [u8; 32],
    sequence: u64,
    proof_data: &[u8],
    payload_hash: [u8; 32],
    pairing_ok: bool,
) -> (r: Result<ProofVerifiedEvent, HubError>)
    ensures
        match submit_error(*old(registry), sequence, proof_data@.len(), pairing_ok) {
            Some(e) => r == Err::<ProofVerifiedEvent, HubError>(e) && *final(registry) == *old(registry),
            None => r == Ok::<ProofVerifiedEvent, HubError>(ProofVerifiedEvent { sequence, payload_hash, relayer })
                && *final(registry) == (StateRegistry { processed_sequences: sequence, ..*old(registry) }),
        },
{
    if sequence <= registry.processed_sequences {
        return Err(HubError::SequenceAlreadyProcessed);
    }
    if proof_data.len() != PROOF_LEN || !pairing_ok {
        return Err(HubError::InvalidProof);
    }
    registry.processed_sequences = sequence;
    Ok(ProofVerifiedEvent { sequence, payload_hash, relayer })
}

/// Burn 40% of the bought-back `amount` (rounded down).
pub fn buy_back_and_burn(amount: u64) -> (r: TokenBurnedEvent)
    ensures
        r.amount == amount * BURN_PERCENT / 100,
{
    let burn = (amount as u128) * (BURN_PERCENT as u128) / 100;
    TokenBurnedEvent { amount: burn as u64 }
}

/// Accepted sequences only grow, and an accepted sequence is refused when
/// it is submitted again.
pub proof fn law_sequences_only_grow(registry: StateRegistry, sequence: u64, proof_len: nat, pairing_ok: bool)
    requires
        submit_error(registry, sequence, proof_len, pairing_ok) is None,
    ensures
        sequence > registry.processed_sequences,
        forall|len: nat, ok: bool|
            #![trigger submit_error(StateRegistry { processed_sequences: sequence, ..registry }, sequence, len, ok)]
            submit_error(StateRegistry { processed_sequences: sequence, ..registry }, sequence, len, ok)
                == Some(HubError::SequenceAlreadyProcessed),
{
}

/// The burn never exceeds the bought-back amount.
pub proof fn law_burn_is_a_share(amount: u64)
    ensures
        amount * BURN_PERCENT / 100 <= amount,
{
}

} // verus!
