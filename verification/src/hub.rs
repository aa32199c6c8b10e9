//! The Solana hub program's rules: relayer stakes, strictly ordered proof
//! submission, proof-gated minting, the constant-product swap pool, slashing
//! and burning.
//!
//! Each handler checks everything before it changes anything, so a refused
//! instruction leaves every account as it was (the runtime reverts a failed
//! transaction). Account validation (seeds, signers, owners) is the runtime's
//! and is not modelled; whether a Groth16 proof verifies is handed in, since
//! the curve operations run in syscalls. The inputs of those syscalls, and
//! the reading of the pairing result, are built here.
use vstd::prelude::*;
use crate::bn254::{be_val, commitment_value, compute_commitment_on_chain, domain_salt, negate_g1, negated_y};
use crate::bytes::keccak256_spec;

verus! {

/// Minimum stake of a relayer: 100,000 tokens with 6 decimals.
pub const MIN_STAKE_AMOUNT: u64 = 100_000_000_000;

/// Share of a stake burned when a relayer is slashed, in basis points.
pub const SLASH_BPS: u64 = 5_000;

/// Exact length of a Groth16 proof in bytes.
pub const PROOF_LEN: usize = 256;

/// Exact length of a serialised verification key in bytes.
pub const VK_LEN: usize = 576;

/// Share of bought-back tokens that is burned, in percent.
pub const BURN_PERCENT: u64 = 40;

/// Errors of the hub program.
#[derive(Debug, Clone, Copy, PartialEq, Eq, Structural)]
pub enum HubError {
    SequenceAlreadyProcessed,
    InvalidProof,
    InvalidProofLength,
    InsufficientStake,
    SlippageExceeded,
    EmptyPool,
    VKNotInitialized,
    InvalidVKLength,
}

impl HubError {
    /// The message the program reports for this error.
    pub fn message(&self) -> (r: &'static str)
        ensures
            r@ == hub_error_message(*self),
    {
        match self {
            HubError::SequenceAlreadyProcessed => "This sequence has already been processed.",
            HubError::InvalidProof => "Invalid ZK proof: Groth16 pairing check failed.",
            HubError::InvalidProofLength => "Proof must be exactly 256 bytes.",
            HubError::InsufficientStake => "Insufficient stake: minimum 100,000 ILINK required.",
            HubError::SlippageExceeded => "Slippage exceeded: output amount below minimum.",
            HubError::EmptyPool => "Liquidity pool is empty.",
            HubError::VKNotInitialized =>
                "Verification key not initialized. Call set_verification_key first.",
            HubError::InvalidVKLength => "Verification key data must be exactly 576 bytes.",
        }
    }
}

/// The message of each error.
pub open spec fn hub_error_message(e: HubError) -> Seq<char> {
    match e {
        HubError::SequenceAlreadyProcessed => "This sequence has already been processed."@,
        HubError::InvalidProof => "Invalid ZK proof: Groth16 pairing check failed."@,
        HubError::InvalidProofLength => "Proof must be exactly 256 bytes."@,
        HubError::InsufficientStake => "Insufficient stake: minimum 100,000 ILINK required."@,
        HubError::SlippageExceeded => "Slippage exceeded: output amount below minimum."@,
        HubError::EmptyPool => "Liquidity pool is empty."@,
        HubError::VKNotInitialized =>
            "Verification key not initialized. Call set_verification_key first."@,
        HubError::InvalidVKLength => "Verification key data must be exactly 576 bytes."@,
    }
}

/// Global state of the hub.
#[derive(Debug, Clone, Copy)]
pub struct StateRegistry {
    pub admin: [u8; 32],
    pub fee_rate_bps: u16,
    /// The only sequence number the hub accepts next.
    pub next_sequence: u64,
    pub total_staked: u64,
    pub total_burned: u64,
    pub vk_initialized: bool,
}

/// A relayer's stake.
#[derive(Debug, Clone, Copy)]
pub struct StakeAccount {
    pub relayer: [u8; 32],
    pub amount: u64,
    pub staked_at: i64,
}

/// A two-token constant-product pool.
#[derive(Debug, Clone, Copy)]
pub struct LiquidityPool {
    pub token_a_mint: [u8; 32],
    pub token_b_mint: [u8; 32],
    pub reserve_a: u64,
    pub reserve_b: u64,
    pub admin: [u8; 32],
}

/// The Groth16 verification key, as curve points in their byte encodings.
#[derive(Debug, Clone, Copy)]
pub struct VerificationKey {
    pub alpha_g1: [u8; 64],
    pub beta_g2: [u8; 128],
    pub gamma_g2: [u8; 128],
    pub delta_g2: [u8; 128],
    pub ic_0: [u8; 64],
    pub ic_1: [u8; 64],
}

fn copy_into(dst: &mut Vec<u8>, src: &[u8], from: usize, len: usize)
    requires
        from + len <= src@.len(),
    ensures
        final(dst)@ == old(dst)@ + src@.subrange(from as int, from + len),
{
    let n = src.len();
    let mut i: usize = 0;
    while i < len
        invariant
            i <= len,
            n == src@.len(),
            from + len <= n,
            dst@ == old(dst)@ + src@.subrange(from as int, from + i),
        decreases len - i,
    {
        dst.push(src[from + i]);
        i = i + 1;
        assert(dst@ =~= old(dst)@ + src@.subrange(from as int, from + i));
    }
}

/// Input of the scalar multiplication `commitment * IC[1]`: the point
/// `IC[1]` and the public input commitment of `payload_hash` and `sequence`.
pub fn groth16_ecmul_input(payload_hash: &[u8; 32], sequence: u64, vk: &VerificationKey) -> (r: Vec<u8>)
    ensures
        r@.len() == 96,
        r@.subrange(0, 64) == vk.ic_1@,
        be_val(r@.subrange(64, 96)) == commitment_value(
            be_val(payload_hash@),
            sequence,
            be_val(keccak256_spec(domain_salt())),
        ),
{
    let commitment = compute_commitment_on_chain(payload_hash, sequence);
    let mut out: Vec<u8> = Vec::new();
    copy_into(&mut out, &vk.ic_1, 0, 64);
    copy_into(&mut out, &commitment, 0, 32);
    assert(vk.ic_1@.subrange(0, 64) =~= vk.ic_1@);
    assert(commitment@.subrange(0, 32) =~= commitment@);
    assert(out@.subrange(0, 64) =~= vk.ic_1@);
    assert(out@.subrange(64, 96) =~= commitment@);
    out
}

/// Input of the addition `IC[0] + commitment * IC[1]`: `IC[0]` and the
/// first 64 bytes of the multiplication's result.
pub fn groth16_ecadd_input(vk: &VerificationKey, scaled_ic1: &[u8]) -> (r: Vec<u8>)
    requires
        scaled_ic1@.len() >= 64,
    ensures
        r@ == vk.ic_0@ + scaled_ic1@.subrange(0, 64),
{
    let mut out: Vec<u8> = Vec::new();
    copy_into(&mut out, &vk.ic_0, 0, 64);
    copy_into(&mut out, scaled_ic1, 0, 64);
    assert(vk.ic_0@.subrange(0, 64) =~= vk.ic_0@);
    out
}

/// Input of the four-pairing check `e(-A, B) e(alpha, beta) e(L, gamma)
/// e(C, delta) = 1`: for each pair a G1 point (64 bytes) and a G2 point
/// (128 bytes), `A`, `B` and `C` being the three parts of the proof and `L`
/// the first 64 bytes of the addition's result.
pub fn groth16_pairing_input(proof: &[u8], l_point: &[u8], vk: &VerificationKey) -> (r: Vec<u8>)
    requires
        proof@.len() == 256,
        l_point@.len() >= 64,
    ensures
        r@.len() == 768,
        r@.subrange(0, 32) == proof@.subrange(0, 32),
        be_val(r@.subrange(32, 64)) == negated_y(be_val(proof@.subrange(32, 64))),
        r@.subrange(64, 192) == proof@.subrange(64, 192),
        r@.subrange(192, 256) == vk.alpha_g1@,
        r@.subrange(256, 384) == vk.beta_g2@,
        r@.subrange(384, 448) == l_point@.subrange(0, 64),
        r@.subrange(448, 576) == vk.gamma_g2@,
        r@.subrange(576, 640) == proof@.subrange(192, 256),
        r@.subrange(640, 768) == vk.delta_g2@,
{
    let mut a = [0u8; 64];
    let mut i: usize = 0;
    while i < 64
        invariant
            i <= 64,
            proof@.len() == 256,
            a@.len() == 64,
            forall|k: int| 0 <= k < i ==> a@[k] == proof@[k],
        decreases 64 - i,
    {
        a.set(i, proof[i]);
        i = i + 1;
    }
    assert(a@ =~= proof@.subrange(0, 64));
    let neg_a = negate_g1(&a);
    let mut out: Vec<u8> = Vec::new();
    copy_into(&mut out, &neg_a, 0, 64);
    copy_into(&mut out, proof, 64, 128);
    copy_into(&mut out, &vk.alpha_g1, 0, 64);
    copy_into(&mut out, &vk.beta_g2, 0, 128);
    copy_into(&mut out, l_point, 0, 64);
    copy_into(&mut out, &vk.gamma_g2, 0, 128);
    copy_into(&mut out, proof, 192, 64);
    copy_into(&mut out, &vk.delta_g2, 0, 128);
    assert(neg_a@.subrange(0, 64) =~= neg_a@);
    assert(vk.alpha_g1@.subrange(0, 64) =~= vk.alpha_g1@);
    assert(vk.beta_g2@.subrange(0, 128) =~= vk.beta_g2@);
    assert(vk.gamma_g2@.subrange(0, 128) =~= vk.gamma_g2@);
    assert(vk.delta_g2@.subrange(0, 128) =~= vk.delta_g2@);
    assert(out@.subrange(0, 32) =~= neg_a@.subrange(0, 32));
    assert(a@.subrange(0, 32) =~= proof@.subrange(0, 32));
    assert(out@.subrange(32, 64) =~= neg_a@.subrange(32, 64));
    assert(a@.subrange(32, 64) =~= proof@.subrange(32, 64));
    assert(out@.subrange(64, 192) =~= proof@.subrange(64, 192));
    assert(out@.subrange(192, 256) =~= vk.alpha_g1@);
    assert(out@.subrange(256, 384) =~= vk.beta_g2@);
    assert(out@.subrange(384, 448) =~= l_point@.subrange(0, 64));
    assert(out@.subrange(448, 576) =~= vk.gamma_g2@);
    assert(out@.subrange(576, 640) =~= proof@.subrange(192, 256));
    assert(out@.subrange(640, 768) =~= vk.delta_g2@);
    out
}

/// The pairing result means "product is one": 31 zero bytes, then 1.
pub open spec fn pairing_accepts_spec(result: Seq<u8>) -> bool {
    result[31] == 1 && forall|k: int| 0 <= k < 31 ==> result[k] == 0
}

/// Whether the pairing syscall reported that the product is one.
pub fn pairing_accepts(result: &[u8]) -> (r: bool)
    requires
        result@.len() >= 32,
    ensures
        r == pairing_accepts_spec(result@),
{
    if result[31] != 1 {
        return false;
    }
    let mut i: usize = 0;
    while i < 31
        invariant
            i <= 31,
            result@.len() >= 32,
            forall|k: int| 0 <= k < i ==> result@[k] == 0,
        decreases 31 - i,
    {
        if result[i] != 0 {
            return false;
        }
        i = i + 1;
    }
    true
}

/// Emitted when a proof is accepted.
#[derive(Debug, Clone, Copy)]
pub struct ProofVerifiedEvent {
    pub sequence: u64,
    pub payload_hash: [u8; 32],
    pub relayer: [u8; 32],
}

/// Emitted when tokens are minted to a recipient (the mint itself is the
/// token program's).
#[derive(Debug, Clone, Copy)]
pub struct MintEvent {
    pub sequence: u64,
    pub recipient: [u8; 32],
    pub amount: u64,
    pub payload_hash: [u8; 32],
}

/// Emitted when a swap is executed; `amount_out` leaves the pool's B vault.
#[derive(Debug, Clone, Copy)]
pub struct SwapExecutedEvent {
    pub sequence: u64,
    pub amount_in: u64,
    pub amount_out: u64,
    pub fee: u64,
    pub recipient: [u8; 32],
}

/// Emitted when a relayer stakes.
#[derive(Debug, Clone, Copy)]
pub struct StakeEvent {
    pub relayer: [u8; 32],
    pub amount: u64,
    pub total_staked: u64,
}

/// Emitted when a relayer withdraws stake.
#[derive(Debug, Clone, Copy)]
pub struct UnstakeEvent {
    pub relayer: [u8; 32],
    pub amount: u64,
    pub remaining: u64,
}

/// Emitted when a relayer is slashed.
#[derive(Debug, Clone, Copy)]
pub struct SlashEvent {
    pub relayer: [u8; 32],
    pub slash_amount: u64,
    pub remaining_stake: u64,
}

/// Emitted when tokens are burned.
#[derive(Debug, Clone, Copy)]
pub struct TokenBurnedEvent {
    pub amount: u64,
}

/// Emitted when a pool is created.
#[derive(Debug, Clone, Copy)]
pub struct PoolInitializedEvent {
    pub token_a_mint: [u8; 32],
    pub token_b_mint: [u8; 32],
    pub reserve_a: u64,
    pub reserve_b: u64,
}

/// The state a fresh hub starts in.
pub fn initialize(admin: [u8; 32], fee_rate_bps: u16) -> (r: StateRegistry)
    ensures
        r == (StateRegistry {
            admin,
            fee_rate_bps,
            next_sequence: 0,
            total_staked: 0,
            total_burned: 0,
            vk_initialized: false,
        }),
{
    StateRegistry {
        admin,
        fee_rate_bps,
        next_sequence: 0,
        total_staked: 0,
        total_burned: 0,
        vk_initialized: false,
    }
}

fn copy64(data: &[u8], start: usize) -> (r: [u8; 64])
    requires
        start + 64 <= data.len(),
    ensures
        r@ == data@.subrange(start as int, start + 64),
{
    let mut out = [0u8; 64];
    let mut i: usize = 0;
    while i < 64
        invariant
            start + 64 <= data.len(),
            i <= 64,
            out@.len() == 64,
            forall|k: int| 0 <= k < i ==> out@[k] == data@[start + k],
        decreases 64 - i,
    {
        out.set(i, data[start + i]);
        i = i + 1;
    }
    assert(out@ =~= data@.subrange(start as int, start + 64));
    out
}

fn copy128(data: &[u8], start: usize) -> (r: [u8; 128])
    requires
        start + 128 <= data.len(),
    ensures
        r@ == data@.subrange(start as int, start + 128),
{
    let mut out = [0u8; 128];
    let mut i: usize = 0;
    while i < 128
        invariant
            start + 128 <= data.len(),
            i <= 128,
            out@.len() == 128,
            forall|k: int| 0 <= k < i ==> out@[k] == data@[start + k],
        decreases 128 - i,
    {
        out.set(i, data[start + i]);
        i = i + 1;
    }
    assert(out@ =~= data@.subrange(start as int, start + 128));
    out
}

/// Store a verification key from its 576-byte encoding: alpha (G1), beta,
/// gamma, delta (G2), then the two input commitments (G1).
pub fn set_verification_key(registry: &mut StateRegistry, vk_data: &[u8]) -> (r: Result<
    VerificationKey,
    HubError,
>)
    ensures
        vk_data@.len() != VK_LEN ==> r == Err::<VerificationKey, HubError>(HubError::InvalidVKLength)
            && *final(registry) == *old(registry),
        vk_data@.len() == VK_LEN ==> r is Ok && *final(registry) == (StateRegistry {
            vk_initialized: true,
            ..*old(registry)
        }),
        r matches Ok(vk) ==> {
            &&& vk.alpha_g1@ == vk_data@.subrange(0, 64)
            &&& vk.beta_g2@ == vk_data@.subrange(64, 192)
            &&& vk.gamma_g2@ == vk_data@.subrange(192, 320)
            &&& vk.delta_g2@ == vk_data@.subrange(320, 448)
            &&& vk.ic_0@ == vk_data@.subrange(448, 512)
            &&& vk.ic_1@ == vk_data@.subrange(512, 576)
        },
{
    if vk_data.len() != VK_LEN {
        return Err(HubError::InvalidVKLength);
    }
    let vk = VerificationKey {
        alpha_g1: copy64(vk_data, 0),
        beta_g2: copy128(vk_data, 64),
        gamma_g2: copy128(vk_data, 192),
        delta_g2: copy128(vk_data, 320),
        ic_0: copy64(vk_data, 448),
        ic_1: copy64(vk_data, 512),
    };
    registry.vk_initialized = true;
    Ok(vk)
}

/// The checks every proof-carrying instruction makes, in order, with the
/// error of the first that fails.
pub open spec fn proof_gate(
    registry: StateRegistry,
    stake: StakeAccount,
    sequence: u64,
    proof_len: nat,
    proof_valid: bool,
) -> Option<HubError> {
    if stake.amount < MIN_STAKE_AMOUNT {
        Some(HubError::InsufficientStake)
    } else if !registry.vk_initialized {
        Some(HubError::VKNotInitialized)
    } else if sequence != registry.next_sequence {
        Some(HubError::SequenceAlreadyProcessed)
    } else if proof_len != PROOF_LEN {
        Some(HubError::InvalidProofLength)
    } else if !proof_valid {
        Some(HubError::InvalidProof)
    } else {
        None
    }
}

fn check_proof_gate(
    registry: &StateRegistry,
    stake: &StakeAccount,
    sequence: u64,
    proof_data: &[u8],
    proof_valid: bool,
) -> (r: Option<HubError>)
    ensures
        r == proof_gate(*registry, *stake, sequence, proof_data@.len(), proof_valid),
{
    if stake.amount < MIN_STAKE_AMOUNT {
        Some(HubError::InsufficientStake)
    } else if !registry.vk_initialized {
        Some(HubError::VKNotInitialized)
    } else if sequence != registry.next_sequence {
        Some(HubError::SequenceAlreadyProcessed)
    } else if proof_data.len() != PROOF_LEN {
        Some(HubError::InvalidProofLength)
    } else if !proof_valid {
        Some(HubError::InvalidProof)
    } else {
        None
    }
}

/// Accept the proof of message `sequence` from a staked relayer.
/// `proof_valid` is the outcome of the Groth16 check of `proof_data` against
/// the payload hash, the sequence and the stored key.
pub fn submit_proof(
    registry: &mut StateRegistry,
    stake: &StakeAccount,
    relayer: [u8; 32],
    sequence: u64,
    proof_data: &[u8],
    payload_hash: [u8; 32],
    proof_valid: bool,
) -> (r: Result<ProofVerifiedEvent, HubError>)
    requires
        old(registry).next_sequence < u64::MAX,
    ensures
        match proof_gate(*old(registry), *stake, sequence, proof_data@.len(), proof_valid) {
            Some(e) => r == Err::<ProofVerifiedEvent, HubError>(e) && *final(registry) == *old(
                registry,
            ),
            None => r == Ok::<ProofVerifiedEvent, HubError>(
                ProofVerifiedEvent { sequence, payload_hash, relayer },
            ) && *final(registry) == (StateRegistry {
                next_sequence: (sequence + 1) as u64,
                ..*old(registry)
            }),
        },
{
    if let Some(e) = check_proof_gate(registry, stake, sequence, proof_data, proof_valid) {
        return Err(e);
    }
    registry.next_sequence = sequence + 1;
    Ok(ProofVerifiedEvent { sequence, payload_hash, relayer })
}

/// Accept a proof and mint `amount` wrapped tokens to `recipient`.
pub fn verify_and_mint(
    registry: &mut StateRegistry,
    stake: &StakeAccount,
    sequence: u64,
    amount: u64,
    proof_data: &[u8],
    payload_hash: [u8; 32],
    proof_valid: bool,
    recipient: [u8; 32],
) -> (r: Result<MintEvent, HubError>)
    requires
        old(registry).next_sequence < u64::MAX,
    ensures
        match proof_gate(*old(registry), *stake, sequence, proof_data@.len(), proof_valid) {
            Some(e) => r == Err::<MintEvent, HubError>(e) && *final(registry) == *old(registry),
            None => r == Ok::<MintEvent, HubError>(
                MintEvent { sequence, recipient, amount, payload_hash },
            ) && *final(registry) == (StateRegistry {
                next_sequence: (sequence + 1) as u64,
                ..*old(registry)
            }),
        },
{
    if let Some(e) = check_proof_gate(registry, stake, sequence, proof_data, proof_valid) {
        return Err(e);
    }
    registry.next_sequence = sequence + 1;
    Ok(MintEvent { sequence, recipient, amount, payload_hash })
}

/// The protocol fee taken from `amount_in`.
pub open spec fn swap_fee(amount_in: u64, fee_rate_bps: u16) -> int {
    amount_in * fee_rate_bps / 10_000
}

/// Output of a constant-product swap of `input` against the reserves.
pub open spec fn swap_output(input: int, reserve_in: int, reserve_out: int) -> int {
    input * reserve_out / (reserve_in + input)
}

/// A swap against a funded pool never drains the output reserve.
pub proof fn lemma_swap_output_below_reserve(input: int, reserve_in: int, reserve_out: int)
    requires
        input >= 0,
        reserve_in > 0,
        reserve_out > 0,
    ensures
        0 <= swap_output(input, reserve_in, reserve_out) < reserve_out,
{
    let d = reserve_in + input;
    let q = input * reserve_out / d;
    vstd::arithmetic::div_mod::lemma_fundamental_div_mod(input * reserve_out, d);
    assert(input * reserve_out < d * reserve_out) by (nonlinear_arith)
        requires
            input < d,
            reserve_out > 0,
    ;
    assert(0 <= input * reserve_out) by (nonlinear_arith)
        requires
            input >= 0,
            reserve_out > 0,
    ;
    vstd::arithmetic::div_mod::lemma_div_pos_is_pos(input * reserve_out, d);
    assert(q < reserve_out) by (nonlinear_arith)
        requires
            q * d <= input * reserve_out,
            input * reserve_out < d * reserve_out,
            d > 0,
            q == input * reserve_out / d,
            input * reserve_out == d * (input * reserve_out / d) + (input * reserve_out) % d,
            0 <= (input * reserve_out) % d,
    ;
}

/// What a swap that has passed the proof gate needs and the program does
/// not check but would abort on: a sequence that can advance; for a pool
/// with both reserves, a fee no larger than the input; and, for a swap that
/// meets its minimum, a reserve of token A that stays within `u64`.
pub open spec fn swap_computable(
    registry: StateRegistry,
    pool: LiquidityPool,
    amount_in: u64,
    min_amount_out: u64,
) -> bool {
    let fee = swap_fee(amount_in, registry.fee_rate_bps);
    let filled = pool.reserve_a > 0 && pool.reserve_b > 0;
    &&& registry.next_sequence < u64::MAX
    &&& filled ==> fee <= amount_in
    &&& filled && fee <= amount_in && swap_output(amount_in - fee, pool.reserve_a as int, pool.reserve_b as int)
        >= min_amount_out ==> pool.reserve_a + (amount_in - fee) <= u64::MAX
}

/// Accept a proof and swap `amount_in` of token A for token B through the
/// pool, net of the protocol fee, refusing an output below `min_amount_out`.
pub fn process_cross_chain_swap(
    registry: &mut StateRegistry,
    stake: &StakeAccount,
    pool: &mut LiquidityPool,
    sequence: u64,
    amount_in: u64,
    min_amount_out: u64,
    proof_data: &[u8],
    proof_valid: bool,
    recipient: [u8; 32],
) -> (r: Result<SwapExecutedEvent, HubError>)
    requires
        proof_gate(*old(registry), *stake, sequence, proof_data@.len(), proof_valid) is None ==> swap_computable(
            *old(registry),
            *old(pool),
            amount_in,
            min_amount_out,
        ),
    ensures
        ({
            let fee = swap_fee(amount_in, old(registry).fee_rate_bps);
            let net = amount_in - fee;
            let out = swap_output(net, old(pool).reserve_a as int, old(pool).reserve_b as int);
            let gate = proof_gate(*old(registry), *stake, sequence, proof_data@.len(), proof_valid);
            &&& gate is Some ==> r == Err::<SwapExecutedEvent, HubError>(gate->0)
            &&& gate is None && (old(pool).reserve_a == 0 || old(pool).reserve_b == 0) ==> r == Err::<
                SwapExecutedEvent,
                HubError,
            >(HubError::EmptyPool)
            &&& gate is None && old(pool).reserve_a > 0 && old(pool).reserve_b > 0 && out
                < min_amount_out ==> r == Err::<SwapExecutedEvent, HubError>(
                HubError::SlippageExceeded,
            )
            &&& gate is None && old(pool).reserve_a > 0 && old(pool).reserve_b > 0 && out >= min_amount_out
                ==> r is Ok
            &&& r is Err ==> *final(registry) == *old(registry) && *final(pool) == *old(pool)
            &&& r is Ok ==> {
                &&& gate is None && old(pool).reserve_a > 0 && old(pool).reserve_b > 0
                &&& out >= min_amount_out
                &&& r == Ok::<SwapExecutedEvent, HubError>(
                    SwapExecutedEvent {
                        sequence,
                        amount_in,
                        amount_out: out as u64,
                        fee: fee as u64,
                        recipient,
                    },
                )
                &&& *final(registry) == (StateRegistry {
                    next_sequence: (sequence + 1) as u64,
                    ..*old(registry)
                })
                &&& *final(pool) == (LiquidityPool {
                    reserve_a: (old(pool).reserve_a + net) as u64,
                    reserve_b: (old(pool).reserve_b - out) as u64,
                    ..*old(pool)
                })
            }
        }),
{
    if let Some(e) = check_proof_gate(registry, stake, sequence, proof_data, proof_valid) {
        return Err(e);
    }
    let reserve_in = pool.reserve_a;
    let reserve_out = pool.reserve_b;
    if !(reserve_in > 0 && reserve_out > 0) {
        return Err(HubError::EmptyPool);
    }
    let fee = (amount_in as u128 * registry.fee_rate_bps as u128 / 10_000) as u64;
    let amount_in_after_fee = amount_in - fee;
    assert(amount_in_after_fee as u128 * reserve_out as u128 <= u64::MAX as u128 * u64::MAX as u128)
        by (nonlinear_arith)
        requires
            amount_in_after_fee <= u64::MAX,
            reserve_out <= u64::MAX,
    ;
    let amount_out_wide = amount_in_after_fee as u128 * reserve_out as u128 / (reserve_in as u128
        + amount_in_after_fee as u128);
    proof {
        lemma_swap_output_below_reserve(amount_in_after_fee as int, reserve_in as int, reserve_out as int);
    }
    let amount_out = amount_out_wide as u64;
    if amount_out < min_amount_out {
        return Err(HubError::SlippageExceeded);
    }
    registry.next_sequence = sequence + 1;
    pool.reserve_a = reserve_in + amount_in_after_fee;
    pool.reserve_b = reserve_out - amount_out;
    Ok(SwapExecutedEvent { sequence, amount_in, amount_out, fee, recipient })
}

/// Stake `amount` more tokens for `relayer` at time `now` (unix seconds).
pub fn stake(
    registry: &mut StateRegistry,
    stake_account: &mut StakeAccount,
    relayer: [u8; 32],
    amount: u64,
    now: i64,
) -> (r: Result<StakeEvent, HubError>)
    requires
        amount >= MIN_STAKE_AMOUNT ==> old(stake_account).amount + amount <= u64::MAX,
        amount >= MIN_STAKE_AMOUNT ==> old(registry).total_staked + amount <= u64::MAX,
    ensures
        amount < MIN_STAKE_AMOUNT ==> r == Err::<StakeEvent, HubError>(HubError::InsufficientStake)
            && *final(registry) == *old(registry) && *final(stake_account) == *old(stake_account),
        amount >= MIN_STAKE_AMOUNT ==> {
            &&& *final(stake_account) == (StakeAccount {
                relayer,
                amount: (old(stake_account).amount + amount) as u64,
                staked_at: now,
            })
            &&& *final(registry) == (StateRegistry {
                total_staked: (old(registry).total_staked + amount) as u64,
                ..*old(registry)
            })
            &&& r == Ok::<StakeEvent, HubError>(
                StakeEvent { relayer, amount, total_staked: final(stake_account).amount },
            )
        },
{
    if amount < MIN_STAKE_AMOUNT {
        return Err(HubError::InsufficientStake);
    }
    stake_account.relayer = relayer;
    stake_account.amount = stake_account.amount + amount;
    stake_account.staked_at = now;
    registry.total_staked = registry.total_staked + amount;
    Ok(StakeEvent { relayer, amount, total_staked: stake_account.amount })
}

/// A withdrawal leaves either nothing or at least the minimum stake.
pub open spec fn unstake_allowed(staked: u64, amount: u64) -> bool {
    staked >= amount && (staked - amount == 0 || staked - amount >= MIN_STAKE_AMOUNT)
}

/// Withdraw `amount` of a relayer's stake.
pub fn unstake(registry: &mut StateRegistry, stake_account: &mut StakeAccount, amount: u64) -> (r:
    Result<UnstakeEvent, HubError>)
    requires
        unstake_allowed(old(stake_account).amount, amount) ==> old(registry).total_staked >= amount,
    ensures
        !unstake_allowed(old(stake_account).amount, amount) ==> r == Err::<UnstakeEvent, HubError>(
            HubError::InsufficientStake,
        ) && *final(registry) == *old(registry) && *final(stake_account) == *old(stake_account),
        unstake_allowed(old(stake_account).amount, amount) ==> {
            &&& *final(stake_account) == (StakeAccount {
                amount: (old(stake_account).amount - amount) as u64,
                ..*old(stake_account)
            })
            &&& *final(registry) == (StateRegistry {
                total_staked: (old(registry).total_staked - amount) as u64,
                ..*old(registry)
            })
            &&& r == Ok::<UnstakeEvent, HubError>(
                UnstakeEvent {
                    relayer: old(stake_account).relayer,
                    amount,
                    remaining: final(stake_account).amount,
                },
            )
        },
        r is Ok ==> final(stake_account).amount == 0 || final(stake_account).amount
            >= MIN_STAKE_AMOUNT,
{
    if stake_account.amount < amount {
        return Err(HubError::InsufficientStake);
    }
    let remaining = stake_account.amount - amount;
    if !(remaining == 0 || remaining >= MIN_STAKE_AMOUNT) {
        return Err(HubError::InsufficientStake);
    }
    stake_account.amount = remaining;
    registry.total_staked = registry.total_staked - amount;
    Ok(UnstakeEvent { relayer: stake_account.relayer, amount, remaining })
}

/// The part of a stake burned by a slash.
pub open spec fn slash_amount(staked: u64) -> int {
    staked * SLASH_BPS / 10_000
}

/// Burn half of a relayer's stake for an invalid proof.
pub fn slash_relayer(registry: &mut StateRegistry, stake_account: &mut StakeAccount) -> (r:
    SlashEvent)
    requires
        old(stake_account).amount * SLASH_BPS <= u64::MAX,
        old(registry).total_staked >= slash_amount(old(stake_account).amount),
        old(registry).total_burned + slash_amount(old(stake_account).amount) <= u64::MAX,
    ensures
        ({
            let s = slash_amount(old(stake_account).amount);
            &&& *final(stake_account) == (StakeAccount {
                amount: (old(stake_account).amount - s) as u64,
                ..*old(stake_account)
            })
            &&& *final(registry) == (StateRegistry {
                total_staked: (old(registry).total_staked - s) as u64,
                total_burned: (old(registry).total_burned + s) as u64,
                ..*old(registry)
            })
            &&& r == (SlashEvent {
                relayer: old(stake_account).relayer,
                slash_amount: s as u64,
                remaining_stake: final(stake_account).amount,
            })
        }),
{
    let slash = stake_account.amount * SLASH_BPS / 10_000;
    stake_account.amount = stake_account.amount - slash;
    registry.total_staked = registry.total_staked - slash;
    registry.total_burned = registry.total_burned + slash;
    SlashEvent {
        relayer: stake_account.relayer,
        slash_amount: slash,
        remaining_stake: stake_account.amount,
    }
}

/// The part of bought-back tokens that is burned.
pub open spec fn burn_amount(amount: u64) -> int {
    amount * BURN_PERCENT / 100
}

/// Burn 40% of `amount` bought-back tokens.
pub fn buy_back_and_burn(registry: &mut StateRegistry, amount: u64) -> (r: TokenBurnedEvent)
    requires
        old(registry).total_burned + burn_amount(amount) <= u64::MAX,
    ensures
        r == (TokenBurnedEvent { amount: burn_amount(amount) as u64 }),
        *final(registry) == (StateRegistry {
            total_burned: (old(registry).total_burned + burn_amount(amount)) as u64,
            ..*old(registry)
        }),
{
    let burn = (amount as u128 * BURN_PERCENT as u128 / 100) as u64;
    registry.total_burned = registry.total_burned + burn;
    TokenBurnedEvent { amount: burn }
}

/// Create a pool with both reserves funded.
pub fn initialize_pool(
    token_a_mint: [u8; 32],
    token_b_mint: [u8; 32],
    admin: [u8; 32],
    initial_reserve_a: u64,
    initial_reserve_b: u64,
) -> (r: Result<(LiquidityPool, PoolInitializedEvent), HubError>)
    ensures
        initial_reserve_a == 0 || initial_reserve_b == 0 ==> r == Err::<
            (LiquidityPool, PoolInitializedEvent),
            HubError,
        >(HubError::EmptyPool),
        initial_reserve_a > 0 && initial_reserve_b > 0 ==> r == Ok::<
            (LiquidityPool, PoolInitializedEvent),
            HubError,
        >(
            (
                LiquidityPool {
                    token_a_mint,
                    token_b_mint,
                    reserve_a: initial_reserve_a,
                    reserve_b: initial_reserve_b,
                    admin,
                },
                PoolInitializedEvent {
                    token_a_mint,
                    token_b_mint,
                    reserve_a: initial_reserve_a,
                    reserve_b: initial_reserve_b,
                },
            ),
        ),
{
    if !(initial_reserve_a > 0 && initial_reserve_b > 0) {
        return Err(HubError::EmptyPool);
    }
    let pool = LiquidityPool {
        token_a_mint,
        token_b_mint,
        reserve_a: initial_reserve_a,
        reserve_b: initial_reserve_b,
        admin,
    };
    let event = PoolInitializedEvent {
        token_a_mint,
        token_b_mint,
        reserve_a: initial_reserve_a,
        reserve_b: initial_reserve_b,
    };
    Ok((pool, event))
}

/// A swap never lowers the product of the pool's reserves.
pub proof fn law_swap_never_lowers_product(reserve_in: int, reserve_out: int, input: int)
    requires
        reserve_in > 0,
        reserve_out > 0,
        input >= 0,
    ensures
        (reserve_in + input) * (reserve_out - swap_output(input, reserve_in, reserve_out))
            >= reserve_in * reserve_out,
{
    let d = reserve_in + input;
    let out = swap_output(input, reserve_in, reserve_out);
    vstd::arithmetic::div_mod::lemma_fundamental_div_mod(input * reserve_out, d);
    assert(d * out <= input * reserve_out) by (nonlinear_arith)
        requires
            input * reserve_out == d * out + (input * reserve_out) % d,
            0 <= (input * reserve_out) % d,
    ;
    assert(d * (reserve_out - out) >= reserve_in * reserve_out) by (nonlinear_arith)
        requires
            d * out <= input * reserve_out,
            d == reserve_in + input,
    ;
}

/// Once a sequence is accepted, the same sequence is refused.
pub proof fn law_accepted_sequence_is_refused_again(
    registry: StateRegistry,
    stake: StakeAccount,
    sequence: u64,
    proof_len: nat,
    proof_valid: bool,
    later_len: nat,
    later_valid: bool,
)
    requires
        proof_gate(registry, stake, sequence, proof_len, proof_valid) is None,
        sequence < u64::MAX,
    ensures
        proof_gate(
            StateRegistry { next_sequence: (sequence + 1) as u64, ..registry },
            stake,
            sequence,
            later_len,
            later_valid,
        ) == Some(HubError::SequenceAlreadyProcessed),
{
}

/// A slash burns half the stake, rounded down, and moves it from staked to
/// burned without changing their sum.
pub proof fn law_slash_moves_half_to_burned(staked: u64, total_staked: u64, total_burned: u64)
    requires
        total_staked >= slash_amount(staked),
    ensures
        slash_amount(staked) == staked / 2,
        0 <= slash_amount(staked) <= staked,
        (total_staked - slash_amount(staked)) + (total_burned + slash_amount(staked))
            == total_staked + total_burned,
{
}

} // verus!
