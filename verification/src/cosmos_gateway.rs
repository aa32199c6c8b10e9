//! The CosmWasm gateway contract: locking funds for outbound messages and
//! swaps, releasing funds for verified inbound messages with replay
//! protection, and the guardian's pause, withdrawal and hand-over.
//!
//! The contract's storage is held as one state value; a handler that fails
//! leaves it unchanged, as the chain reverts a failed transaction. Address
//! validation and balance queries are the chain's; their outcomes are handed
//! in.
use vstd::prelude::*;
use crate::sha256::{sha2_256, sha256};
use crate::text::{dec_chars, decimal, decimal_u128, hex_chars, hex_prefix};
use crate::http_api::str_eq;
use vstd::utf8::{decode_utf8, valid_utf8};

verus! {

/// Message to create the contract.
#[derive(Debug, Clone)]
pub struct InstantiateMsg {
    /// Address of the guardian that can pause and withdraw.
    pub guardian: String,
    /// Chain ID of the hub that proofs come from.
    pub hub_chain_id: u16,
    /// Fee on released funds, in basis points.
    pub fee_rate_bps: u16,
}

/// Messages that change the contract.
#[derive(Debug, Clone)]
pub enum ExecuteMsg {
    SendCrossChainMessage { recipient: Vec<u8>, destination_chain: u16, payload: Vec<u8> },
    ExecuteVerifiedMessage {
        nonce: u64,
        recipient: String,
        amount: u128,
        proof: Vec<u8>,
        public_inputs: Vec<u8>,
    },
    InitiateSwap {
        recipient: Vec<u8>,
        destination_chain: u16,
        token_out: String,
        min_amount_out: u128,
        swap_data: Vec<u8>,
    },
    Pause {},
    Unpause {},
    EmergencyWithdraw { denom: String },
    UpdateGuardian { new_guardian: String },
}

/// Queries of the contract.
#[derive(Debug, Clone)]
pub enum QueryMsg {
    Config {},
    Sequence {},
    MessageStatus { nonce: u64 },
    Paused {},
}

/// Answer to `Config`.
#[derive(Debug, Clone)]
pub struct ConfigResponse {
    pub guardian: String,
    pub hub_chain_id: u16,
    pub fee_rate_bps: u16,
}

/// Answer to `Sequence`.
#[derive(Debug, Clone, Copy)]
pub struct SequenceResponse {
    pub sequence: u64,
}

/// Answer to `MessageStatus`.
#[derive(Debug, Clone, Copy)]
pub struct MessageStatusResponse {
    pub nonce: u64,
    pub executed: bool,
}

/// Answer to `Paused`.
#[derive(Debug, Clone, Copy)]
pub struct PausedResponse {
    pub paused: bool,
}

/// The answer to a query.
#[derive(Debug, Clone)]
pub enum QueryResponse {
    Config(ConfigResponse),
    Sequence(SequenceResponse),
    MessageStatus(MessageStatusResponse),
    Paused(PausedResponse),
}

/// Errors of the contract.
#[derive(Debug, Clone, PartialEq, Eq)]
pub enum ContractError {
    /// An error of the chain's standard library, as its text.
    Std(String),
    Unauthorized,
    Paused,
    AlreadyExecuted { nonce: u64 },
    InvalidProof,
    InsufficientFunds { required: u128, available: u128 },
    InvalidDestinationChain { chain_id: u16 },
    ZeroAmount,
}

/// The text of each error.
pub open spec fn contract_error_text(e: ContractError) -> Seq<char> {
    match e {
        ContractError::Std(m) => m@,
        ContractError::Unauthorized => "unauthorized: only the guardian can perform this action"@,
        ContractError::Paused => "contract is paused"@,
        ContractError::AlreadyExecuted { nonce } => "message with nonce "@ + dec_chars(nonce as nat)
            + " has already been executed"@,
        ContractError::InvalidProof => "invalid proof: verification failed"@,
        ContractError::InsufficientFunds { required, available } => "insufficient funds: required "@
            + dec_chars(required as nat) + ", available "@ + dec_chars(available as nat),
        ContractError::InvalidDestinationChain { chain_id } => "invalid destination chain: "@
            + dec_chars(chain_id as nat),
        ContractError::ZeroAmount => "zero amount not allowed"@,
    }
}

impl ContractError {
    /// The error as text.
    pub fn message(&self) -> (r: String)
        ensures
            r@ == contract_error_text(*self),
    {
        match self {
            ContractError::Std(m) => m.clone(),
            ContractError::Unauthorized => "unauthorized: only the guardian can perform this action".to_owned(),
            ContractError::Paused => "contract is paused".to_owned(),
            ContractError::AlreadyExecuted { nonce } => {
                let mut s = "message with nonce ".to_owned();
                let n = decimal(*nonce);
                s.append(n.as_str());
                s.append(" has already been executed");
                s
            },
            ContractError::InvalidProof => "invalid proof: verification failed".to_owned(),
            ContractError::InsufficientFunds { required, available } => {
                let mut s = "insufficient funds: required ".to_owned();
                let a = decimal_u128(*required);
                s.append(a.as_str());
                s.append(", available ");
                let b = decimal_u128(*available);
                s.append(b.as_str());
                s
            },
            ContractError::InvalidDestinationChain { chain_id } => {
                let mut s = "invalid destination chain: ".to_owned();
                let c = decimal(*chain_id as u64);
                s.append(c.as_str());
                s
            },
            ContractError::ZeroAmount => "zero amount not allowed".to_owned(),
        }
    }
}

/// Configuration of the contract.
#[derive(Debug, Clone)]
pub struct Config {
    pub guardian: String,
    pub hub_chain_id: u16,
    pub fee_rate_bps: u16,
}

/// Coins sent with a message, or paid out.
#[derive(Debug, Clone)]
pub struct Coin {
    pub denom: String,
    pub amount: u128,
}

/// A bank transfer the contract asks the chain to make.
#[derive(Debug, Clone)]
pub struct BankSend {
    pub to_address: String,
    pub amount: Vec<Coin>,
}

/// What a handler returns: transfers to make and attributes to log.
#[derive(Debug, Clone)]
pub struct ContractResponse {
    pub messages: Vec<BankSend>,
    pub attributes: Vec<(String, String)>,
}

/// The contract's storage.
#[derive(Debug)]
pub struct GatewayState {
    pub config: Config,
    /// Sequence number of the last outbound message.
    pub sequence: u64,
    pub paused: bool,
    /// Nonces of inbound messages already executed, in order.
    pub executed: Vec<u64>,
}

/// The attributes as text pairs.
pub open spec fn attrs(a: Seq<(String, String)>) -> Seq<(Seq<char>, Seq<char>)> {
    a.map_values(|p: (String, String)| (p.0@, p.1@))
}

fn push_attr(v: &mut Vec<(String, String)>, key: &str, value: String)
    ensures
        attrs(final(v)@) == attrs(old(v)@).push((key@, value@)),
{
    v.push((key.to_owned(), value));
    assert(attrs(v@) =~= attrs(old(v)@).push((key@, value@)));
}

/// Total amount of the coins sent.
pub open spec fn funds_total(funds: Seq<Coin>) -> int
    decreases funds.len(),
{
    if funds.len() == 0 {
        0
    } else {
        funds_total(funds.drop_last()) + funds.last().amount
    }
}

proof fn lemma_funds_total_prefix(funds: Seq<Coin>, k: int)
    requires
        0 <= k <= funds.len(),
    ensures
        0 <= funds_total(funds.take(k)) <= funds_total(funds),
    decreases funds.len() - k,
{
    if k < funds.len() {
        lemma_funds_total_prefix(funds, k + 1);
        assert(funds.take(k + 1).drop_last() =~= funds.take(k));
    } else {
        assert(funds.take(k) =~= funds);
    }
    lemma_funds_total_nonneg(funds.take(k));
}

proof fn lemma_funds_total_nonneg(funds: Seq<Coin>)
    ensures
        funds_total(funds) >= 0,
    decreases funds.len(),
{
    if funds.len() > 0 {
        lemma_funds_total_nonneg(funds.drop_last());
    }
}

fn total_funds(funds: &Vec<Coin>) -> (r: u128)
    requires
        funds_total(funds@) <= u128::MAX,
    ensures
        r == funds_total(funds@),
{
    let mut total: u128 = 0;
    let mut i: usize = 0;
    while i < funds.len()
        invariant
            i <= funds@.len(),
            funds_total(funds@) <= u128::MAX,
            total == funds_total(funds@.take(i as int)),
        decreases funds@.len() - i,
    {
        proof {
            lemma_funds_total_prefix(funds@, i + 1);
            assert(funds@.take(i + 1).drop_last() =~= funds@.take(i as int));
        }
        total = total + funds[i].amount;
        i = i + 1;
    }
    assert(funds@.take(i as int) =~= funds@);
    total
}

/// A new contract.
pub fn instantiate(msg: &InstantiateMsg, validated_guardian: Result<String, String>) -> (r: Result<
    (GatewayState, ContractResponse),
    ContractError,
>)
    ensures
        validated_guardian matches Err(e) ==> r == Err::<(GatewayState, ContractResponse), ContractError>(
            ContractError::Std(e),
        ),
        validated_guardian matches Ok(g) ==> (r matches Ok((st, resp)) && {
            &&& st.config.guardian == g
            &&& st.config.hub_chain_id == msg.hub_chain_id
            &&& st.config.fee_rate_bps == msg.fee_rate_bps
            &&& st.sequence == 0
            &&& !st.paused
            &&& st.executed@.len() == 0
            &&& resp.messages@.len() == 0
            &&& attrs(resp.attributes@) == seq![
                ("action"@, "instantiate"@),
                ("hub_chain_id"@, dec_chars(msg.hub_chain_id as nat)),
                ("fee_rate_bps"@, dec_chars(msg.fee_rate_bps as nat)),
            ]
        }),
{
    let guardian = match validated_guardian {
        Ok(g) => g,
        Err(e) => {
            return Err(ContractError::Std(e));
        },
    };
    let state = GatewayState {
        config: Config { guardian, hub_chain_id: msg.hub_chain_id, fee_rate_bps: msg.fee_rate_bps },
        sequence: 0,
        paused: false,
        executed: Vec::new(),
    };
    let mut attributes: Vec<(String, String)> = Vec::new();
    push_attr(&mut attributes, "action", "instantiate".to_owned());
    push_attr(&mut attributes, "hub_chain_id", decimal(msg.hub_chain_id as u64));
    push_attr(&mut attributes, "fee_rate_bps", decimal(msg.fee_rate_bps as u64));
    assert(attrs(attributes@) =~= seq![
        ("action"@, "instantiate"@),
        ("hub_chain_id"@, dec_chars(msg.hub_chain_id as nat)),
        ("fee_rate_bps"@, dec_chars(msg.fee_rate_bps as nat)),
    ]);
    Ok((state, ContractResponse { messages: Vec::new(), attributes }))
}

/// Wraps `String::from_utf8`: `Some` exactly when the bytes are valid UTF-8,
/// holding the characters they encode.
#[verifier::external_body]
fn string_from_utf8(bytes: Vec<u8>) -> (r: Option<String>)
    ensures
        r is Some <==> valid_utf8(bytes@),
        r matches Some(s) ==> s@ == decode_utf8(bytes@),
{
    match String::from_utf8(bytes) {
        Ok(s) => Some(s),
        Err(_) => None,
    }
}

/// All bytes of `s[from..to]` are zero.
pub open spec fn all_zero(s: Seq<u8>, from: int, to: int) -> bool {
    forall|k: int| from <= k < to ==> #[trigger] s[k] == 0
}

fn all_zero_exec(s: &[u8], from: usize, to: usize) -> (r: bool)
    requires
        from <= to <= s@.len(),
    ensures
        r == all_zero(s@, from as int, to as int),
{
    let mut i = from;
    while i < to
        invariant
            from <= i <= to <= s@.len(),
            forall|k: int| from <= k < i ==> #[trigger] s@[k] == 0,
        decreases to - i,
    {
        if s[i] != 0 {
            return false;
        }
        i = i + 1;
    }
    true
}

/// A proof is accepted when it is 256 bytes, none of its three points is
/// all zeros, the public inputs are not empty and the last 32 bytes of `C`
/// are not all zeros.
pub open spec fn proof_accepted(proof: Seq<u8>, public_inputs: Seq<u8>) -> bool {
    &&& proof.len() == 256
    &&& !all_zero(proof, 0, 64)
    &&& !all_zero(proof, 64, 192)
    &&& !all_zero(proof, 192, 256)
    &&& public_inputs.len() > 0
    &&& !all_zero(proof, 224, 256)
}

/// Check the structure of a proof and its binding to the public inputs.
pub fn verify_proof(proof: &[u8], public_inputs: &[u8]) -> (r: Result<(), ContractError>)
    ensures
        proof_accepted(proof@, public_inputs@) ==> r is Ok,
        !proof_accepted(proof@, public_inputs@) ==> r == Err::<(), ContractError>(ContractError::InvalidProof),
{
    if proof.len() != 256 {
        return Err(ContractError::InvalidProof);
    }
    if all_zero_exec(proof, 0, 64) || all_zero_exec(proof, 64, 192) || all_zero_exec(proof, 192, 256) {
        return Err(ContractError::InvalidProof);
    }
    if public_inputs.len() == 0 {
        return Err(ContractError::InvalidProof);
    }
    if all_zero_exec(proof, 224, 256) {
        return Err(ContractError::InvalidProof);
    }
    Ok(())
}

/// The denomination of released funds: the length-prefixed UTF-8 text at
/// the start of the public inputs, `uatom` when there is none.
pub open spec fn denom_of(public_inputs: Seq<u8>) -> Seq<char> {
    if public_inputs.len() > 1 {
        let dl = public_inputs[0] as int;
        if public_inputs.len() >= 1 + dl && dl > 0 {
            let text = public_inputs.subrange(1, 1 + dl);
            if valid_utf8(text) {
                decode_utf8(text)
            } else {
                "uatom"@
            }
        } else {
            "uatom"@
        }
    } else {
        "uatom"@
    }
}

fn extract_denom(public_inputs: &[u8]) -> (r: String)
    ensures
        r@ == denom_of(public_inputs@),
{
    if public_inputs.len() > 1 {
        let dl = public_inputs[0] as usize;
        if public_inputs.len() >= 1 + dl && dl > 0 {
            let mut bytes: Vec<u8> = Vec::new();
            let mut i: usize = 1;
            let end = 1 + dl;
            while i < end
                invariant
                    end == 1 + dl,
                    1 <= i <= 1 + dl <= public_inputs@.len(),
                    bytes@ == public_inputs@.subrange(1, i as int),
                decreases end - i,
            {
                bytes.push(public_inputs[i]);
                i = i + 1;
                assert(bytes@ =~= public_inputs@.subrange(1, i as int));
            }
            match string_from_utf8(bytes) {
                Some(t) => t,
                None => "uatom".to_owned(),
            }
        } else {
            "uatom".to_owned()
        }
    } else {
        "uatom".to_owned()
    }
}

/// The fee on a release: `amount * bps / 10_000`, or nothing when the
/// product overflows. (A fee above the amount leaves the amount whole.)
pub open spec fn release_fee(amount: u128, bps: u16) -> int {
    if amount * bps > u128::MAX {
        0
    } else {
        amount * bps / 10_000
    }
}

/// Whether an inbound nonce has been executed.
fn is_executed(state: &GatewayState, nonce: u64) -> (r: bool)
    ensures
        r == state.executed@.contains(nonce),
{
    let mut i: usize = 0;
    while i < state.executed.len()
        invariant
            i <= state.executed@.len(),
            forall|k: int| 0 <= k < i ==> state.executed@[k] != nonce,
        decreases state.executed@.len() - i,
    {
        if state.executed[i] == nonce {
            assert(state.executed@[i as int] == nonce);
            return true;
        }
        i = i + 1;
    }
    false
}

/// What releasing a verified message does: refused while paused, for a
/// nonce already executed, for a proof that is not accepted, or for a
/// recipient the chain does not validate; otherwise the nonce is recorded
/// and the amount net of the fee is sent to the validated recipient.
pub open spec fn verified_outcome(
    before: GatewayState,
    after: GatewayState,
    nonce: u64,
    recipient: Seq<char>,
    validated_recipient: Result<String, String>,
    amount: u128,
    proof: Seq<u8>,
    public_inputs: Seq<u8>,
    r: Result<ContractResponse, ContractError>,
) -> bool {
    &&& before.paused ==> r == Err::<ContractResponse, ContractError>(ContractError::Paused)
    &&& !before.paused && before.executed@.contains(nonce) ==> r == Err::<ContractResponse, ContractError>(
        ContractError::AlreadyExecuted { nonce },
    )
    &&& !before.paused && !before.executed@.contains(nonce) && !proof_accepted(proof, public_inputs) ==> r
        == Err::<ContractResponse, ContractError>(ContractError::InvalidProof)
    &&& !before.paused && !before.executed@.contains(nonce) && proof_accepted(proof, public_inputs)
        && validated_recipient is Err ==> r == Err::<ContractResponse, ContractError>(
        ContractError::Std(validated_recipient->Err_0),
    )
    &&& !before.paused && !before.executed@.contains(nonce) && proof_accepted(proof, public_inputs)
        && validated_recipient is Ok ==> r is Ok
    &&& r is Err ==> after.executed@ == before.executed@
    &&& after.paused == before.paused
    &&& after.sequence == before.sequence
    &&& after.config.guardian == before.config.guardian
    &&& after.config.fee_rate_bps == before.config.fee_rate_bps
    &&& after.config.hub_chain_id == before.config.hub_chain_id
    &&& r matches Ok(resp) ==> {
        let fee = release_fee(amount, before.config.fee_rate_bps);
        let release = if fee <= amount { amount - fee } else { amount as int };
        let to = validated_recipient->Ok_0;
        &&& !before.paused && !before.executed@.contains(nonce)
        &&& proof_accepted(proof, public_inputs) && validated_recipient is Ok
        &&& after.executed@ =~= before.executed@.push(nonce)
        &&& resp.messages@.len() == 1
        &&& resp.messages@[0].to_address == to
        &&& resp.messages@[0].amount@.len() == 1
        &&& resp.messages@[0].amount@[0].denom@ == denom_of(public_inputs)
        &&& resp.messages@[0].amount@[0].amount == release
        &&& attrs(resp.attributes@) =~= seq![
            ("action"@, "execute_verified_message"@),
            ("nonce"@, dec_chars(nonce as nat)),
            ("recipient"@, recipient),
            ("denom"@, denom_of(public_inputs)),
            ("amount"@, dec_chars(release as nat)),
            ("fee"@, dec_chars(fee as nat)),
        ]
    }
}

/// What publishing an outbound message does: refused while paused or
/// without coins; otherwise the sequence advances and the message is
/// published with the SHA-256 of its payload.
pub open spec fn send_outcome(
    before: GatewayState,
    after: GatewayState,
    sender: Seq<char>,
    funds: Seq<Coin>,
    recipient: Seq<u8>,
    destination_chain: u16,
    payload: Seq<u8>,
    r: Result<ContractResponse, ContractError>,
) -> bool {
    &&& after.paused == before.paused
    &&& after.executed@ == before.executed@
    &&& after.config.guardian == before.config.guardian
    &&& before.paused ==> r == Err::<ContractResponse, ContractError>(ContractError::Paused) && after.sequence
        == before.sequence
    &&& !before.paused && funds_total(funds) == 0 ==> r == Err::<ContractResponse, ContractError>(
        ContractError::ZeroAmount,
    ) && after.sequence == before.sequence
    &&& !before.paused && funds_total(funds) > 0 ==> (r matches Ok(resp) && {
        let seq = before.sequence + 1;
        &&& after.sequence == seq
        &&& resp.messages@.len() == 0
        &&& attrs(resp.attributes@) =~= seq![
            ("action"@, "send_cross_chain_message"@),
            ("sequence"@, dec_chars(seq as nat)),
            ("sender"@, sender),
            ("recipient"@, hex_chars(recipient)),
            ("amount"@, dec_chars(funds_total(funds) as nat)),
            ("destination_chain"@, dec_chars(destination_chain as nat)),
            ("payload_hash"@, hex_chars(sha256(payload))),
        ]
    })
}

/// What publishing a swap does: as for a message, with the swap's token,
/// minimum output and the SHA-256 of its swap data.
pub open spec fn swap_outcome(
    before: GatewayState,
    after: GatewayState,
    sender: Seq<char>,
    funds: Seq<Coin>,
    recipient: Seq<u8>,
    destination_chain: u16,
    token_out: Seq<char>,
    min_amount_out: u128,
    swap_data: Seq<u8>,
    r: Result<ContractResponse, ContractError>,
) -> bool {
    &&& after.paused == before.paused
    &&& after.executed@ == before.executed@
    &&& after.config.guardian == before.config.guardian
    &&& before.paused ==> r == Err::<ContractResponse, ContractError>(ContractError::Paused) && after.sequence
        == before.sequence
    &&& !before.paused && funds_total(funds) == 0 ==> r == Err::<ContractResponse, ContractError>(
        ContractError::ZeroAmount,
    ) && after.sequence == before.sequence
    &&& !before.paused && funds_total(funds) > 0 ==> (r matches Ok(resp) && {
        let seq = before.sequence + 1;
        &&& after.sequence == seq
        &&& resp.messages@.len() == 0
        &&& attrs(resp.attributes@) =~= seq![
            ("action"@, "initiate_swap"@),
            ("sequence"@, dec_chars(seq as nat)),
            ("sender"@, sender),
            ("recipient"@, hex_chars(recipient)),
            ("amount_in"@, dec_chars(funds_total(funds) as nat)),
            ("token_out"@, token_out),
            ("min_amount_out"@, dec_chars(min_amount_out as nat)),
            ("destination_chain"@, dec_chars(destination_chain as nat)),
            ("payload_hash"@, hex_chars(sha256(swap_data))),
        ]
    })
}

/// What pausing or resuming does: guardian only; the flag is set.
pub open spec fn set_paused_outcome(
    before: GatewayState,
    after: GatewayState,
    sender: Seq<char>,
    paused: bool,
    r: Result<ContractResponse, ContractError>,
) -> bool {
    &&& sender != before.config.guardian@ ==> r == Err::<ContractResponse, ContractError>(
        ContractError::Unauthorized,
    ) && after.paused == before.paused
    &&& sender == before.config.guardian@ ==> (r matches Ok(resp) && after.paused == paused
        && resp.messages@.len() == 0 && attrs(resp.attributes@) =~= seq![
        ("action"@, if paused { "pause"@ } else { "unpause"@ }),
    ])
    &&& after.sequence == before.sequence
    &&& after.executed@ == before.executed@
    &&& after.config.guardian == before.config.guardian
}

/// What an emergency withdrawal answers: guardian only; the whole reported
/// balance goes to the guardian.
pub open spec fn withdraw_outcome(
    state: GatewayState,
    sender: Seq<char>,
    denom: Seq<char>,
    balance: Result<Coin, String>,
    r: Result<ContractResponse, ContractError>,
) -> bool {
    &&& sender != state.config.guardian@ ==> r == Err::<ContractResponse, ContractError>(
        ContractError::Unauthorized,
    )
    &&& sender == state.config.guardian@ && balance is Err ==> r == Err::<ContractResponse, ContractError>(
        ContractError::Std(balance->Err_0),
    )
    &&& sender == state.config.guardian@ && balance is Ok ==> (r matches Ok(resp) && {
        &&& resp.messages@.len() == 1
        &&& resp.messages@[0].to_address@ == state.config.guardian@
        &&& resp.messages@[0].amount@.len() == 1
        &&& resp.messages@[0].amount@[0].denom@ == balance->Ok_0.denom@
        &&& resp.messages@[0].amount@[0].amount == balance->Ok_0.amount
        &&& attrs(resp.attributes@) =~= seq![("action"@, "emergency_withdraw"@), ("denom"@, denom)]
    })
}

/// What handing over the guardian role does: guardian only; the address
/// the chain validated becomes the guardian.
pub open spec fn update_guardian_outcome(
    before: GatewayState,
    after: GatewayState,
    sender: Seq<char>,
    new_guardian: Seq<char>,
    validated: Result<String, String>,
    r: Result<ContractResponse, ContractError>,
) -> bool {
    &&& sender != before.config.guardian@ ==> r == Err::<ContractResponse, ContractError>(
        ContractError::Unauthorized,
    )
    &&& sender == before.config.guardian@ && validated is Err ==> r == Err::<ContractResponse, ContractError>(
        ContractError::Std(validated->Err_0),
    )
    &&& r is Err ==> after.config.guardian == before.config.guardian
    &&& sender == before.config.guardian@ && validated is Ok ==> (r matches Ok(resp) && after.config.guardian
        == validated->Ok_0 && resp.messages@.len() == 0 && attrs(resp.attributes@) =~= seq![
        ("action"@, "update_guardian"@),
        ("new_guardian"@, new_guardian),
    ])
    &&& after.paused == before.paused
    &&& after.sequence == before.sequence
    &&& after.executed@ == before.executed@
}

/// Release the funds of a message verified on the hub, once per nonce.
/// `validated_recipient` is the chain's validation of `recipient`.
pub fn execute_verified(
    state: &mut GatewayState,
    nonce: u64,
    recipient: &str,
    validated_recipient: Result<String, String>,
    amount: u128,
    proof: &[u8],
    public_inputs: &[u8],
) -> (r: Result<ContractResponse, ContractError>)
    ensures
        verified_outcome(
            *old(state),
            *final(state),
            nonce,
            recipient@,
            validated_recipient,
            amount,
            proof@,
            public_inputs@,
            r,
        ),
{
    if state.paused {
        return Err(ContractError::Paused);
    }
    if is_executed(state, nonce) {
        return Err(ContractError::AlreadyExecuted { nonce });
    }
    match verify_proof(proof, public_inputs) {
        Ok(()) => {},
        Err(e) => {
            return Err(e);
        },
    }
    let recipient_addr = match validated_recipient {
        Ok(a) => a,
        Err(e) => {
            return Err(ContractError::Std(e));
        },
    };
    state.executed.push(nonce);
    let denom = extract_denom(public_inputs);
    let bps = state.config.fee_rate_bps as u128;
    let fee_amount: u128 = match amount.checked_mul(bps) {
        Some(p) => p / 10_000,
        None => 0,
    };
    let release_amount = if fee_amount <= amount {
        amount - fee_amount
    } else {
        amount
    };
    let coin = Coin { denom: denom.clone(), amount: release_amount };
    let send = BankSend { to_address: recipient_addr, amount: vec![coin] };
    let mut attributes: Vec<(String, String)> = Vec::new();
    push_attr(&mut attributes, "action", "execute_verified_message".to_owned());
    push_attr(&mut attributes, "nonce", decimal(nonce));
    push_attr(&mut attributes, "recipient", recipient.to_owned());
    push_attr(&mut attributes, "denom", denom);
    push_attr(&mut attributes, "amount", decimal_u128(release_amount));
    push_attr(&mut attributes, "fee", decimal_u128(fee_amount));
    Ok(ContractResponse { messages: vec![send], attributes })
}

/// Lock the coins sent and publish an outbound message with the next
/// sequence number and the SHA-256 of its payload.
pub fn execute_send(
    state: &mut GatewayState,
    sender: &str,
    funds: &Vec<Coin>,
    recipient: &[u8],
    destination_chain: u16,
    payload: &[u8],
) -> (r: Result<ContractResponse, ContractError>)
    requires
        !old(state).paused ==> funds_total(funds@) <= u128::MAX,
        !old(state).paused && funds_total(funds@) > 0 ==> old(state).sequence < u64::MAX && payload@.len() * 8
            <= u64::MAX,
    ensures
        send_outcome(*old(state), *final(state), sender@, funds@, recipient@, destination_chain, payload@, r),
{
    if state.paused {
        return Err(ContractError::Paused);
    }
    let total = total_funds(funds);
    if total == 0 {
        return Err(ContractError::ZeroAmount);
    }
    let new_sequence = state.sequence + 1;
    state.sequence = new_sequence;
    let hash = sha2_256(payload);
    let mut attributes: Vec<(String, String)> = Vec::new();
    push_attr(&mut attributes, "action", "send_cross_chain_message".to_owned());
    push_attr(&mut attributes, "sequence", decimal(new_sequence));
    push_attr(&mut attributes, "sender", sender.to_owned());
    let rec = hex_prefix(recipient, recipient.len());
    assert(recipient@.take(recipient@.len() as int) =~= recipient@);
    push_attr(&mut attributes, "recipient", rec);
    push_attr(&mut attributes, "amount", decimal_u128(total));
    push_attr(&mut attributes, "destination_chain", decimal(destination_chain as u64));
    let h = hex_prefix(&hash, 32);
    assert(hash@.take(32) =~= hash@);
    push_attr(&mut attributes, "payload_hash", h);
    Ok(ContractResponse { messages: Vec::new(), attributes })
}

/// Lock the coins sent for a swap on another chain and publish it with the
/// next sequence number and the SHA-256 of its swap data.
pub fn execute_initiate_swap(
    state: &mut GatewayState,
    sender: &str,
    funds: &Vec<Coin>,
    recipient: &[u8],
    destination_chain: u16,
    token_out: &str,
    min_amount_out: u128,
    swap_data: &[u8],
) -> (r: Result<ContractResponse, ContractError>)
    requires
        !old(state).paused ==> funds_total(funds@) <= u128::MAX,
        !old(state).paused && funds_total(funds@) > 0 ==> old(state).sequence < u64::MAX && swap_data@.len() * 8
            <= u64::MAX,
    ensures
        swap_outcome(
            *old(state),
            *final(state),
            sender@,
            funds@,
            recipient@,
            destination_chain,
            token_out@,
            min_amount_out,
            swap_data@,
            r,
        ),
{
    if state.paused {
        return Err(ContractError::Paused);
    }
    let total = total_funds(funds);
    if total == 0 {
        return Err(ContractError::ZeroAmount);
    }
    let new_sequence = state.sequence + 1;
    state.sequence = new_sequence;
    let hash = sha2_256(swap_data);
    let mut attributes: Vec<(String, String)> = Vec::new();
    push_attr(&mut attributes, "action", "initiate_swap".to_owned());
    push_attr(&mut attributes, "sequence", decimal(new_sequence));
    push_attr(&mut attributes, "sender", sender.to_owned());
    let rec = hex_prefix(recipient, recipient.len());
    assert(recipient@.take(recipient@.len() as int) =~= recipient@);
    push_attr(&mut attributes, "recipient", rec);
    push_attr(&mut attributes, "amount_in", decimal_u128(total));
    push_attr(&mut attributes, "token_out", token_out.to_owned());
    push_attr(&mut attributes, "min_amount_out", decimal_u128(min_amount_out));
    push_attr(&mut attributes, "destination_chain", decimal(destination_chain as u64));
    let h = hex_prefix(&hash, 32);
    assert(hash@.take(32) =~= hash@);
    push_attr(&mut attributes, "payload_hash", h);
    Ok(ContractResponse { messages: Vec::new(), attributes })
}

fn single_attr(key: &str, value: &str) -> (r: ContractResponse)
    ensures
        r.messages@.len() == 0,
        attrs(r.attributes@) == seq![(key@, value@)],
{
    let mut attributes: Vec<(String, String)> = Vec::new();
    push_attr(&mut attributes, key, value.to_owned());
    assert(attrs(attributes@) =~= seq![(key@, value@)]);
    ContractResponse { messages: Vec::new(), attributes }
}

/// Pause or resume the contract (guardian only).
pub fn execute_set_paused(state: &mut GatewayState, sender: &str, paused: bool) -> (r: Result<
    ContractResponse,
    ContractError,
>)
    ensures
        set_paused_outcome(*old(state), *final(state), sender@, paused, r),
{
    if !str_eq(sender, state.config.guardian.as_str()) {
        return Err(ContractError::Unauthorized);
    }
    state.paused = paused;
    if paused {
        Ok(single_attr("action", "pause"))
    } else {
        Ok(single_attr("action", "unpause"))
    }
}

/// Send the contract's whole balance of `denom` to the guardian (guardian
/// only). `balance` is the chain's answer to the balance query.
pub fn execute_emergency_withdraw(
    state: &GatewayState,
    sender: &str,
    denom: &str,
    balance: Result<Coin, String>,
) -> (r: Result<ContractResponse, ContractError>)
    ensures
        withdraw_outcome(*state, sender@, denom@, balance, r),
{
    if !str_eq(sender, state.config.guardian.as_str()) {
        return Err(ContractError::Unauthorized);
    }
    let coin = match balance {
        Ok(c) => c,
        Err(e) => {
            return Err(ContractError::Std(e));
        },
    };
    let coin = Coin { denom: coin.denom.as_str().to_owned(), amount: coin.amount };
    let send = BankSend { to_address: state.config.guardian.as_str().to_owned(), amount: vec![coin] };
    let mut attributes: Vec<(String, String)> = Vec::new();
    push_attr(&mut attributes, "action", "emergency_withdraw".to_owned());
    push_attr(&mut attributes, "denom", denom.to_owned());
    Ok(ContractResponse { messages: vec![send], attributes })
}

/// Hand the guardian role to a new address (guardian only).
/// `validated` is the chain's validation of `new_guardian`.
pub fn execute_update_guardian(
    state: &mut GatewayState,
    sender: &str,
    new_guardian: &str,
    validated: Result<String, String>,
) -> (r: Result<ContractResponse, ContractError>)
    ensures
        update_guardian_outcome(*old(state), *final(state), sender@, new_guardian@, validated, r),
{
    if !str_eq(sender, state.config.guardian.as_str()) {
        return Err(ContractError::Unauthorized);
    }
    let addr = match validated {
        Ok(a) => a,
        Err(e) => {
            return Err(ContractError::Std(e));
        },
    };
    state.config.guardian = addr;
    let mut attributes: Vec<(String, String)> = Vec::new();
    push_attr(&mut attributes, "action", "update_guardian".to_owned());
    push_attr(&mut attributes, "new_guardian", new_guardian.to_owned());
    Ok(ContractResponse { messages: Vec::new(), attributes })
}

/// Answer a query.
pub fn query(state: &GatewayState, msg: &QueryMsg) -> (r: QueryResponse)
    ensures
        msg is Config ==> (r matches QueryResponse::Config(c) && c.guardian@ == state.config.guardian@
            && c.hub_chain_id == state.config.hub_chain_id && c.fee_rate_bps == state.config.fee_rate_bps),
        msg is Sequence ==> (r matches QueryResponse::Sequence(c) && c.sequence == state.sequence),
        msg matches QueryMsg::MessageStatus { nonce } ==> (r matches QueryResponse::MessageStatus(c)
            && c.nonce == *nonce && c.executed == state.executed@.contains(*nonce)),
        msg is Paused ==> (r matches QueryResponse::Paused(c) && c.paused == state.paused),
{
    match msg {
        QueryMsg::Config {} => QueryResponse::Config(
            ConfigResponse {
                guardian: state.config.guardian.as_str().to_owned(),
                hub_chain_id: state.config.hub_chain_id,
                fee_rate_bps: state.config.fee_rate_bps,
            },
        ),
        QueryMsg::Sequence {} => QueryResponse::Sequence(SequenceResponse { sequence: state.sequence }),
        QueryMsg::MessageStatus { nonce } => {
            let executed = is_executed(state, *nonce);
            QueryResponse::MessageStatus(MessageStatusResponse { nonce: *nonce, executed })
        },
        QueryMsg::Paused {} => QueryResponse::Paused(PausedResponse { paused: state.paused }),
    }
}

/// What the chain reports for a message: the validation of the address the
/// message names (recipient or new guardian) and the queried balance.
#[derive(Debug)]
pub struct ChainAnswers {
    pub validated_address: Result<String, String>,
    pub balance: Result<Coin, String>,
}

/// Dispatch a message to its handler.
pub fn execute(
    state: &mut GatewayState,
    sender: &str,
    funds: &Vec<Coin>,
    msg: ExecuteMsg,
    answers: ChainAnswers,
) -> (r: Result<ContractResponse, ContractError>)
    requires
        !old(state).paused ==> funds_total(funds@) <= u128::MAX,
        !old(state).paused && funds_total(funds@) > 0 ==> old(state).sequence < u64::MAX,
        !old(state).paused && funds_total(funds@) > 0 ==> (msg matches ExecuteMsg::SendCrossChainMessage {
            payload,
            ..
        } ==> payload@.len() * 8 <= u64::MAX),
        !old(state).paused && funds_total(funds@) > 0 ==> (msg matches ExecuteMsg::InitiateSwap { swap_data, .. }
            ==> swap_data@.len() * 8 <= u64::MAX),
    ensures
        r is Err ==> final(state).executed@ == old(state).executed@,
        msg matches ExecuteMsg::Pause {} ==> (r is Ok <==> sender@ == old(state).config.guardian@),
        msg matches ExecuteMsg::Unpause {} ==> (r is Ok <==> sender@ == old(state).config.guardian@),
        (msg is SendCrossChainMessage || msg is InitiateSwap) ==> (r is Ok <==> !old(state).paused
            && funds_total(funds@) > 0),
        msg matches ExecuteMsg::ExecuteVerifiedMessage { nonce, .. } ==> (r is Ok ==> !old(
            state,
        ).executed@.contains(nonce) && final(state).executed@ == old(state).executed@.push(nonce)),
        msg matches ExecuteMsg::ExecuteVerifiedMessage { nonce, proof, public_inputs, .. } ==> (r is Ok
            <==> !old(state).paused && !old(state).executed@.contains(nonce) && proof_accepted(
            proof@,
            public_inputs@,
        ) && answers.validated_address is Ok),
        msg is EmergencyWithdraw ==> (r is Ok <==> sender@ == old(state).config.guardian@
            && answers.balance is Ok),
        msg is UpdateGuardian ==> (r is Ok <==> sender@ == old(state).config.guardian@
            && answers.validated_address is Ok),
        match msg {
            ExecuteMsg::SendCrossChainMessage { recipient, destination_chain, payload } => send_outcome(
                *old(state),
                *final(state),
                sender@,
                funds@,
                recipient@,
                destination_chain,
                payload@,
                r,
            ),
            ExecuteMsg::ExecuteVerifiedMessage { nonce, recipient, amount, proof, public_inputs } =>
                verified_outcome(
                *old(state),
                *final(state),
                nonce,
                recipient@,
                answers.validated_address,
                amount,
                proof@,
                public_inputs@,
                r,
            ),
            ExecuteMsg::InitiateSwap { recipient, destination_chain, token_out, min_amount_out, swap_data } =>
                swap_outcome(
                *old(state),
                *final(state),
                sender@,
                funds@,
                recipient@,
                destination_chain,
                token_out@,
                min_amount_out,
                swap_data@,
                r,
            ),
            ExecuteMsg::Pause {} => set_paused_outcome(*old(state), *final(state), sender@, true, r),
            ExecuteMsg::Unpause {} => set_paused_outcome(*old(state), *final(state), sender@, false, r),
            ExecuteMsg::EmergencyWithdraw { denom } => *final(state) == *old(state) && withdraw_outcome(
                *old(state),
                sender@,
                denom@,
                answers.balance,
                r,
            ),
            ExecuteMsg::UpdateGuardian { new_guardian } => update_guardian_outcome(
                *old(state),
                *final(state),
                sender@,
                new_guardian@,
                answers.validated_address,
                r,
            ),
        },
{
    proof {
        lemma_funds_total_nonneg(funds@);
    }
    match msg {
        ExecuteMsg::SendCrossChainMessage { recipient, destination_chain, payload } => execute_send(
            state,
            sender,
            funds,
            recipient.as_slice(),
            destination_chain,
            payload.as_slice(),
        ),
        ExecuteMsg::ExecuteVerifiedMessage { nonce, recipient, amount, proof, public_inputs } =>
            execute_verified(
            state,
            nonce,
            recipient.as_str(),
            answers.validated_address,
            amount,
            proof.as_slice(),
            public_inputs.as_slice(),
        ),
        ExecuteMsg::InitiateSwap { recipient, destination_chain, token_out, min_amount_out, swap_data } =>
            execute_initiate_swap(
            state,
            sender,
            funds,
            recipient.as_slice(),
            destination_chain,
            token_out.as_str(),
            min_amount_out,
            swap_data.as_slice(),
        ),
        ExecuteMsg::Pause {} => execute_set_paused(state, sender, true),
        ExecuteMsg::Unpause {} => execute_set_paused(state, sender, false),
        ExecuteMsg::EmergencyWithdraw { denom } => execute_emergency_withdraw(
            state,
            sender,
            denom.as_str(),
            answers.balance,
        ),
        ExecuteMsg::UpdateGuardian { new_guardian } => execute_update_guardian(
            state,
            sender,
            new_guardian.as_str(),
            answers.validated_address,
        ),
    }
}

/// An inbound nonce is executed at most once: after one success, the same
/// nonce is refused.
pub proof fn law_no_replay(executed: Seq<u64>, nonce: u64)
    ensures
        executed.push(nonce).contains(nonce),
{
    assert(executed.push(nonce)[executed.len() as int] == nonce);
}

} // verus!
