//! Core protocol types: chains, payloads and cross-chain messages.
use vstd::prelude::*;
use crate::bytes::{be_bytes, push_be, push_bytes};

verus! {

/// Chains the protocol connects.
#[derive(Debug, Clone, Copy, PartialEq, Eq, Hash, Structural)]
pub enum Chain {
    Ethereum,
    Solana,
    Arbitrum,
    Optimism,
    Cosmos,
    Sui,
    Base,
}

/// Numeric chain ID.
pub open spec fn chain_id_spec(c: Chain) -> u16 {
    match c {
        Chain::Ethereum => 1,
        Chain::Solana => 2,
        Chain::Arbitrum => 3,
        Chain::Optimism => 4,
        Chain::Cosmos => 5,
        Chain::Sui => 6,
        Chain::Base => 7,
    }
}

/// Seconds until a transaction on the chain is final.
pub open spec fn finality_spec(c: Chain) -> u64 {
    match c {
        Chain::Ethereum => 768,
        Chain::Solana => 1,
        Chain::Arbitrum => 604_800,
        Chain::Optimism => 604_800,
        Chain::Cosmos => 7,
        Chain::Sui => 3,
        Chain::Base => 604_800,
    }
}

impl Chain {
    /// The chain with this numeric ID, if any.
    pub fn from_id(id: u16) -> (r: Option<Self>)
        ensures
            match r {
                Some(c) => chain_id_spec(c) == id,
                None => forall|c: Chain| chain_id_spec(c) != id,
            },
    {
        if id == 1 {
            Some(Chain::Ethereum)
        } else if id == 2 {
            Some(Chain::Solana)
        } else if id == 3 {
            Some(Chain::Arbitrum)
        } else if id == 4 {
            Some(Chain::Optimism)
        } else if id == 5 {
            Some(Chain::Cosmos)
        } else if id == 6 {
            Some(Chain::Sui)
        } else if id == 7 {
            Some(Chain::Base)
        } else {
            None
        }
    }

    /// Numeric chain ID.
    pub fn id(&self) -> (r: u16)
        ensures
            r == chain_id_spec(*self),
    {
        match self {
            Chain::Ethereum => 1,
            Chain::Solana => 2,
            Chain::Arbitrum => 3,
            Chain::Optimism => 4,
            Chain::Cosmos => 5,
            Chain::Sui => 6,
            Chain::Base => 7,
        }
    }

    /// Seconds until a transaction is final (fraud-proof window for rollups).
    pub fn finality_seconds(&self) -> (r: u64)
        ensures
            r == finality_spec(*self),
    {
        match self {
            Chain::Ethereum => 768,
            Chain::Solana => 1,
            Chain::Arbitrum => 604_800,
            Chain::Optimism => 604_800,
            Chain::Cosmos => 7,
            Chain::Sui => 3,
            Chain::Base => 604_800,
        }
    }

    /// Display name.
    pub fn name(&self) -> (r: &'static str)
        ensures
            r@ == chain_name_spec(*self),
    {
        match self {
            Chain::Ethereum => "Ethereum",
            Chain::Solana => "Solana",
            Chain::Arbitrum => "Arbitrum",
            Chain::Optimism => "Optimism",
            Chain::Cosmos => "Cosmos",
            Chain::Sui => "Sui",
            Chain::Base => "Base",
        }
    }
}

/// Display name of a chain.
pub open spec fn chain_name_spec(c: Chain) -> Seq<char> {
    match c {
        Chain::Ethereum => "Ethereum"@,
        Chain::Solana => "Solana"@,
        Chain::Arbitrum => "Arbitrum"@,
        Chain::Optimism => "Optimism"@,
        Chain::Cosmos => "Cosmos"@,
        Chain::Sui => "Sui"@,
        Chain::Base => "Base"@,
    }
}

/// `from_id` inverts `id`, and `id` never yields an unknown ID.
pub proof fn law_chain_id_roundtrip(c: Chain, id: u16)
    ensures
        chain_id_spec(c) == id <==> (1 <= id <= 7 && c == chain_of_id(id)),
{
}

/// The chain with a known ID.
pub open spec fn chain_of_id(id: u16) -> Chain {
    if id == 1 {
        Chain::Ethereum
    } else if id == 2 {
        Chain::Solana
    } else if id == 3 {
        Chain::Arbitrum
    } else if id == 4 {
        Chain::Optimism
    } else if id == 5 {
        Chain::Cosmos
    } else if id == 6 {
        Chain::Sui
    } else {
        Chain::Base
    }
}

/// Kind of cross-chain action.
#[derive(Debug, Clone, Copy, PartialEq, Eq, Structural)]
pub enum ActionType {
    Transfer,
    Swap,
    ContractCall,
    NFTTransfer,
    Governance,
}

/// Wire code of an action.
pub open spec fn action_code(a: ActionType) -> u8 {
    match a {
        ActionType::Transfer => 0,
        ActionType::Swap => 1,
        ActionType::ContractCall => 2,
        ActionType::NFTTransfer => 3,
        ActionType::Governance => 4,
    }
}

/// Wire code of an action.
pub fn action_to_u8(a: ActionType) -> (r: u8)
    ensures
        r == action_code(a),
{
    match a {
        ActionType::Transfer => 0,
        ActionType::Swap => 1,
        ActionType::ContractCall => 2,
        ActionType::NFTTransfer => 3,
        ActionType::Governance => 4,
    }
}

/// Application payload of a cross-chain message.
#[derive(Debug, Clone)]
pub struct InterLinkPayload {
    pub version: u8,
    pub action: ActionType,
    pub sender: Vec<u8>,
    pub recipient: Vec<u8>,
    pub data: Vec<u8>,
    pub deadline: u64,
}

/// Wire encoding of a payload: version, action code, then sender, recipient
/// and data each preceded by its length as a big-endian `u32` (the low 32
/// bits of the length), then the deadline as a big-endian `u64`.
pub open spec fn encode_spec(p: InterLinkPayload) -> Seq<u8> {
    seq![p.version, action_code(p.action)] + be_bytes(p.sender@.len(), 4) + p.sender@ + be_bytes(
        p.recipient@.len(),
        4,
    ) + p.recipient@ + be_bytes(p.data@.len(), 4) + p.data@ + be_bytes(p.deadline as nat, 8)
}

impl InterLinkPayload {
    /// A version-1 payload.
    pub fn new(action: ActionType, sender: Vec<u8>, recipient: Vec<u8>, data: Vec<u8>, deadline: u64) -> (r: Self)
        ensures
            r.version == 1,
            r.action == action,
            r.sender@ == sender@,
            r.recipient@ == recipient@,
            r.data@ == data@,
            r.deadline == deadline,
    {
        InterLinkPayload { version: 1, action, sender, recipient, data, deadline }
    }

    /// Wire encoding.
    pub fn encode(&self) -> (r: Vec<u8>)
        ensures
            r@ == encode_spec(*self),
    {
        let mut buf: Vec<u8> = Vec::new();
        buf.push(self.version);
        buf.push(action_to_u8(self.action));
        push_be(&mut buf, self.sender.len() as u128, 4);
        push_bytes(&mut buf, self.sender.as_slice());
        push_be(&mut buf, self.recipient.len() as u128, 4);
        push_bytes(&mut buf, self.recipient.as_slice());
        push_be(&mut buf, self.data.len() as u128, 4);
        push_bytes(&mut buf, self.data.as_slice());
        push_be(&mut buf, self.deadline as u128, 8);
        assert(buf@ =~= encode_spec(*self));
        buf
    }
}

/// Public inputs of a transfer proof.
#[derive(Debug, Clone)]
pub struct PublicInputs {
    pub sequence: u64,
    pub source_chain: Chain,
    pub dest_chain: Chain,
    pub block_hash: [u8; 32],
    pub message_hash: [u8; 32],
    pub amount: u128,
}

/// A message travelling between chains.
#[derive(Debug, Clone)]
pub struct CrossChainMessage {
    pub sequence: u64,
    pub source_chain: Chain,
    pub dest_chain: Chain,
    pub payload: InterLinkPayload,
    pub proof: Option<Vec<u8>>,
}

/// Processing status of a message.
#[derive(Debug, Clone, Copy, PartialEq, Eq, Structural)]
pub enum MessageStatus {
    Pending,
    Verified,
    Executed,
    Failed,
    Refunded,
}

/// Result of a cross-chain swap.
#[derive(Debug, Clone)]
pub struct SwapResult {
    pub amount_in: u128,
    pub amount_out: u128,
    pub fee: u128,
    pub sequence: u64,
}

/// Protocol errors.
#[derive(Debug)]
pub enum InterlinkError {
    ProofGenerationFailed,
    NetworkError(String),
    VerificationFailed,
    InvalidChain(u16),
    InvalidSequence(u64),
    SlippageExceeded { expected: u128, actual: u128 },
    Timeout,
}

/// A structured cross-chain message.
pub trait Message {
    /// The application payload bytes.
    fn payload(&self) -> (r: &[u8]);

    /// Numeric ID of the source chain.
    fn source_chain(&self) -> (r: u64);

    /// Numeric ID of the destination chain.
    fn dest_chain(&self) -> (r: u64);
}

impl Message for CrossChainMessage {
    fn payload(&self) -> (r: &[u8])
        ensures
            r@ == self.payload.data@,
    {
        self.payload.data.as_slice()
    }

    fn source_chain(&self) -> (r: u64)
        ensures
            r == chain_id_spec(self.source_chain),
    {
        self.source_chain.id() as u64
    }

    fn dest_chain(&self) -> (r: u64)
        ensures
            r == chain_id_spec(self.dest_chain),
    {
        self.dest_chain.id() as u64
    }
}

} // verus!
