//! Gateway contract events observed on the source chain.
use vstd::prelude::*;

verus! {

/// A token deposit.
#[derive(Debug, Clone)]
pub struct DepositEvent {
    pub block_number: u64,
    pub tx_hash: [u8; 32],
    pub sequence: u64,
    pub sender: [u8; 20],
    pub recipient: Vec<u8>,
    pub amount: u128,
    pub destination_chain: u16,
    pub payload_hash: [u8; 32],
}

/// A cross-chain swap request.
#[derive(Debug, Clone)]
pub struct SwapInitiatedEvent {
    pub block_number: u64,
    pub tx_hash: [u8; 32],
    pub sequence: u64,
    pub sender: [u8; 20],
    pub recipient: [u8; 20],
    pub amount_in: u128,
    pub token_in: [u8; 20],
    pub token_out: [u8; 20],
    pub min_amount_out: u128,
    pub destination_chain: u16,
    pub swap_data: Vec<u8>,
    pub payload_hash: [u8; 32],
}

/// An NFT locked for bridging.
#[derive(Debug, Clone)]
pub struct NFTLockedEvent {
    pub block_number: u64,
    pub tx_hash: [u8; 32],
    pub sequence: u64,
    pub sender: [u8; 20],
    pub nft_contract: [u8; 20],
    pub token_id: [u8; 32],
    pub destination_chain: u16,
    pub destination_recipient: [u8; 32],
    pub nft_hash: [u8; 32],
}

/// Any gateway event.
#[derive(Debug, Clone)]
pub enum GatewayEvent {
    Deposit(DepositEvent),
    Swap(SwapInitiatedEvent),
    NFTLock(NFTLockedEvent),
}

/// Block in which an event was emitted.
pub open spec fn block_of(e: GatewayEvent) -> u64 {
    match e {
        GatewayEvent::Deposit(d) => d.block_number,
        GatewayEvent::Swap(s) => s.block_number,
        GatewayEvent::NFTLock(n) => n.block_number,
    }
}

impl GatewayEvent {
    /// Gateway sequence number (nonce).
    pub fn sequence(&self) -> (r: u64)
        ensures
            r == match *self {
                GatewayEvent::Deposit(d) => d.sequence,
                GatewayEvent::Swap(s) => s.sequence,
                GatewayEvent::NFTLock(n) => n.sequence,
            },
    {
        match self {
            GatewayEvent::Deposit(e) => e.sequence,
            GatewayEvent::Swap(e) => e.sequence,
            GatewayEvent::NFTLock(e) => e.sequence,
        }
    }

    /// Block in which the event was emitted.
    pub fn block_number(&self) -> (r: u64)
        ensures
            r == block_of(*self),
    {
        match self {
            GatewayEvent::Deposit(e) => e.block_number,
            GatewayEvent::Swap(e) => e.block_number,
            GatewayEvent::NFTLock(e) => e.block_number,
        }
    }

    /// Payload hash committed by the event (the NFT hash for NFT locks).
    pub fn payload_hash(&self) -> (r: [u8; 32])
        ensures
            r == match *self {
                GatewayEvent::Deposit(d) => d.payload_hash,
                GatewayEvent::Swap(s) => s.payload_hash,
                GatewayEvent::NFTLock(n) => n.nft_hash,
            },
    {
        match self {
            GatewayEvent::Deposit(e) => e.payload_hash,
            GatewayEvent::Swap(e) => e.payload_hash,
            GatewayEvent::NFTLock(e) => e.nft_hash,
        }
    }
}

} // verus!
