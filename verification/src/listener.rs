//! Decoding of gateway contract logs into typed events, nonce deduplication
//! and the reconnection schedule of the event listener.
use vstd::prelude::*;
use std::collections::HashSet;
use vstd::string::StringSliceAdditionalSpecFns;
use crate::events::{DepositEvent, GatewayEvent, NFTLockedEvent, SwapInitiatedEvent};
use crate::bytes::{keccak256, keccak256_spec};

verus! {

broadcast use vstd::std_specs::hash::group_hash_axioms;

/// Where and how the listener connects.
#[derive(Clone, Debug)]
pub struct ListenerConfig {
    pub ws_rpc_url: String,
    pub gateway_address: String,
    pub chain_id: u64,
    pub max_reconnect_attempts: u32,
}

/// A contract log as delivered by the node.
#[derive(Clone, Debug)]
pub struct RawLog {
    pub topics: Vec<[u8; 32]>,
    pub data: Vec<u8>,
    pub block_number: Option<u64>,
    pub transaction_hash: Option<[u8; 32]>,
}

/// The first topic of each gateway event.
#[derive(Clone, Copy, Debug)]
pub struct EventTopics {
    pub message_published: [u8; 32],
    pub swap_initiated: [u8; 32],
    pub nft_locked: [u8; 32],
}

pub open spec fn message_published_topic() -> Seq<u8> {
    keccak256_spec("MessagePublished(uint64,uint64,address,bytes32,bytes)".spec_bytes())
}

pub open spec fn swap_initiated_topic() -> Seq<u8> {
    keccak256_spec(
        "SwapInitiated(uint64,address,address,uint256,address,address,uint256,uint64,bytes,bytes32)".spec_bytes(),
    )
}

pub open spec fn nft_locked_topic() -> Seq<u8> {
    keccak256_spec("NFTLocked(uint64,address,address,uint256,uint64,bytes32,bytes32)".spec_bytes())
}

/// The topics of the three gateway events: the hashes of their signatures.
pub fn gateway_topics() -> (r: EventTopics)
    ensures
        r.message_published@ == message_published_topic(),
        r.swap_initiated@ == swap_initiated_topic(),
        r.nft_locked@ == nft_locked_topic(),
{
    EventTopics {
        message_published: keccak256("MessagePublished(uint64,uint64,address,bytes32,bytes)".as_bytes()),
        swap_initiated: keccak256(
            "SwapInitiated(uint64,address,address,uint256,address,address,uint256,uint64,bytes,bytes32)".as_bytes(),
        ),
        nft_locked: keccak256("NFTLocked(uint64,address,address,uint256,uint64,bytes32,bytes32)".as_bytes()),
    }
}

/// Unsigned big-endian value of a byte string.
pub open spec fn be_value(s: Seq<u8>) -> nat
    decreases s.len(),
{
    if s.len() == 0 {
        0
    } else {
        be_value(s.drop_last()) * 256 + s.last() as nat
    }
}

/// The `n` bytes of `data` at `lo`, or `n` zero bytes when `data` is shorter
/// than `need`.
pub open spec fn field_or_zero(data: Seq<u8>, lo: int, n: int, need: int) -> Seq<u8> {
    if data.len() >= need {
        data.subrange(lo, lo + n)
    } else {
        Seq::new(n as nat, |i: int| 0u8)
    }
}

/// Big-endian value of the `n` bytes of `data` at `lo`, or 0 when `data`
/// is shorter than `need`.
pub open spec fn uint_or_zero(data: Seq<u8>, lo: int, n: int, need: int) -> nat {
    if data.len() >= need {
        be_value(data.subrange(lo, lo + n))
    } else {
        0
    }
}

/// Nonce carried in the second topic: its last eight bytes.
pub open spec fn topic_nonce(log: RawLog) -> u64 {
    be_value(log.topics@[1]@.subrange(24, 32)) as u64
}

/// Sender carried in the third topic, if there is one.
pub open spec fn topic_sender(log: RawLog) -> Seq<u8> {
    if log.topics@.len() >= 3 {
        log.topics@[2]@.subrange(12, 32)
    } else {
        Seq::new(20, |i: int| 0u8)
    }
}

pub open spec fn tx_hash_or_zero(log: RawLog) -> Seq<u8> {
    match log.transaction_hash {
        Some(h) => h@,
        None => Seq::new(32, |i: int| 0u8),
    }
}

/// Amount carried at the start of a deposit's payload.
pub open spec fn deposit_amount(data: Seq<u8>) -> nat {
    if data.len() >= 160 {
        let offset = be_value(data.subrange(120, 128)) as int;
        if data.len() > 96 + offset + 32 {
            be_value(data.subrange(96 + offset + 24, 96 + offset + 32))
        } else {
            0
        }
    } else {
        0
    }
}

/// Swap data carried in the dynamic tail of a swap log.
pub open spec fn swap_data_of(data: Seq<u8>) -> Seq<u8> {
    if data.len() >= 288 {
        let len = be_value(data.subrange(280, 288)) as int;
        if data.len() >= 288 + len {
            data.subrange(288, 288 + len)
        } else {
            Seq::empty()
        }
    } else {
        Seq::empty()
    }
}

/// Offsets read from the log stay within the address space.
pub open spec fn offsets_fit(log: RawLog, message_published: Seq<u8>, swap_initiated: Seq<u8>) -> bool {
    let reached = log.topics@.len() >= 2 && log.block_number is Some;
    &&& reached && log.topics@[0]@ == message_published && log.data@.len() >= 160 ==> be_value(
        log.data@.subrange(120, 128),
    ) + 128 <= usize::MAX
    &&& reached && log.topics@[0]@ != message_published && log.topics@[0]@ == swap_initiated
        && log.data@.len() >= 288 ==> be_value(log.data@.subrange(280, 288)) + 288 <= usize::MAX
}

/// The log is decoded into an event: it has a block number and at least two
/// topics, the first of which is one of the three gateway topics.
pub open spec fn is_gateway_log(log: RawLog, t: EventTopics) -> bool {
    &&& log.topics@.len() >= 2
    &&& log.block_number is Some
    &&& {
        let t0 = log.topics@[0]@;
        t0 == t.message_published@ || t0 == t.swap_initiated@ || t0 == t.nft_locked@
    }
}

pub open spec fn deposit_decoded(log: RawLog, d: DepositEvent) -> bool {
    let data = log.data@;
    &&& d.block_number == log.block_number->0
    &&& d.tx_hash@ == tx_hash_or_zero(log)
    &&& d.sequence == topic_nonce(log)
    &&& d.sender@ == field_or_zero(data, 44, 20, 64)
    &&& d.recipient@ == d.sender@
    &&& d.amount == (deposit_amount(data) as u64) as u128
    &&& d.destination_chain == ((uint_or_zero(data, 24, 8, 32) as u64) as u16)
    &&& d.payload_hash@ == field_or_zero(data, 64, 32, 96)
}

pub open spec fn swap_decoded(log: RawLog, s: SwapInitiatedEvent) -> bool {
    let data = log.data@;
    &&& s.block_number == log.block_number->0
    &&& s.tx_hash@ == tx_hash_or_zero(log)
    &&& s.sequence == topic_nonce(log)
    &&& s.sender@ == topic_sender(log)
    &&& s.recipient@ == field_or_zero(data, 12, 20, 32)
    &&& s.amount_in == uint_or_zero(data, 48, 16, 64)
    &&& s.token_in@ == field_or_zero(data, 76, 20, 96)
    &&& s.token_out@ == field_or_zero(data, 108, 20, 128)
    &&& s.min_amount_out == uint_or_zero(data, 144, 16, 160)
    &&& s.destination_chain == uint_or_zero(data, 190, 2, 192)
    &&& s.swap_data@ == swap_data_of(data)
    &&& s.payload_hash@ == field_or_zero(data, 224, 32, 256)
}

pub open spec fn nft_decoded(log: RawLog, n: NFTLockedEvent) -> bool {
    let data = log.data@;
    &&& n.block_number == log.block_number->0
    &&& n.tx_hash@ == tx_hash_or_zero(log)
    &&& n.sequence == topic_nonce(log)
    &&& n.sender@ == topic_sender(log)
    &&& n.nft_contract@ == field_or_zero(data, 12, 20, 32)
    &&& n.token_id@ == field_or_zero(data, 32, 32, 64)
    &&& n.destination_chain == uint_or_zero(data, 94, 2, 96)
    &&& n.destination_recipient@ == field_or_zero(data, 96, 32, 128)
    &&& n.nft_hash@ == field_or_zero(data, 128, 32, 160)
}

/// `r` is what a log decodes to: nothing unless it is a gateway log, else
/// the event of its first topic (message published: a deposit; swap
/// initiated: a swap; NFT locked: an NFT lock) with every field read from
/// its fixed place in the topics and the ABI-encoded data.
pub open spec fn decodes_to(log: RawLog, t: EventTopics, r: Option<GatewayEvent>) -> bool {
    if !is_gateway_log(log, t) {
        r is None
    } else {
        let t0 = log.topics@[0]@;
        if t0 == t.message_published@ {
            r matches Some(GatewayEvent::Deposit(d)) && deposit_decoded(log, d)
        } else if t0 == t.swap_initiated@ {
            r matches Some(GatewayEvent::Swap(s)) && swap_decoded(log, s)
        } else {
            r matches Some(GatewayEvent::NFTLock(n)) && nft_decoded(log, n)
        }
    }
}

/// `256` to the power `n`.
pub open spec fn pow256(n: nat) -> nat
    decreases n,
{
    if n == 0 {
        1
    } else {
        256 * pow256((n - 1) as nat)
    }
}

proof fn lemma_pow256_mono(i: nat, j: nat)
    requires
        i <= j,
    ensures
        pow256(i) <= pow256(j),
    decreases j,
{
    if i < j {
        lemma_pow256_mono(i, (j - 1) as nat);
    }
}

proof fn lemma_be_value_bound(s: Seq<u8>)
    ensures
        be_value(s) < pow256(s.len()),
    decreases s.len(),
{
    if s.len() > 0 {
        lemma_be_value_bound(s.drop_last());
        let p = pow256((s.len() - 1) as nat);
        assert(be_value(s.drop_last()) * 256 + s.last() < p * 256) by (nonlinear_arith)
            requires
                be_value(s.drop_last()) < p,
                s.last() < 256,
        ;
    }
}

/// Big-endian value of `n` bytes of `s` at `lo`.
fn read_be(s: &[u8], lo: usize, n: usize) -> (r: u128)
    requires
        n <= 16,
        lo + n <= s@.len(),
    ensures
        r == be_value(s@.subrange(lo as int, lo + n)),
        r < pow256(n as nat),
{
    let mut acc: u128 = 0;
    let slen = s.len();
    let mut i: usize = 0;
    proof {
        reveal_with_fuel(pow256, 16);
        assert(pow256(15) == 0x1_000000_000000_000000_000000_000000);
    }
    while i < n
        invariant
            i <= n <= 16,
            lo + n <= s@.len(),
            slen == s@.len(),
            acc == be_value(s@.subrange(lo as int, lo + i)),
            pow256(15) == 0x1_000000_000000_000000_000000_000000,
        decreases n - i,
    {
        proof {
            lemma_be_value_bound(s@.subrange(lo as int, lo + i));
            lemma_pow256_mono(i as nat, 15);
            assert(s@.subrange(lo as int, lo + i + 1).drop_last() =~= s@.subrange(lo as int, lo + i));
        }
        let b = s[lo + i];
        assert(acc * 256 + b <= u128::MAX) by (nonlinear_arith)
            requires
                acc < 0x1_000000_000000_000000_000000_000000,
                b < 256,
        ;
        acc = acc * 256 + b as u128;
        i = i + 1;
    }
    proof {
        lemma_be_value_bound(s@.subrange(lo as int, lo + n));
    }
    acc
}

fn read_u64(s: &[u8], lo: usize) -> (r: u64)
    requires
        lo + 8 <= s@.len(),
    ensures
        r == be_value(s@.subrange(lo as int, lo + 8)),
{
    proof {
        lemma_be_value_bound(s@.subrange(lo as int, lo + 8));
        reveal_with_fuel(pow256, 9);
    }
    read_be(s, lo, 8) as u64
}

fn copy20(s: &[u8], lo: usize) -> (r: [u8; 20])
    requires
        lo + 20 <= s@.len(),
    ensures
        r@ == s@.subrange(lo as int, lo + 20),
{
    let mut out = [0u8; 20];
    let slen = s.len();
    let mut i: usize = 0;
    while i < 20
        invariant
            i <= 20,
            lo + 20 <= s@.len(),
            slen == s@.len(),
            forall|k: int| 0 <= k < i ==> out@[k] == s@[lo + k],
        decreases 20 - i,
    {
        out[i] = s[lo + i];
        i = i + 1;
    }
    assert(out@ =~= s@.subrange(lo as int, lo + 20));
    out
}

fn copy32(s: &[u8], lo: usize) -> (r: [u8; 32])
    requires
        lo + 32 <= s@.len(),
    ensures
        r@ == s@.subrange(lo as int, lo + 32),
{
    let mut out = [0u8; 32];
    let slen = s.len();
    let mut i: usize = 0;
    while i < 32
        invariant
            i <= 32,
            lo + 32 <= s@.len(),
            slen == s@.len(),
            forall|k: int| 0 <= k < i ==> out@[k] == s@[lo + k],
        decreases 32 - i,
    {
        out[i] = s[lo + i];
        i = i + 1;
    }
    assert(out@ =~= s@.subrange(lo as int, lo + 32));
    out
}

fn zeros20() -> (r: [u8; 20])
    ensures
        r@ == Seq::new(20, |i: int| 0u8),
{
    let out = [0u8; 20];
    assert(out@ =~= Seq::new(20, |i: int| 0u8));
    out
}

fn zeros32() -> (r: [u8; 32])
    ensures
        r@ == Seq::new(32, |i: int| 0u8),
{
    let out = [0u8; 32];
    assert(out@ =~= Seq::new(32, |i: int| 0u8));
    out
}

fn field20(data: &[u8], lo: usize, need: usize) -> (r: [u8; 20])
    requires
        lo + 20 <= need,
    ensures
        r@ == field_or_zero(data@, lo as int, 20, need as int),
{
    if data.len() >= need {
        copy20(data, lo)
    } else {
        zeros20()
    }
}

fn field32(data: &[u8], lo: usize, need: usize) -> (r: [u8; 32])
    requires
        lo + 32 <= need,
    ensures
        r@ == field_or_zero(data@, lo as int, 32, need as int),
{
    if data.len() >= need {
        copy32(data, lo)
    } else {
        zeros32()
    }
}

fn uint_field(data: &[u8], lo: usize, n: usize, need: usize) -> (r: u128)
    requires
        n <= 16,
        lo + n <= need,
    ensures
        r == uint_or_zero(data@, lo as int, n as int, need as int),
        r < pow256(n as nat),
{
    proof {
        lemma_pow256_mono(0, n as nat);
    }
    if data.len() >= need {
        read_be(data, lo, n)
    } else {
        0
    }
}

fn u16_field(data: &[u8], lo: usize, need: usize) -> (r: u16)
    requires
        lo + 2 <= need,
    ensures
        r == uint_or_zero(data@, lo as int, 2, need as int),
{
    let v = uint_field(data, lo, 2, need);
    proof {
        reveal_with_fuel(pow256, 3);
    }
    v as u16
}

fn slice_to_vec(data: &[u8], lo: usize, hi: usize) -> (r: Vec<u8>)
    requires
        lo <= hi <= data@.len(),
    ensures
        r@ == data@.subrange(lo as int, hi as int),
{
    let mut out: Vec<u8> = Vec::new();
    let mut i = lo;
    while i < hi
        invariant
            lo <= i <= hi <= data@.len(),
            out@ == data@.subrange(lo as int, i as int),
        decreases hi - i,
    {
        out.push(data[i]);
        assert(data@.subrange(lo as int, i + 1) =~= data@.subrange(lo as int, i as int).push(data@[i as int]));
        i = i + 1;
    }
    out
}

fn tx_hash_of(log: &RawLog) -> (r: [u8; 32])
    ensures
        r@ == tx_hash_or_zero(*log),
{
    match log.transaction_hash {
        Some(h) => h,
        None => zeros32(),
    }
}

fn sender_topic(log: &RawLog) -> (r: [u8; 20])
    ensures
        r@ == topic_sender(*log),
{
    if log.topics.len() >= 3 {
        copy20(&log.topics[2], 12)
    } else {
        zeros20()
    }
}

/// Decode a log given the topics of the gateway events.
pub fn decode_log(log: &RawLog, topics: &EventTopics) -> (r: Option<GatewayEvent>)
    requires
        offsets_fit(*log, topics.message_published@, topics.swap_initiated@),
    ensures
        decodes_to(*log, *topics, r),
{
    if log.topics.len() == 0 {
        return None;
    }
    let block_number = match log.block_number {
        Some(b) => b,
        None => return None,
    };
    let topic0 = &log.topics[0];
    let is_message = crate::bytes::bytes32_eq(topic0, &topics.message_published);
    let is_swap = crate::bytes::bytes32_eq(topic0, &topics.swap_initiated);
    let is_nft = crate::bytes::bytes32_eq(topic0, &topics.nft_locked);
    if !is_message && !is_swap && !is_nft {
        return None;
    }
    if log.topics.len() < 2 {
        return None;
    }
    let sequence = read_u64(&log.topics[1], 24);
    let data = log.data.as_slice();
    if is_message {
        let destination_chain = if data.len() >= 32 {
            read_u64(data, 24)
        } else {
            0u64
        };
        let sender = field20(data, 44, 64);
        let payload_hash = field32(data, 64, 96);
        let amount: u64 = if data.len() >= 160 {
            let payload_offset = read_u64(data, 120) as usize;
            if data.len() > 96 + payload_offset + 32 {
                let len_start = 96 + payload_offset;
                read_u64(data, len_start + 24)
            } else {
                0u64
            }
        } else {
            0u64
        };
        let mut recipient: Vec<u8> = Vec::new();
        crate::bytes::push_bytes(&mut recipient, &sender);
        proof {
            assert(recipient@ =~= sender@);
        }
        return Some(
            GatewayEvent::Deposit(
                DepositEvent {
                    block_number,
                    tx_hash: tx_hash_of(log),
                    sequence,
                    sender,
                    recipient,
                    amount: amount as u128,
                    destination_chain: destination_chain as u16,
                    payload_hash,
                },
            ),
        );
    }
    if is_swap {
        let swap_data = if data.len() >= 288 {
            let swap_data_len = read_u64(data, 280) as usize;
            let swap_data_end = 288 + swap_data_len;
            if data.len() >= swap_data_end {
                slice_to_vec(data, 288, swap_data_end)
            } else {
                Vec::new()
            }
        } else {
            Vec::new()
        };
        proof {
            if !(data@.len() >= 288 && data@.len() >= 288 + be_value(data@.subrange(280, 288))) {
                assert(swap_data@ =~= Seq::<u8>::empty());
            }
        }
        return Some(
            GatewayEvent::Swap(
                SwapInitiatedEvent {
                    block_number,
                    tx_hash: tx_hash_of(log),
                    sequence,
                    sender: sender_topic(log),
                    recipient: field20(data, 12, 32),
                    amount_in: uint_field(data, 48, 16, 64),
                    token_in: field20(data, 76, 96),
                    token_out: field20(data, 108, 128),
                    min_amount_out: uint_field(data, 144, 16, 160),
                    destination_chain: u16_field(data, 190, 192),
                    swap_data,
                    payload_hash: field32(data, 224, 256),
                },
            ),
        );
    }
    Some(
        GatewayEvent::NFTLock(
            NFTLockedEvent {
                block_number,
                tx_hash: tx_hash_of(log),
                sequence,
                sender: sender_topic(log),
                nft_contract: field20(data, 12, 32),
                token_id: field32(data, 32, 64),
                destination_chain: u16_field(data, 94, 96),
                destination_recipient: field32(data, 96, 128),
                nft_hash: field32(data, 128, 160),
            },
        ),
    )
}

/// Whether the offsets read from the log stay within the address space
/// (the condition `parse_log` needs).
pub fn offsets_fit_exec(log: &RawLog) -> (r: bool)
    ensures
        r == offsets_fit(*log, message_published_topic(), swap_initiated_topic()),
{
    if log.topics.len() < 2 || log.block_number.is_none() {
        return true;
    }
    let topics = gateway_topics();
    let n = log.data.len();
    if crate::bytes::bytes32_eq(&log.topics[0], &topics.message_published) {
        if n >= 160 {
            (read_u64(log.data.as_slice(), 120) as u128) + 128 <= usize::MAX as u128
        } else {
            true
        }
    } else if crate::bytes::bytes32_eq(&log.topics[0], &topics.swap_initiated) {
        if n >= 288 {
            (read_u64(log.data.as_slice(), 280) as u128) + 288 <= usize::MAX as u128
        } else {
            true
        }
    } else {
        true
    }
}

/// Decode a gateway contract log into a typed event.
pub fn parse_log(log: &RawLog) -> (r: Option<GatewayEvent>)
    requires
        offsets_fit(*log, message_published_topic(), swap_initiated_topic()),
    ensures
        exists|t: EventTopics|
            t.message_published@ == message_published_topic() && t.swap_initiated@ == swap_initiated_topic()
                && t.nft_locked@ == nft_locked_topic() && #[trigger] decodes_to(*log, t, r),
{
    let topics = gateway_topics();
    decode_log(log, &topics)
}

/// Nonces already forwarded; a log replayed after a reorg carries a nonce
/// seen before and is dropped.
pub struct NonceFilter {
    seen: HashSet<u64>,
}

impl NonceFilter {
    /// The nonces seen so far.
    pub closed spec fn seen_set(&self) -> Set<u64> {
        self.seen@
    }

    /// No nonce seen yet.
    pub fn new() -> (r: Self)
        ensures
            r.seen_set() == Set::<u64>::empty(),
    {
        NonceFilter { seen: HashSet::new() }
    }

    /// Record a nonce; returns whether it is new (the event is to be forwarded).
    pub fn check_and_record(&mut self, nonce: u64) -> (r: bool)
        ensures
            r == !old(self).seen_set().contains(nonce),
            final(self).seen_set() == old(self).seen_set().insert(nonce),
    {
        if self.seen.contains(&nonce) {
            proof {
                assert(old(self).seen_set().insert(nonce) =~= old(self).seen_set());
            }
            false
        } else {
            self.seen.insert(nonce);
            true
        }
    }

    /// Whether the nonce was seen.
    pub fn contains(&self, nonce: u64) -> (r: bool)
        ensures
            r == self.seen_set().contains(nonce),
    {
        self.seen.contains(&nonce)
    }
}

/// Longest wait between reconnection attempts, in milliseconds.
pub const MAX_BACKOFF_MS: u64 = 30_000;

/// What the listener does after losing its connection.
#[derive(Clone, Copy, Debug, PartialEq, Eq, Structural)]
pub enum Reconnect {
    /// Wait `delay_ms`, then try again; the next wait will be `next_backoff_ms`.
    Retry { attempts: u32, delay_ms: u64, next_backoff_ms: u64 },
    /// Stop after `attempts` failed attempts.
    GiveUp { attempts: u32 },
}

/// After a failed connection: one more attempt is counted; when the count
/// reaches the limit the listener gives up, else it waits the current backoff
/// and doubles it, up to 30 s.
pub fn on_disconnect(attempts: u32, backoff_ms: u64, max_attempts: u32) -> (r: Reconnect)
    requires
        attempts < u32::MAX,
        backoff_ms <= u64::MAX / 2,
    ensures
        attempts + 1 >= max_attempts ==> r == (Reconnect::GiveUp { attempts: (attempts + 1) as u32 }),
        attempts + 1 < max_attempts ==> r == (Reconnect::Retry {
            attempts: (attempts + 1) as u32,
            delay_ms: backoff_ms,
            next_backoff_ms: if backoff_ms * 2 < MAX_BACKOFF_MS {
                (backoff_ms * 2) as u64
            } else {
                MAX_BACKOFF_MS
            },
        }),
{
    let attempts = attempts + 1;
    if attempts >= max_attempts {
        return Reconnect::GiveUp { attempts };
    }
    let doubled = backoff_ms * 2;
    let next_backoff_ms = if doubled < MAX_BACKOFF_MS {
        doubled
    } else {
        MAX_BACKOFF_MS
    };
    Reconnect::Retry { attempts, delay_ms: backoff_ms, next_backoff_ms }
}

} // verus!
