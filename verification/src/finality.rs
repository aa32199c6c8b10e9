//! Chain-specific finality: how many confirmations each source chain needs,
//! how long that takes, and the decisions of the loop that waits for them
//! (the loop itself, with its RPC calls and sleeps, runs outside).
use vstd::prelude::*;
use vstd::string::StrSliceExecFns;
use crate::text::{dec_chars, prefixed_decimal};
use crate::rpc_json::{json_scalar_at, json_scalar_at_spec, json_text_at, json_u64_at};

verus! {

/// Finality behaviour of a source chain.
#[derive(Debug, Clone, Copy, PartialEq, Eq, Structural)]
pub enum ChainFinality {
    /// Two epochs (64 slots).
    Ethereum,
    /// One confirmation.
    Solana,
    /// Tendermint BFT: final after one block.
    Cosmos,
    /// Sequencer confirmation of an optimistic rollup.
    OptimisticRollup,
}

/// Confirmations each chain needs.
pub open spec fn confirmations_needed(f: ChainFinality) -> u64 {
    match f {
        ChainFinality::Ethereum => 64,
        ChainFinality::Solana => 1,
        ChainFinality::Cosmos => 1,
        ChainFinality::OptimisticRollup => 10,
    }
}

/// How many confirmations each kind of chain waits for: 64 on Ethereum
/// (two epochs), 10 on an optimistic rollup, one on Solana and on a
/// Tendermint chain; so no chain waits for fewer than one, and Ethereum
/// waits longest.
pub proof fn law_confirmations_per_chain(f: ChainFinality)
    ensures
        f == ChainFinality::Ethereum ==> confirmations_needed(f) == 64,
        f == ChainFinality::OptimisticRollup ==> confirmations_needed(f) == 10,
        f == ChainFinality::Solana ==> confirmations_needed(f) == 1,
        f == ChainFinality::Cosmos ==> confirmations_needed(f) == 1,
        1 <= confirmations_needed(f) <= confirmations_needed(ChainFinality::Ethereum),
{
}

/// Expected seconds to finality on each chain.
pub open spec fn finality_secs(f: ChainFinality) -> u64 {
    match f {
        ChainFinality::Ethereum => 768,
        ChainFinality::Solana => 1,
        ChainFinality::Cosmos => 7,
        ChainFinality::OptimisticRollup => 20,
    }
}

/// The finality class of a chain id; unknown chains are treated as
/// Ethereum, the most conservative.
pub open spec fn finality_of(chain_id: u64) -> ChainFinality {
    if chain_id == 1 {
        ChainFinality::Ethereum
    } else if chain_id == 2 {
        ChainFinality::Solana
    } else if chain_id == 5 {
        ChainFinality::Cosmos
    } else if chain_id == 3 || chain_id == 4 || chain_id == 7 {
        ChainFinality::OptimisticRollup
    } else {
        ChainFinality::Ethereum
    }
}

/// Seconds between two polls of a chain's block height.
pub open spec fn poll_secs(f: ChainFinality) -> u64 {
    match f {
        ChainFinality::Ethereum => 12,
        ChainFinality::Solana => 1,
        ChainFinality::Cosmos => 3,
        ChainFinality::OptimisticRollup => 2,
    }
}

impl ChainFinality {
    /// Confirmations to wait for before a transaction is final.
    pub fn required_confirmations(&self) -> (r: u64)
        ensures
            r == confirmations_needed(*self),
            *self == ChainFinality::Ethereum ==> r == 64,
            *self == ChainFinality::Solana ==> r == 1,
            *self == ChainFinality::Cosmos ==> r == 1,
            *self == ChainFinality::OptimisticRollup ==> r == 10,
    {
        match self {
            ChainFinality::Ethereum => 64,
            ChainFinality::Solana => 1,
            ChainFinality::Cosmos => 1,
            ChainFinality::OptimisticRollup => 10,
        }
    }

    /// Expected time to finality in seconds.
    pub fn expected_finality_secs(&self) -> (r: u64)
        ensures
            r == finality_secs(*self),
            *self == ChainFinality::Ethereum ==> r == 768,
            *self == ChainFinality::Solana ==> r == 1,
            *self == ChainFinality::Cosmos ==> r == 7,
            *self == ChainFinality::OptimisticRollup ==> r == 20,
    {
        match self {
            ChainFinality::Ethereum => 768,
            ChainFinality::Solana => 1,
            ChainFinality::Cosmos => 7,
            ChainFinality::OptimisticRollup => 20,
        }
    }

    /// The finality class of a chain id.
    pub fn from_chain_id(chain_id: u64) -> (r: ChainFinality)
        ensures
            r == finality_of(chain_id),
            chain_id == 2 ==> r == ChainFinality::Solana,
            chain_id == 5 ==> r == ChainFinality::Cosmos,
            (chain_id == 3 || chain_id == 4 || chain_id == 7) ==> r == ChainFinality::OptimisticRollup,
            !(chain_id == 2 || chain_id == 3 || chain_id == 4 || chain_id == 5 || chain_id == 7) ==> r
                == ChainFinality::Ethereum,
    {
        match chain_id {
            1 => ChainFinality::Ethereum,
            2 => ChainFinality::Solana,
            5 => ChainFinality::Cosmos,
            3 | 4 | 7 => ChainFinality::OptimisticRollup,
            _ => ChainFinality::Ethereum,
        }
    }

    /// Seconds between polls when waiting over HTTP.
    pub fn poll_interval_secs(&self) -> (r: u64)
        ensures
            r == poll_secs(*self),
            *self == ChainFinality::Ethereum ==> r == 12,
            *self == ChainFinality::Solana ==> r == 1,
            *self == ChainFinality::Cosmos ==> r == 3,
            *self == ChainFinality::OptimisticRollup ==> r == 2,
    {
        match self {
            ChainFinality::Ethereum => 12,
            ChainFinality::Solana => 1,
            ChainFinality::Cosmos => 3,
            ChainFinality::OptimisticRollup => 2,
        }
    }

    /// The JSON-RPC method that reports the chain's height.
    pub fn rpc_method(&self) -> (r: &'static str)
        ensures
            r@ == (if *self == ChainFinality::Solana { "getSlot"@ } else { "eth_blockNumber"@ }),
    {
        match self {
            ChainFinality::Solana => "getSlot",
            _ => "eth_blockNumber",
        }
    }
}

/// Whether `s` starts with `prefix`.
pub open spec fn has_prefix(s: Seq<char>, prefix: Seq<char>) -> bool {
    prefix.len() <= s.len() && s.subrange(0, prefix.len() as int) == prefix
}

/// Whether `s` starts with `prefix`.
pub fn starts_with(s: &str, prefix: &str) -> (r: bool)
    ensures
        r == has_prefix(s@, prefix@),
{
    let n = prefix.unicode_len();
    let m = s.unicode_len();
    if n > m {
        return false;
    }
    let mut i: usize = 0;
    while i < n
        invariant
            n == prefix@.len(),
            m == s@.len(),
            n <= m,
            i <= n,
            forall|k: int| 0 <= k < i ==> s@[k] == prefix@[k],
        decreases n - i,
    {
        if s.get_char(i) != prefix.get_char(i) {
            return false;
        }
        i = i + 1;
    }
    assert(s@.subrange(0, n as int) =~= prefix@);
    true
}

/// A WebSocket endpoint: `ws://` or `wss://`.
pub open spec fn is_ws(url: Seq<char>) -> bool {
    has_prefix(url, "ws://"@) || has_prefix(url, "wss://"@)
}

/// Whether `url` is a WebSocket endpoint (otherwise the wait polls over
/// HTTP).
pub fn is_ws_url(url: &str) -> (r: bool)
    ensures
        r == is_ws(url@),
{
    starts_with(url, "ws://") || starts_with(url, "wss://")
}

/// `s` without every leading `0x`.
pub open spec fn strip_hex_prefix(s: Seq<char>) -> Seq<char>
    decreases s.len(),
{
    if s.len() >= 2 && s[0] == '0' && s[1] == 'x' {
        strip_hex_prefix(s.subrange(2, s.len() as int))
    } else {
        s
    }
}

/// The value of a hexadecimal digit, or -1.
pub open spec fn hex_digit(c: char) -> int {
    if '0' <= c && c <= '9' {
        c as int - '0' as int
    } else if 'a' <= c && c <= 'f' {
        c as int - 'a' as int + 10
    } else if 'A' <= c && c <= 'F' {
        c as int - 'A' as int + 10
    } else {
        -1
    }
}

/// The value of a string of hexadecimal digits.
pub open spec fn hex_value(s: Seq<char>) -> int
    decreases s.len(),
{
    if s.len() == 0 {
        0
    } else {
        hex_value(s.drop_last()) * 16 + hex_digit(s.last())
    }
}

/// The digits after an optional `+`.
pub open spec fn unsigned_digits(s: Seq<char>) -> Seq<char> {
    if s.len() > 0 && s[0] == '+' {
        s.drop_first()
    } else {
        s
    }
}

/// The block number in a hexadecimal height: leading `0x` removed, then an
/// optional `+` and at least one hex digit, within a `u64`.
pub open spec fn parse_hex_height(s: Seq<char>) -> Option<u64> {
    let d = unsigned_digits(strip_hex_prefix(s));
    if d.len() == 0 || exists|k: int| 0 <= k < d.len() && hex_digit(#[trigger] d[k]) < 0 {
        None
    } else if hex_value(d) > u64::MAX {
        None
    } else {
        Some(hex_value(d) as u64)
    }
}

fn hex_digit_exec(c: char) -> (r: i32)
    ensures
        r == hex_digit(c),
{
    if '0' <= c && c <= '9' {
        (c as u32 - '0' as u32) as i32
    } else if 'a' <= c && c <= 'f' {
        (c as u32 - 'a' as u32 + 10) as i32
    } else if 'A' <= c && c <= 'F' {
        (c as u32 - 'A' as u32 + 10) as i32
    } else {
        -1
    }
}

/// The chain height in a JSON-RPC answer: the integer at `result` for
/// `getSlot` (Solana), the hexadecimal text at `result` for
/// `eth_blockNumber` (the others). An answer that is not JSON is refused
/// with the parser's message.
pub fn reported_height(finality: ChainFinality, body: &[u8]) -> (r: Result<Option<u64>, String>)
    ensures
        r is Err <==> json_scalar_at_spec(body@, "/result"@) is None,
        r matches Ok(h) ==> h == (if finality == ChainFinality::Solana {
            json_u64_at(body@, "/result"@)
        } else {
            match json_text_at(body@, "/result"@) {
                Some(t) => parse_hex_height(t),
                None => None,
            }
        }),
{
    match json_scalar_at(body, "/result") {
        Err(e) => Err(e),
        Ok((text, number)) => {
            if finality == ChainFinality::Solana {
                Ok(number)
            } else {
                match text {
                    Some(t) => Ok(parse_block_number_hex(t.as_str())),
                    None => Ok(None),
                }
            }
        },
    }
}

/// Parse a block height reported as hexadecimal text (`eth_blockNumber`).
pub fn parse_block_number_hex(s: &str) -> (r: Option<u64>)
    ensures
        r == parse_hex_height(s@),
{
    let n = s.unicode_len();
    let mut start: usize = 0;
    assert(s@.subrange(0, n as int) =~= s@);
    while start < n && n - start >= 2 && s.get_char(start) == '0' && s.get_char(start + 1) == 'x'
        invariant
            n == s@.len(),
            start <= n,
            strip_hex_prefix(s@.subrange(start as int, n as int)) == strip_hex_prefix(s@),
        decreases n - start,
    {
        assert(s@.subrange(start + 2, n as int) =~= s@.subrange(start as int, n as int).subrange(
            2,
            n - start,
        ));
        start = start + 2;
    }
    let ghost stripped = s@.subrange(start as int, n as int);
    assert(strip_hex_prefix(stripped) == stripped);
    if start < n && s.get_char(start) == '+' {
        start = start + 1;
    }
    let ghost d = s@.subrange(start as int, n as int);
    assert(d =~= unsigned_digits(stripped));
    if start == n {
        return None;
    }
    let mut value: u64 = 0;
    let mut i: usize = start;
    while i < n
        invariant
            n == s@.len(),
            start < n,
            start <= i <= n,
            d == s@.subrange(start as int, n as int),
            d == unsigned_digits(strip_hex_prefix(s@)),
            forall|k: int| 0 <= k < i - start ==> hex_digit(#[trigger] d[k]) >= 0,
            value == hex_value(d.subrange(0, i - start)),
        decreases n - i,
    {
        let c = s.get_char(i);
        let v = hex_digit_exec(c);
        assert(d.subrange(0, i + 1 - start).drop_last() =~= d.subrange(0, i - start));
        assert(d[i - start] == c);
        if v < 0 {
            assert(hex_digit(d[i - start]) < 0);
            return None;
        }
        if value > (u64::MAX - v as u64) / 16 {
            proof {
                let vv = v as int;
                assert(value * 16 + vv > u64::MAX) by (nonlinear_arith)
                    requires
                        value > (u64::MAX - vv) / 16,
                        0 <= vv < 16,
                ;
                assert(hex_value(d.subrange(0, i + 1 - start)) == value * 16 + vv);
                if forall|t: int| 0 <= t < d.len() ==> hex_digit(#[trigger] d[t]) >= 0 {
                    lemma_hex_prefix_monotone(d, i + 1 - start, d.len() as int);
                    assert(d.subrange(0, d.len() as int) =~= d);
                }
            }
            return None;
        }
        value = value * 16 + v as u64;
        i = i + 1;
    }
    assert(d.subrange(0, n - start) =~= d);
    Some(value)
}

proof fn lemma_hex_prefix_monotone(d: Seq<char>, k: int, j: int)
    requires
        0 <= k <= j <= d.len(),
        forall|t: int| 0 <= t < j ==> hex_digit(#[trigger] d[t]) >= 0,
    ensures
        hex_value(d.subrange(0, k)) <= hex_value(d.subrange(0, j)),
        hex_value(d.subrange(0, j)) >= 0,
    decreases j,
{
    if j > 0 {
        lemma_hex_prefix_monotone(d, if k == j { j - 1 } else { k }, j - 1);
        assert(d.subrange(0, j).drop_last() =~= d.subrange(0, j - 1));
        assert(d.subrange(0, j).last() == d[j - 1]);
    } else {
        assert(d.subrange(0, 0).len() == 0);
    }
}

/// Confirmations of `target` when the chain is at `current`.
pub open spec fn confirmations_of(current: u64, target: u64) -> u64 {
    if current >= target {
        (current - target) as u64
    } else {
        0
    }
}

/// The parameters of one wait for finality.
#[derive(Debug, Clone, Copy, PartialEq, Eq, Structural)]
pub struct FinalityWait {
    pub chain_id: u64,
    pub block_number: u64,
    pub finality: ChainFinality,
    pub required: u64,
    pub timeout_secs: u64,
    pub poll_secs: u64,
}

impl FinalityWait {
    /// A wait that polls over HTTP: it gives up after twice the expected
    /// finality time.
    pub fn http(chain_id: u64, block_number: u64) -> (r: FinalityWait)
        ensures
            r.chain_id == chain_id,
            r.block_number == block_number,
            r.finality == finality_of(chain_id),
            r.required == confirmations_needed(finality_of(chain_id)),
            (chain_id == 3 || chain_id == 4 || chain_id == 7) ==> r.required == 10,
            (chain_id == 2 || chain_id == 5) ==> r.required == 1,
            !(chain_id == 2 || chain_id == 3 || chain_id == 4 || chain_id == 5 || chain_id == 7) ==> r.required
                == 64,
            r.timeout_secs == finality_secs(finality_of(chain_id)) * 2,
            r.poll_secs == poll_secs(finality_of(chain_id)),
    {
        let finality = ChainFinality::from_chain_id(chain_id);
        FinalityWait {
            chain_id,
            block_number,
            finality,
            required: finality.required_confirmations(),
            timeout_secs: finality.expected_finality_secs() * 2,
            poll_secs: finality.poll_interval_secs(),
        }
    }

    /// A wait on a WebSocket head subscription: it allows two more minutes
    /// for network jitter.
    pub fn ws(chain_id: u64, block_number: u64) -> (r: FinalityWait)
        ensures
            r.chain_id == chain_id,
            r.block_number == block_number,
            r.finality == finality_of(chain_id),
            r.required == confirmations_needed(finality_of(chain_id)),
            (chain_id == 3 || chain_id == 4 || chain_id == 7) ==> r.required == 10,
            (chain_id == 2 || chain_id == 5) ==> r.required == 1,
            !(chain_id == 2 || chain_id == 3 || chain_id == 4 || chain_id == 5 || chain_id == 7) ==> r.required
                == 64,
            r.timeout_secs == finality_secs(finality_of(chain_id)) * 2 + 120,
            r.poll_secs == poll_secs(finality_of(chain_id)),
    {
        let finality = ChainFinality::from_chain_id(chain_id);
        FinalityWait {
            chain_id,
            block_number,
            finality,
            required: finality.required_confirmations(),
            timeout_secs: finality.expected_finality_secs() * 2 + 120,
            poll_secs: finality.poll_interval_secs(),
        }
    }

    /// Whether the wait has run out after `elapsed_nanos`.
    pub fn timed_out(&self, elapsed_nanos: u128) -> (r: bool)
        ensures
            r == (elapsed_nanos > self.timeout_secs as int * 1_000_000_000),
    {
        elapsed_nanos > self.timeout_secs as u128 * 1_000_000_000
    }

    /// Whether a chain height of `current_block` finalises the block.
    pub fn is_final_at(&self, current_block: u64) -> (r: bool)
        ensures
            r == (confirmations_of(current_block, self.block_number) >= self.required),
    {
        current_block.saturating_sub(self.block_number) >= self.required
    }

    /// The error of a wait that ran out.
    pub fn timeout_message(&self) -> (r: String)
        ensures
            r@ == "timed out waiting for finality on chain "@ + dec_chars(self.chain_id as nat)
                + " block "@ + dec_chars(self.block_number as nat),
    {
        let mut s = prefixed_decimal("timed out waiting for finality on chain ", self.chain_id);
        let tail = prefixed_decimal(" block ", self.block_number);
        s.append(tail.as_str());
        s
    }
}

/// The error of a head subscription that ended early.
pub fn stream_ended_message() -> (r: String)
    ensures
        r@ == "WebSocket newHeads stream ended before finality was reached"@,
{
    "WebSocket newHeads stream ended before finality was reached".to_owned()
}

/// Every class of chain needs at least one confirmation, and an unknown
/// chain waits as long as Ethereum.
pub proof fn law_finality_is_conservative(chain_id: u64)
    ensures
        confirmations_needed(finality_of(chain_id)) >= 1,
        !(chain_id == 2 || chain_id == 3 || chain_id == 4 || chain_id == 5 || chain_id == 7)
            ==> finality_of(chain_id) == ChainFinality::Ethereum,
        confirmations_needed(finality_of(chain_id)) <= confirmations_needed(ChainFinality::Ethereum),
{
}

} // verus!
