//! Constant-product liquidity pools for bridge capital efficiency.
//!
//! Each token pair has a pool `(reserve_a, reserve_b)`; swaps keep
//! `reserve_a * reserve_b` from decreasing. The 30 bps swap fee is split into
//! 25 bps that stay in the pool for LPs and 5 bps for the protocol treasury.
use vstd::prelude::*;
use crate::arith::{isqrt, sat_mul_spec, sat_mul_u128};

verus! {

/// Total LP fee in basis points (0.30%).
pub const LP_FEE_BPS: u32 = 30;
/// Part of the swap fee that stays in the pool for LPs (0.25%).
pub const LP_SHARE_BPS: u32 = 25;
/// Part of the swap fee that goes to the protocol treasury (0.05%).
pub const PROTOCOL_SHARE_BPS: u32 = 5;
/// Shares locked forever on the first deposit.
pub const MINIMUM_LIQUIDITY: u128 = 1_000;
/// Maximum price impact allowed per swap (5%).
pub const MAX_PRICE_IMPACT_BPS: u32 = 500;

/// `a` comes strictly before `b` in lexicographic byte order.
pub open spec fn bytes_lt(a: Seq<u8>, b: Seq<u8>) -> bool {
    exists|i: int|
        0 <= i < a.len() && i < b.len() && a[i] < b[i] && forall|j: int|
            0 <= j < i ==> #[trigger] a[j] == b[j]
}

/// `(ta, ca)` comes strictly after `(tb, cb)` in tuple order.
pub open spec fn key_gt(ta: Seq<u8>, ca: u64, tb: Seq<u8>, cb: u64) -> bool {
    bytes_lt(tb, ta) || (ta == tb && cb < ca)
}

/// Compare two 20-byte addresses lexicographically: -1, 0 or 1.
fn compare_addr(a: &[u8; 20], b: &[u8; 20]) -> (r: i8)
    ensures
        r == 0 <==> a@ == b@,
        r < 0 <==> bytes_lt(a@, b@),
        r > 0 <==> bytes_lt(b@, a@),
        -1 <= r <= 1,
{
    let mut i: usize = 0;
    while i < 20
        invariant
            0 <= i <= 20,
            a@.len() == 20,
            b@.len() == 20,
            forall|j: int| 0 <= j < i ==> a@[j] == b@[j],
        decreases 20 - i,
    {
        if a[i] != b[i] {
            if a[i] < b[i] {
                assert(bytes_lt(a@, b@)) by {
                    assert(forall|j: int| 0 <= j < i ==> #[trigger] a@[j] == b@[j]);
                }
                assert(!bytes_lt(b@, a@)) by {
                    if bytes_lt(b@, a@) {
                        let k = choose|k: int|
                            0 <= k < b@.len() && k < a@.len() && b@[k] < a@[k] && forall|j: int|
                                0 <= j < k ==> #[trigger] b@[j] == a@[j];
                        if k > i {
                            assert(b@[i as int] == a@[i as int]);
                        }
                    }
                }
                return -1;
            } else {
                assert(bytes_lt(b@, a@)) by {
                    assert(forall|j: int| 0 <= j < i ==> #[trigger] b@[j] == a@[j]);
                }
                assert(!bytes_lt(a@, b@)) by {
                    if bytes_lt(a@, b@) {
                        let k = choose|k: int|
                            0 <= k < a@.len() && k < b@.len() && a@[k] < b@[k] && forall|j: int|
                                0 <= j < k ==> #[trigger] a@[j] == b@[j];
                        if k > i {
                            assert(a@[i as int] == b@[i as int]);
                        }
                    }
                }
                return 1;
            }
        }
        i = i + 1;
    }
    assert(a@ =~= b@);
    0
}

/// A unique identifier for a token pair pool.
#[derive(Debug, Clone, Copy, Eq, Hash)]
pub struct PoolId {
    /// Address of token A (the lower `(address, chain)` pair).
    pub token_a: [u8; 20],
    /// Address of token B.
    pub token_b: [u8; 20],
    /// Source chain for token A.
    pub chain_a: u64,
    /// Source chain for token B.
    pub chain_b: u64,
}

impl PoolId {
    /// The pair is in canonical order: `(token_a, chain_a) <= (token_b, chain_b)`.
    pub open spec fn is_canonical(self) -> bool {
        !key_gt(self.token_a@, self.chain_a, self.token_b@, self.chain_b)
    }

    /// Create a pool ID, ordering the two sides canonically.
    pub fn new(token_a: [u8; 20], chain_a: u64, token_b: [u8; 20], chain_b: u64) -> (r: Self)
        ensures
            if key_gt(token_a@, chain_a, token_b@, chain_b) {
                r == (PoolId { token_a: token_b, chain_a: chain_b, token_b: token_a, chain_b: chain_a })
            } else {
                r == (PoolId { token_a, chain_a, token_b, chain_b })
            },
            r.is_canonical(),
    {
        let c = compare_addr(&token_a, &token_b);
        let greater = c > 0 || (c == 0 && chain_b < chain_a);
        proof {
            lemma_bytes_lt_asym(token_a@, token_b@);
        }
        if greater {
            PoolId { token_a: token_b, chain_a: chain_b, token_b: token_a, chain_b: chain_a }
        } else {
            PoolId { token_a, chain_a, token_b, chain_b }
        }
    }
}

impl PartialEq for PoolId {
    fn eq(&self, other: &Self) -> (r: bool) {
        compare_addr(&self.token_a, &other.token_a) == 0 && compare_addr(&self.token_b, &other.token_b) == 0
            && self.chain_a == other.chain_a && self.chain_b == other.chain_b
    }
}

impl vstd::std_specs::cmp::PartialEqSpecImpl for PoolId {
    open spec fn obeys_eq_spec() -> bool {
        true
    }

    open spec fn eq_spec(&self, other: &Self) -> bool {
        self.token_a@ == other.token_a@ && self.token_b@ == other.token_b@ && self.chain_a == other.chain_a
            && self.chain_b == other.chain_b
    }
}

/// Two pool IDs with equal fields are the same ID.
proof fn lemma_pool_id_eq(a: PoolId, b: PoolId)
    ensures
        (a.token_a@ == b.token_a@ && a.token_b@ == b.token_b@ && a.chain_a == b.chain_a && a.chain_b == b.chain_b)
            <==> a == b,
{
    if a.token_a@ == b.token_a@ && a.token_b@ == b.token_b@ {
        assert(a.token_a == b.token_a);
        assert(a.token_b == b.token_b);
    }
}

/// `bytes_lt` is asymmetric.
proof fn lemma_bytes_lt_asym(a: Seq<u8>, b: Seq<u8>)
    ensures
        !(bytes_lt(a, b) && bytes_lt(b, a)),
        bytes_lt(a, b) ==> a != b,
{
    if bytes_lt(a, b) && bytes_lt(b, a) {
        let i = choose|i: int|
            0 <= i < a.len() && i < b.len() && a[i] < b[i] && forall|j: int|
                0 <= j < i ==> #[trigger] a[j] == b[j];
        let k = choose|k: int|
            0 <= k < b.len() && k < a.len() && b[k] < a[k] && forall|j: int|
                0 <= j < k ==> #[trigger] b[j] == a[j];
        if i < k {
            assert(b[i] == a[i]);
        } else if k < i {
            assert(a[k] == b[k]);
        }
    }
    if bytes_lt(a, b) && a == b {
        let i = choose|i: int|
            0 <= i < a.len() && i < b.len() && a[i] < b[i] && forall|j: int|
                0 <= j < i ==> #[trigger] a[j] == b[j];
        assert(a[i] == b[i]);
    }
}

/// `root` is the integer square root of `p`.
pub open spec fn is_floor_sqrt(root: int, p: int) -> bool {
    0 <= root && root * root <= p < (root + 1) * (root + 1)
}

/// AMM errors.
#[derive(Debug, Clone, PartialEq, Eq, Structural)]
pub enum AmmError {
    InsufficientLiquidity,
    ZeroAmount,
    SlippageExceeded { actual_bps: u32, max_bps: u32 },
    PriceImpactTooHigh { impact_bps: u32 },
    InsufficientLpShares { have: u128, need: u128 },
    InvalidToken,
    Overflow,
}

/// Result of an AMM swap.
#[derive(Debug, Clone, Copy, PartialEq, Eq, Structural)]
pub struct SwapResult {
    pub amount_in: u128,
    pub amount_out: u128,
    pub lp_fee: u128,
    pub protocol_fee: u128,
    pub price_impact_bps: u32,
}

/// A single constant-product liquidity pool.
#[derive(Debug, Clone, Copy)]
pub struct Pool {
    pub id: PoolId,
    /// Reserve of token A.
    pub reserve_a: u128,
    /// Reserve of token B.
    pub reserve_b: u128,
    /// Total LP shares outstanding.
    pub total_shares: u128,
    /// Protocol fees collected in token A.
    pub fees_collected_a: u128,
    /// Protocol fees collected in token B.
    pub fees_collected_b: u128,
    /// Swap volume (token A denomination).
    pub volume_a: u128,
}

/// `amount * bps / 10_000`, with the product saturating at `u128::MAX`.
pub open spec fn bps_part(amount: u128, bps: u32) -> int {
    sat_mul_spec(amount as int, bps as int, u128::MAX as int) / 10_000
}

/// Input that remains after the protocol and LP fees are taken.
pub open spec fn net_input(amount_in: u128) -> int {
    amount_in - bps_part(amount_in, PROTOCOL_SHARE_BPS) - bps_part(amount_in, LP_SHARE_BPS)
}

/// Constant-product output for `net` units in, with a saturating numerator.
pub open spec fn cp_out(reserve_in: u128, reserve_out: u128, net: int) -> int {
    sat_mul_spec(reserve_out as int, net, u128::MAX as int) / (reserve_in + net)
}

/// Quoted output of a swap of `amount_in` against the two reserves.
pub open spec fn quote_spec(reserve_in: u128, reserve_out: u128, amount_in: u128) -> int {
    if reserve_in == 0 || reserve_out == 0 || amount_in == 0 {
        0
    } else {
        cp_out(reserve_in, reserve_out, net_input(amount_in))
    }
}

/// Outcome of a swap of `amount_in` (minimum output `min_out`) against the
/// reserves `(reserve_in, reserve_out)`: the swap result or the error.
pub open spec fn swap_spec(reserve_in: u128, reserve_out: u128, amount_in: u128, min_out: u128)
    -> Result<SwapResult, AmmError>
{
    if amount_in == 0 {
        Err(AmmError::ZeroAmount)
    } else if reserve_in == 0 || reserve_out == 0 {
        Err(AmmError::InsufficientLiquidity)
    } else {
        let out = cp_out(reserve_in, reserve_out, net_input(amount_in));
        let impact = sat_mul_spec(out, 10_000, u128::MAX as int) / (reserve_out as int);
        if out == 0 {
            Err(AmmError::InsufficientLiquidity)
        } else if impact > MAX_PRICE_IMPACT_BPS {
            Err(AmmError::PriceImpactTooHigh { impact_bps: impact as u32 })
        } else if out < min_out {
            Err(AmmError::SlippageExceeded {
                actual_bps: (sat_mul_spec(min_out - out, 10_000, u128::MAX as int) / (min_out as int)) as u32,
                max_bps: 0,
            })
        } else {
            Ok(SwapResult {
                amount_in,
                amount_out: out as u128,
                lp_fee: bps_part(amount_in, LP_SHARE_BPS) as u128,
                protocol_fee: bps_part(amount_in, PROTOCOL_SHARE_BPS) as u128,
                price_impact_bps: impact as u32,
            })
        }
    }
}

/// A swap is priced by the constant product after a 0.30% fee: 0.05% of
/// the input goes to the protocol and 0.25% to the liquidity providers,
/// and the rest, `net`, buys `reserve_out * net / (reserve_in + net)` of
/// the other token. A swap of nothing, or against an empty side, fails.
/// (Stated where no product saturates.)
pub proof fn law_swap_prices_by_constant_product(
    reserve_in: u128,
    reserve_out: u128,
    amount_in: u128,
    min_out: u128,
)
    requires
        amount_in * 25 <= u128::MAX,
        reserve_out * amount_in <= u128::MAX,
    ensures
        amount_in == 0 ==> swap_spec(reserve_in, reserve_out, amount_in, min_out) == Err::<SwapResult, AmmError>(
            AmmError::ZeroAmount,
        ),
        amount_in > 0 && (reserve_in == 0 || reserve_out == 0) ==> swap_spec(
            reserve_in,
            reserve_out,
            amount_in,
            min_out,
        ) == Err::<SwapResult, AmmError>(AmmError::InsufficientLiquidity),
        swap_spec(reserve_in, reserve_out, amount_in, min_out) matches Ok(s) ==> {
            let protocol = amount_in * 5 / 10_000;
            let lp = amount_in * 25 / 10_000;
            let net = amount_in - protocol - lp;
            &&& s.protocol_fee == protocol
            &&& s.lp_fee == lp
            &&& s.amount_out == reserve_out * net / (reserve_in + net)
            &&& 0 < s.amount_out < reserve_out
            &&& s.price_impact_bps <= 500
        },
{
    if swap_spec(reserve_in, reserve_out, amount_in, min_out) is Ok {
        let protocol = amount_in * 5 / 10_000;
        let lp = amount_in * 25 / 10_000;
        assert(amount_in * 5 <= u128::MAX);
        assert(protocol + lp <= amount_in) by (nonlinear_arith)
            requires
                protocol == amount_in * 5 / 10_000,
                lp == amount_in * 25 / 10_000,
                amount_in >= 0,
        ;
        let net = amount_in - protocol - lp;
        assert(reserve_out * net <= reserve_out * amount_in) by (nonlinear_arith)
            requires
                0 <= net <= amount_in,
                reserve_out >= 0,
        ;
        lemma_net_input(amount_in);
        assert(bps_part(amount_in, PROTOCOL_SHARE_BPS) == protocol);
        assert(bps_part(amount_in, LP_SHARE_BPS) == lp);
        assert(net_input(amount_in) == net);
        assert(cp_out(reserve_in, reserve_out, net) == reserve_out * net / (reserve_in + net));
        lemma_cp_out_lt(reserve_in, reserve_out, net);
    }
}

/// A swap honours the caller's minimum: one that goes through delivers at
/// least `min_out`; asking for more than it delivered makes the same swap
/// fail with `SlippageExceeded`, and asking for no more than it delivered
/// gives the same result.
pub proof fn law_swap_respects_minimum(
    reserve_in: u128,
    reserve_out: u128,
    amount_in: u128,
    min_out: u128,
    other_min: u128,
)
    ensures
        swap_spec(reserve_in, reserve_out, amount_in, min_out) matches Ok(s) ==> s.amount_out >= min_out
            && s.amount_in == amount_in,
        swap_spec(reserve_in, reserve_out, amount_in, min_out) matches Ok(s) && other_min > s.amount_out
            ==> swap_spec(reserve_in, reserve_out, amount_in, other_min) is Err && swap_spec(
            reserve_in,
            reserve_out,
            amount_in,
            other_min,
        )->Err_0 is SlippageExceeded,
        swap_spec(reserve_in, reserve_out, amount_in, min_out) matches Ok(s) && other_min <= s.amount_out
            ==> swap_spec(reserve_in, reserve_out, amount_in, other_min) == swap_spec(
            reserve_in,
            reserve_out,
            amount_in,
            min_out,
        ),
{
}

/// A swap that goes through never lowers the product of the reserves: the
/// input reserve grows by the input less the protocol fee, the output
/// reserve shrinks by the output.
pub proof fn law_swap_never_lowers_product(reserve_in: u128, reserve_out: u128, amount_in: u128, min_out: u128)
    requires
        swap_spec(reserve_in, reserve_out, amount_in, min_out) is Ok,
    ensures
        ({
            let s = swap_spec(reserve_in, reserve_out, amount_in, min_out)->Ok_0;
            (reserve_in + amount_in - s.protocol_fee) * (reserve_out - s.amount_out) >= reserve_in
                * reserve_out
        }),
{
    let s = swap_spec(reserve_in, reserve_out, amount_in, min_out)->Ok_0;
    lemma_net_input(amount_in);
    let net = net_input(amount_in);
    lemma_cp_out_lt(reserve_in, reserve_out, net);
    let d = reserve_in + net;
    let num = sat_mul_spec(reserve_out as int, net, u128::MAX as int);
    let out = cp_out(reserve_in, reserve_out, net);
    assert(num <= reserve_out * net) by (nonlinear_arith)
        requires
            num == sat_mul_spec(reserve_out as int, net, u128::MAX as int),
            net >= 0,
    ;
    vstd::arithmetic::div_mod::lemma_fundamental_div_mod(num, d);
    assert(d * out <= reserve_out * net) by (nonlinear_arith)
        requires
            num == d * out + num % d,
            0 <= num % d,
            num <= reserve_out * net,
    ;
    let grown = reserve_in + amount_in - s.protocol_fee;
    assert(grown >= d);
    assert(d * (reserve_out - out) >= reserve_in * reserve_out) by (nonlinear_arith)
        requires
            d * out <= reserve_out * net,
            d == reserve_in + net,
    ;
    assert(grown * (reserve_out - out) >= d * (reserve_out - out)) by (nonlinear_arith)
        requires
            grown >= d,
            reserve_out - out >= 0,
    ;
}

/// `bps_part` of a positive `bps <= 10_000` never exceeds the amount.
proof fn lemma_bps_part_le(amount: u128, bps: u32)
    requires
        bps <= 10_000,
    ensures
        0 <= bps_part(amount, bps) <= amount * bps / 10_000,
        bps_part(amount, bps) * 10_000 <= amount * bps,
{
    assert(amount * bps <= u128::MAX || true);
    let p = sat_mul_spec(amount as int, bps as int, u128::MAX as int);
    assert(0 <= p <= amount * bps) by (nonlinear_arith)
        requires p == sat_mul_spec(amount as int, bps as int, u128::MAX as int);
    assert(p / 10_000 <= amount * bps / 10_000) by (nonlinear_arith)
        requires 0 <= p <= amount * bps;
    assert((p / 10_000) * 10_000 <= p) by (nonlinear_arith)
        requires p >= 0;
}

/// The fee parts of a swap input sum to less than the input.
proof fn lemma_net_input(amount_in: u128)
    ensures
        0 <= bps_part(amount_in, PROTOCOL_SHARE_BPS),
        0 <= bps_part(amount_in, LP_SHARE_BPS),
        bps_part(amount_in, PROTOCOL_SHARE_BPS) <= bps_part(amount_in, LP_SHARE_BPS),
        0 <= net_input(amount_in) <= amount_in,
        net_input(amount_in) + bps_part(amount_in, LP_SHARE_BPS) <= amount_in,
{
    lemma_bps_part_le(amount_in, PROTOCOL_SHARE_BPS);
    lemma_bps_part_le(amount_in, LP_SHARE_BPS);
    let p = bps_part(amount_in, PROTOCOL_SHARE_BPS);
    let l = bps_part(amount_in, LP_SHARE_BPS);
    assert(p * 10_000 <= amount_in * 5);
    assert(l * 10_000 <= amount_in * 25);
    assert(p + l <= amount_in) by (nonlinear_arith)
        requires p * 10_000 <= amount_in * 5, l * 10_000 <= amount_in * 25, p >= 0, l >= 0;
    // monotone in bps
    let sp = sat_mul_spec(amount_in as int, 5, u128::MAX as int);
    let sl = sat_mul_spec(amount_in as int, 25, u128::MAX as int);
    assert(sp <= sl);
    assert(sp / 10_000 <= sl / 10_000) by (nonlinear_arith)
        requires 0 <= sp <= sl;
}

/// Constant-product output is strictly below the output reserve.
proof fn lemma_cp_out_lt(reserve_in: u128, reserve_out: u128, net: int)
    requires
        reserve_in > 0,
        net >= 0,
    ensures
        0 <= cp_out(reserve_in, reserve_out, net) < reserve_out || reserve_out == 0,
        0 <= cp_out(reserve_in, reserve_out, net),
{
    let s = sat_mul_spec(reserve_out as int, net, u128::MAX as int);
    let d = reserve_in + net;
    assert(0 <= s <= reserve_out * net) by (nonlinear_arith)
        requires s == sat_mul_spec(reserve_out as int, net, u128::MAX as int), net >= 0;
    assert(s / d >= 0) by (nonlinear_arith) requires s >= 0, d > 0;
    if reserve_out > 0 {
        assert(reserve_out * net < reserve_out * d) by (nonlinear_arith)
            requires reserve_out > 0, d == reserve_in + net, reserve_in > 0;
        assert(s / d < reserve_out) by (nonlinear_arith)
            requires 0 <= s, s < reserve_out * d, d > 0;
    }
}

/// Price impact in bps and slippage in bps stay within `u32`.
proof fn lemma_ratio_bps(num: int, den: int)
    requires
        0 <= num <= den,
        den > 0,
    ensures
        0 <= sat_mul_spec(num, 10_000, u128::MAX as int) / den <= 10_000,
{
    let s = sat_mul_spec(num, 10_000, u128::MAX as int);
    assert(0 <= s <= num * 10_000) by (nonlinear_arith)
        requires s == sat_mul_spec(num, 10_000, u128::MAX as int), num >= 0;
    assert(s / den <= 10_000) by (nonlinear_arith)
        requires 0 <= s <= num * 10_000, num <= den, den > 0;
    assert(s / den >= 0) by (nonlinear_arith) requires s >= 0, den > 0;
}

impl Pool {
    /// Create a new empty pool.
    pub fn new(id: PoolId) -> (r: Self)
        ensures
            r == (Pool {
                id,
                reserve_a: 0,
                reserve_b: 0,
                total_shares: 0,
                fees_collected_a: 0,
                fees_collected_b: 0,
                volume_a: 0,
            }),
    {
        Pool {
            id,
            reserve_a: 0,
            reserve_b: 0,
            total_shares: 0,
            fees_collected_a: 0,
            fees_collected_b: 0,
            volume_a: 0,
        }
    }

    /// Invariant `k = reserve_a * reserve_b`, saturating at `u128::MAX`.
    pub fn k(&self) -> (r: u128)
        ensures
            r == sat_mul_spec(self.reserve_a as int, self.reserve_b as int, u128::MAX as int),
    {
        sat_mul_u128(self.reserve_a, self.reserve_b)
    }

    /// Spot price: token B per token A, scaled by 1e6 (0 for an empty pool).
    pub fn spot_price_a_in_b_e6(&self) -> (r: u128)
        ensures
            r == (if self.reserve_a == 0 {
                0
            } else {
                sat_mul_spec(self.reserve_b as int, 1_000_000, u128::MAX as int) / (self.reserve_a as int)
            }),
    {
        if self.reserve_a == 0 {
            return 0;
        }
        sat_mul_u128(self.reserve_b, 1_000_000) / self.reserve_a
    }

    /// First deposit: mints `isqrt(amount_a * amount_b) - MINIMUM_LIQUIDITY`
    /// shares and locks `MINIMUM_LIQUIDITY` forever.
    pub fn add_initial_liquidity(&mut self, amount_a: u128, amount_b: u128) -> (r: Result<u128, AmmError>)
        ensures
            amount_a == 0 || amount_b == 0 ==> r == Err::<u128, AmmError>(AmmError::ZeroAmount) && *final(self) == *old(self),
            amount_a != 0 && amount_b != 0 ==> {
                let p = sat_mul_spec(amount_a as int, amount_b as int, u128::MAX as int);
                exists|root: int| {
                    &&& #[trigger] is_floor_sqrt(root, p)
                    &&& if root <= MINIMUM_LIQUIDITY {
                        r == Err::<u128, AmmError>(AmmError::InsufficientLiquidity) && *final(self) == *old(self)
                    } else {
                        &&& r == Ok::<u128, AmmError>((root - MINIMUM_LIQUIDITY) as u128)
                        &&& *final(self) == (Pool {
                            reserve_a: amount_a,
                            reserve_b: amount_b,
                            total_shares: root as u128,
                            ..*old(self)
                        })
                    }
                }
            },
    {
        if amount_a == 0 || amount_b == 0 {
            return Err(AmmError::ZeroAmount);
        }
        let shares_raw = isqrt(sat_mul_u128(amount_a, amount_b));
        assert(is_floor_sqrt(shares_raw as int, sat_mul_spec(amount_a as int, amount_b as int, u128::MAX as int)));
        let shares = if shares_raw >= MINIMUM_LIQUIDITY { shares_raw - MINIMUM_LIQUIDITY } else { 0 };
        if shares == 0 {
            return Err(AmmError::InsufficientLiquidity);
        }
        self.reserve_a = amount_a;
        self.reserve_b = amount_b;
        self.total_shares = shares + MINIMUM_LIQUIDITY;
        Ok(shares)
    }

    /// Proportional deposit into an existing pool (the first deposit goes to
    /// `add_initial_liquidity`). Returns `(deposited_a, deposited_b, shares)`.
    pub fn add_liquidity(&mut self, amount_a: u128, amount_b: u128) -> (r: Result<(u128, u128, u128), AmmError>)
        requires
            old(self).reserve_a + amount_a <= u128::MAX,
            old(self).reserve_b + amount_b <= u128::MAX,
            old(self).total_shares as int
                + sat_mul_spec(amount_a as int, old(self).total_shares as int, u128::MAX as int) <= u128::MAX,
        ensures
            amount_a == 0 || amount_b == 0 ==> r == Err::<(u128, u128, u128), AmmError>(AmmError::ZeroAmount)
                && *final(self) == *old(self),
            amount_a != 0 && amount_b != 0 && old(self).reserve_a != 0 ==> {
                let ra = old(self).reserve_a as int;
                let rb = old(self).reserve_b as int;
                let optimal_b = sat_mul_spec(amount_a as int, rb, u128::MAX as int) / ra;
                let (da, db) = if optimal_b <= amount_b {
                    (amount_a as int, optimal_b)
                } else if rb == 0 {
                    (-1int, -1int)
                } else {
                    (sat_mul_spec(amount_b as int, ra, u128::MAX as int) / rb, amount_b as int)
                };
                if da < 0 {
                    r == Err::<(u128, u128, u128), AmmError>(AmmError::Overflow) && *final(self) == *old(self)
                } else {
                    let shares = sat_mul_spec(da, old(self).total_shares as int, u128::MAX as int) / ra;
                    &&& r == Ok::<(u128, u128, u128), AmmError>((da as u128, db as u128, shares as u128))
                    &&& *final(self) == (Pool {
                        reserve_a: (ra + da) as u128,
                        reserve_b: (rb + db) as u128,
                        total_shares: (old(self).total_shares + shares) as u128,
                        ..*old(self)
                    })
                }
            },
            amount_a != 0 && amount_b != 0 && old(self).reserve_a == 0 ==> {
                let p = sat_mul_spec(amount_a as int, amount_b as int, u128::MAX as int);
                exists|root: int| {
                    &&& #[trigger] is_floor_sqrt(root, p)
                    &&& if root <= MINIMUM_LIQUIDITY {
                        r == Err::<(u128, u128, u128), AmmError>(AmmError::InsufficientLiquidity)
                            && *final(self) == *old(self)
                    } else {
                        &&& r == Ok::<(u128, u128, u128), AmmError>((amount_a, amount_b, (root - MINIMUM_LIQUIDITY) as u128))
                        &&& *final(self) == (Pool {
                            reserve_a: amount_a,
                            reserve_b: amount_b,
                            total_shares: root as u128,
                            ..*old(self)
                        })
                    }
                }
            },
    {
        if amount_a == 0 || amount_b == 0 {
            return Err(AmmError::ZeroAmount);
        }
        if self.reserve_a == 0 {
            let shares = self.add_initial_liquidity(amount_a, amount_b);
            return match shares {
                Ok(s) => Ok((amount_a, amount_b, s)),
                Err(e) => Err(e),
            };
        }
        let optimal_b = sat_mul_u128(amount_a, self.reserve_b) / self.reserve_a;
        let (actual_a, actual_b) = if optimal_b <= amount_b {
            (amount_a, optimal_b)
        } else {
            if self.reserve_b == 0 {
                return Err(AmmError::Overflow);
            }
            let optimal_a = sat_mul_u128(amount_b, self.reserve_a) / self.reserve_b;
            (optimal_a, amount_b)
        };
        let ghost ra = self.reserve_a as int;
        let ghost rb = self.reserve_b as int;
        proof {
            let s1 = sat_mul_spec(amount_a as int, rb, u128::MAX as int);
            assert(s1 <= amount_a * rb) by (nonlinear_arith)
                requires s1 == sat_mul_spec(amount_a as int, rb, u128::MAX as int), rb >= 0;
            if optimal_b > amount_b {
                let s2 = sat_mul_spec(amount_b as int, ra, u128::MAX as int);
                assert(s2 <= amount_b * ra) by (nonlinear_arith)
                    requires s2 == sat_mul_spec(amount_b as int, ra, u128::MAX as int), ra >= 0;
                assert(s2 / rb <= amount_a) by (nonlinear_arith)
                    requires
                        s2 <= amount_b * ra, rb > 0, ra > 0, s2 >= 0,
                        s1 / ra > amount_b, s1 <= amount_a * rb, s1 >= 0;
            }
            let ts = self.total_shares as int;
            let s3 = sat_mul_spec(actual_a as int, ts, u128::MAX as int);
            let s4 = sat_mul_spec(amount_a as int, ts, u128::MAX as int);
            assert(s3 <= s4) by (nonlinear_arith)
                requires
                    actual_a <= amount_a,
                    s3 == sat_mul_spec(actual_a as int, ts, u128::MAX as int),
                    s4 == sat_mul_spec(amount_a as int, ts, u128::MAX as int),
                    ts >= 0;
            assert(s3 / ra <= s3) by (nonlinear_arith) requires s3 >= 0, ra >= 1;
        }
        let shares = sat_mul_u128(actual_a, self.total_shares) / self.reserve_a;
        self.reserve_a = self.reserve_a + actual_a;
        self.reserve_b = self.reserve_b + actual_b;
        self.total_shares = self.total_shares + shares;
        Ok((actual_a, actual_b, shares))
    }

    /// Burn LP shares for a pro-rata part of both reserves.
    pub fn remove_liquidity(&mut self, shares: u128) -> (r: Result<(u128, u128), AmmError>)
        ensures
            shares == 0 ==> r == Err::<(u128, u128), AmmError>(AmmError::ZeroAmount) && *final(self) == *old(self),
            shares != 0 && shares > old(self).total_shares - MINIMUM_LIQUIDITY ==> {
                let have = if old(self).total_shares >= MINIMUM_LIQUIDITY {
                    old(self).total_shares - MINIMUM_LIQUIDITY
                } else {
                    0
                };
                r == Err::<(u128, u128), AmmError>(AmmError::InsufficientLpShares { have: have as u128, need: shares })
                    && *final(self) == *old(self)
            },
            shares != 0 && shares <= old(self).total_shares - MINIMUM_LIQUIDITY ==> {
                let ts = old(self).total_shares as int;
                let out_a = sat_mul_spec(shares as int, old(self).reserve_a as int, u128::MAX as int) / ts;
                let out_b = sat_mul_spec(shares as int, old(self).reserve_b as int, u128::MAX as int) / ts;
                &&& r == Ok::<(u128, u128), AmmError>((out_a as u128, out_b as u128))
                &&& *final(self) == (Pool {
                    reserve_a: (old(self).reserve_a - out_a) as u128,
                    reserve_b: (old(self).reserve_b - out_b) as u128,
                    total_shares: (ts - shares) as u128,
                    ..*old(self)
                })
            },
    {
        if shares == 0 {
            return Err(AmmError::ZeroAmount);
        }
        let available = if self.total_shares >= MINIMUM_LIQUIDITY { self.total_shares - MINIMUM_LIQUIDITY } else { 0 };
        if shares > available {
            return Err(AmmError::InsufficientLpShares { have: available, need: shares });
        }
        let ts = self.total_shares;
        let amount_a = sat_mul_u128(shares, self.reserve_a) / ts;
        let amount_b = sat_mul_u128(shares, self.reserve_b) / ts;
        proof {
            let sa = sat_mul_spec(shares as int, self.reserve_a as int, u128::MAX as int);
            let sb = sat_mul_spec(shares as int, self.reserve_b as int, u128::MAX as int);
            assert(sa / (ts as int) <= self.reserve_a) by (nonlinear_arith)
                requires
                    sa == sat_mul_spec(shares as int, self.reserve_a as int, u128::MAX as int),
                    shares <= ts, ts > 0, self.reserve_a >= 0;
            assert(sb / (ts as int) <= self.reserve_b) by (nonlinear_arith)
                requires
                    sb == sat_mul_spec(shares as int, self.reserve_b as int, u128::MAX as int),
                    shares <= ts, ts > 0, self.reserve_b >= 0;
        }
        self.reserve_a = self.reserve_a - amount_a;
        self.reserve_b = self.reserve_b - amount_b;
        self.total_shares = self.total_shares - shares;
        Ok((amount_a, amount_b))
    }

    /// Swap token A for token B; the LP fee stays in the pool and the
    /// protocol fee is collected in `fees_collected_a`.
    pub fn swap_a_for_b(&mut self, amount_a_in: u128, min_amount_b_out: u128) -> (r: Result<SwapResult, AmmError>)
        requires
            amount_a_in > 0 && old(self).reserve_a > 0 && old(self).reserve_b > 0 ==> old(self).reserve_a
                + net_input(amount_a_in) <= u128::MAX,
            swap_spec(old(self).reserve_a, old(self).reserve_b, amount_a_in, min_amount_b_out) matches Ok(s) ==> {
                &&& old(self).reserve_a + amount_a_in - s.protocol_fee <= u128::MAX
                &&& old(self).fees_collected_a + s.protocol_fee <= u128::MAX
                &&& old(self).volume_a + amount_a_in <= u128::MAX
            },
        ensures
            r == swap_spec(old(self).reserve_a, old(self).reserve_b, amount_a_in, min_amount_b_out),
            r matches Ok(s) ==> s.amount_out >= min_amount_b_out && s.amount_in == amount_a_in,
            match r {
                Ok(s) => *final(self) == (Pool {
                    reserve_a: (old(self).reserve_a + amount_a_in - s.protocol_fee) as u128,
                    reserve_b: (old(self).reserve_b - s.amount_out) as u128,
                    fees_collected_a: (old(self).fees_collected_a + s.protocol_fee) as u128,
                    volume_a: (old(self).volume_a + amount_a_in) as u128,
                    ..*old(self)
                }),
                Err(_) => *final(self) == *old(self),
            },
    {
        let r = swap_core(self.reserve_a, self.reserve_b, amount_a_in, min_amount_b_out);
        if let Ok(s) = r {
            self.reserve_a = self.reserve_a + (amount_a_in - s.protocol_fee);
            self.reserve_b = self.reserve_b - s.amount_out;
            self.fees_collected_a = self.fees_collected_a + s.protocol_fee;
            self.volume_a = self.volume_a + amount_a_in;
        }
        r
    }

    /// Swap token B for token A; the protocol fee is collected in
    /// `fees_collected_b` and the volume is counted in token A.
    pub fn swap_b_for_a(&mut self, amount_b_in: u128, min_amount_a_out: u128) -> (r: Result<SwapResult, AmmError>)
        requires
            amount_b_in > 0 && old(self).reserve_a > 0 && old(self).reserve_b > 0 ==> old(self).reserve_b
                + net_input(amount_b_in) <= u128::MAX,
            swap_spec(old(self).reserve_b, old(self).reserve_a, amount_b_in, min_amount_a_out) matches Ok(s) ==> {
                &&& old(self).reserve_b + amount_b_in - s.protocol_fee <= u128::MAX
                &&& old(self).fees_collected_b + s.protocol_fee <= u128::MAX
                &&& old(self).volume_a + s.amount_out <= u128::MAX
            },
        ensures
            r == swap_spec(old(self).reserve_b, old(self).reserve_a, amount_b_in, min_amount_a_out),
            r matches Ok(s) ==> s.amount_out >= min_amount_a_out && s.amount_in == amount_b_in,
            match r {
                Ok(s) => *final(self) == (Pool {
                    reserve_b: (old(self).reserve_b + amount_b_in - s.protocol_fee) as u128,
                    reserve_a: (old(self).reserve_a - s.amount_out) as u128,
                    fees_collected_b: (old(self).fees_collected_b + s.protocol_fee) as u128,
                    volume_a: (old(self).volume_a + s.amount_out) as u128,
                    ..*old(self)
                }),
                Err(_) => *final(self) == *old(self),
            },
    {
        let r = swap_core(self.reserve_b, self.reserve_a, amount_b_in, min_amount_a_out);
        if let Ok(s) = r {
            self.reserve_b = self.reserve_b + (amount_b_in - s.protocol_fee);
            self.reserve_a = self.reserve_a - s.amount_out;
            self.fees_collected_b = self.fees_collected_b + s.protocol_fee;
            self.volume_a = self.volume_a + s.amount_out;
        }
        r
    }

    /// Output of swapping `amount_a_in` of token A, without executing it.
    pub fn quote_a_for_b(&self, amount_a_in: u128) -> (r: u128)
        requires
            self.reserve_a + amount_a_in <= u128::MAX,
        ensures
            r == quote_spec(self.reserve_a, self.reserve_b, amount_a_in),
    {
        if self.reserve_a == 0 || self.reserve_b == 0 || amount_a_in == 0 {
            return 0;
        }
        let net = net_amount(amount_a_in);
        proof { lemma_cp_out_lt(self.reserve_a, self.reserve_b, net as int); }
        sat_mul_u128(self.reserve_b, net) / (self.reserve_a + net)
    }

    /// Annualised LP yield in bps from protocol fees against `reserve_a`.
    pub fn lp_apy_bps(&self, elapsed_secs: u64) -> (r: u32)
        ensures
            r == (if self.reserve_a == 0 || elapsed_secs == 0 {
                0
            } else {
                let fee_rate = sat_mul_spec(self.fees_collected_a as int, 10_000, u128::MAX as int) / (self.reserve_a as int);
                let annual = sat_mul_spec(fee_rate, 31_536_000, u128::MAX as int) / (elapsed_secs as int);
                if annual > u32::MAX { u32::MAX as int } else { annual }
            }),
    {
        if self.reserve_a == 0 || elapsed_secs == 0 {
            return 0;
        }
        let secs_per_year: u128 = 365 * 24 * 3600;
        let fee_rate = sat_mul_u128(self.fees_collected_a, 10_000) / self.reserve_a;
        let annualised = sat_mul_u128(fee_rate, secs_per_year) / (elapsed_secs as u128);
        if annualised > u32::MAX as u128 { u32::MAX } else { annualised as u32 }
    }

    /// Slippage of a swap of `amount_a_in` against the spot price, in bps.
    pub fn slippage_bps(&self, amount_a_in: u128) -> (r: u32)
        requires
            self.reserve_a + amount_a_in <= u128::MAX,
        ensures
            r == (if self.reserve_a == 0 {
                10_000
            } else {
                let ideal = sat_mul_spec(amount_a_in as int, self.reserve_b as int, u128::MAX as int) / (self.reserve_a as int);
                let out = quote_spec(self.reserve_a, self.reserve_b, amount_a_in);
                if ideal == 0 {
                    0
                } else {
                    let diff = if ideal >= out { ideal - out } else { 0 };
                    let slip = sat_mul_spec(diff, 10_000, u128::MAX as int) / ideal;
                    if slip > 10_000 { 10_000 } else { slip }
                }
            }),
    {
        if self.reserve_a == 0 {
            return 10_000;
        }
        let out = self.quote_a_for_b(amount_a_in);
        let ideal = sat_mul_u128(amount_a_in, self.reserve_b) / self.reserve_a;
        if ideal == 0 {
            return 0;
        }
        let diff = if ideal >= out { ideal - out } else { 0 };
        let slip = sat_mul_u128(diff, 10_000) / ideal;
        if slip > 10_000 { 10_000 } else { slip as u32 }
    }
}

/// Input left after both fee parts are taken.
fn net_amount(amount_in: u128) -> (r: u128)
    ensures
        r == net_input(amount_in),
        r <= amount_in,
{
    proof { lemma_net_input(amount_in); }
    let protocol_fee = sat_mul_u128(amount_in, PROTOCOL_SHARE_BPS as u128) / 10_000;
    let lp_fee = sat_mul_u128(amount_in, LP_SHARE_BPS as u128) / 10_000;
    amount_in - protocol_fee - lp_fee
}

/// The shared pricing and checks of both swap directions.
fn swap_core(reserve_in: u128, reserve_out: u128, amount_in: u128, min_out: u128) -> (r: Result<SwapResult, AmmError>)
    requires
        amount_in > 0 && reserve_in > 0 && reserve_out > 0 ==> reserve_in + net_input(amount_in) <= u128::MAX,
    ensures
        r == swap_spec(reserve_in, reserve_out, amount_in, min_out),
        r matches Ok(s) ==> {
            &&& s.amount_out < reserve_out
            &&& s.protocol_fee <= s.lp_fee
            &&& s.protocol_fee <= amount_in
            &&& s.amount_in == amount_in
            &&& s.amount_out >= min_out
        },
{
    if amount_in == 0 {
        return Err(AmmError::ZeroAmount);
    }
    if reserve_in == 0 || reserve_out == 0 {
        return Err(AmmError::InsufficientLiquidity);
    }
    proof { lemma_net_input(amount_in); }
    let protocol_fee = sat_mul_u128(amount_in, PROTOCOL_SHARE_BPS as u128) / 10_000;
    let lp_fee = sat_mul_u128(amount_in, LP_SHARE_BPS as u128) / 10_000;
    let net = amount_in - protocol_fee - lp_fee;
    proof { lemma_cp_out_lt(reserve_in, reserve_out, net as int); }
    let out = sat_mul_u128(reserve_out, net) / (reserve_in + net);
    if out == 0 {
        return Err(AmmError::InsufficientLiquidity);
    }
    proof { lemma_ratio_bps(out as int, reserve_out as int); }
    let impact = (sat_mul_u128(out, 10_000) / reserve_out) as u32;
    if impact > MAX_PRICE_IMPACT_BPS {
        return Err(AmmError::PriceImpactTooHigh { impact_bps: impact });
    }
    if out < min_out {
        proof { lemma_ratio_bps((min_out - out) as int, min_out as int); }
        let slip = (sat_mul_u128(min_out - out, 10_000) / min_out) as u32;
        return Err(AmmError::SlippageExceeded { actual_bps: slip, max_bps: 0 });
    }
    Ok(SwapResult { amount_in, amount_out: out, lp_fee, protocol_fee, price_impact_bps: impact })
}

/// Sum of `reserve_a` over a sequence of pools.
pub open spec fn sum_reserve_a(pools: Seq<Pool>) -> int
    decreases pools.len(),
{
    if pools.len() == 0 {
        0
    } else {
        sum_reserve_a(pools.drop_last()) + pools.last().reserve_a
    }
}

/// Prefix sums of reserves never exceed the full sum.
proof fn lemma_sum_prefix_le(s: Seq<Pool>, k: int)
    requires
        0 <= k <= s.len(),
    ensures
        sum_reserve_a(s.take(k)) <= sum_reserve_a(s),
    decreases s.len(),
{
    if k < s.len() {
        lemma_sum_prefix_le(s.drop_last(), k);
        assert(s.drop_last().take(k) =~= s.take(k));
    } else {
        assert(s.take(k) =~= s);
    }
}

/// `i` is the first position in `pools` that holds a pool with this ID.
pub open spec fn is_first_with_id(pools: Seq<Pool>, i: int, id: PoolId) -> bool {
    0 <= i < pools.len() && pools[i].id == id && forall|k: int| 0 <= k < i ==> pools[k].id != id
}

/// Registry of AMM pools, looked up by pool ID.
pub struct AmmRegistry {
    pools: Vec<Pool>,
}

impl AmmRegistry {
    /// The pools, in creation order.
    pub closed spec fn pools(&self) -> Seq<Pool> {
        self.pools@
    }

    /// An empty registry.
    pub fn new() -> (r: Self)
        ensures
            r.pools() == Seq::<Pool>::empty(),
    {
        AmmRegistry { pools: Vec::new() }
    }

    fn find(&self, id: &PoolId) -> (r: Option<usize>)
        ensures
            match r {
                Some(i) => is_first_with_id(self.pools@, i as int, *id),
                None => forall|i: int| 0 <= i < self.pools@.len() ==> self.pools@[i].id != *id,
            },
    {
        let mut i: usize = 0;
        while i < self.pools.len()
            invariant
                0 <= i <= self.pools@.len(),
                forall|k: int| 0 <= k < i ==> self.pools@[k].id != *id,
            decreases self.pools@.len() - i,
        {
            let found = self.pools[i].id == *id;
            proof { lemma_pool_id_eq(self.pools@[i as int].id, *id); }
            if found {
                return Some(i);
            }
            i = i + 1;
        }
        None
    }

    /// The pool with this ID, created empty if there is none yet.
    pub fn get_or_create(&mut self, id: PoolId) -> (r: &mut Pool)
        ensures
            r.id == id,
            forall|i: int| #[trigger] is_first_with_id(old(self).pools(), i, id) ==> *r == old(self).pools()[i]
                && final(self).pools() == old(self).pools().update(i, *final(r)),
            (forall|i: int| 0 <= i < old(self).pools().len() ==> old(self).pools()[i].id != id) ==> *r == Pool::new_spec(id)
                && final(self).pools() == old(self).pools().push(Pool::new_spec(id)).update(
                old(self).pools().len() as int,
                *final(r),
            ),
    {
        match self.find(&id) {
            Some(i) => {
                proof {
                    assert forall|k: int| #[trigger] is_first_with_id(self.pools@, k, id) implies k == i by {
                        if k < i {
                            assert(self.pools@[k].id != id);
                        } else if k > i {
                            assert(self.pools@[i as int].id != id);
                        }
                    }
                    assert(self.pools()[i as int].id == id);
                }
                &mut self.pools[i]
            },
            None => {
                self.pools.push(Pool::new(id));
                let n = self.pools.len() - 1;
                &mut self.pools[n]
            },
        }
    }

    /// The first pool with this ID, if any.
    pub fn get(&self, id: &PoolId) -> (r: Option<&Pool>)
        ensures
            match r {
                Some(p) => exists|i: int| #[trigger] is_first_with_id(self.pools(), i, *id) && self.pools()[i] == *p,
                None => forall|i: int| 0 <= i < self.pools().len() ==> self.pools()[i].id != *id,
            },
    {
        match self.find(id) {
            Some(i) => {
                assert(is_first_with_id(self.pools(), i as int, *id));
                Some(&self.pools[i])
            },
            None => None,
        }
    }

    /// Mutable access to the first pool with this ID, if any.
    pub fn get_mut(&mut self, id: &PoolId) -> (r: Option<&mut Pool>)
        ensures
            (forall|i: int| 0 <= i < old(self).pools().len() ==> old(self).pools()[i].id != *id) ==> r is None
                && final(self).pools() == old(self).pools(),
            forall|i: int| #[trigger] is_first_with_id(old(self).pools(), i, *id) ==> (r matches Some(p) && *p
                == old(self).pools()[i] && final(self).pools() == old(self).pools().update(i, *final(p))),
    {
        match self.find(id) {
            Some(i) => {
                proof {
                    assert forall|k: int| #[trigger] is_first_with_id(self.pools@, k, *id) implies k == i by {
                        if k < i {
                            assert(self.pools@[k].id != *id);
                        } else if k > i {
                            assert(self.pools@[i as int].id != *id);
                        }
                    }
                    assert(self.pools()[i as int].id == *id);
                }
                Some(&mut self.pools[i])
            },
            None => None,
        }
    }

    /// Number of pools.
    pub fn pool_count(&self) -> (r: usize)
        ensures
            r == self.pools().len(),
    {
        self.pools.len()
    }

    /// Total value locked across all pools (token A denomination).
    pub fn total_tvl_a(&self) -> (r: u128)
        requires
            sum_reserve_a(self.pools()) <= u128::MAX,
        ensures
            r == sum_reserve_a(self.pools()),
    {
        let mut total: u128 = 0;
        let mut i: usize = 0;
        while i < self.pools.len()
            invariant
                0 <= i <= self.pools@.len(),
                total == sum_reserve_a(self.pools@.take(i as int)),
                sum_reserve_a(self.pools@) <= u128::MAX,
            decreases self.pools@.len() - i,
        {
            assert(self.pools@.take(i + 1).drop_last() =~= self.pools@.take(i as int));
            proof { lemma_sum_prefix_le(self.pools@, i + 1); }
            total = total + self.pools[i].reserve_a;
            i = i + 1;
        }
        assert(self.pools@.take(self.pools@.len() as int) =~= self.pools@);
        total
    }
}

impl Pool {
    /// An empty pool with this ID.
    pub open spec fn new_spec(id: PoolId) -> Pool {
        Pool {
            id,
            reserve_a: 0,
            reserve_b: 0,
            total_shares: 0,
            fees_collected_a: 0,
            fees_collected_b: 0,
            volume_a: 0,
        }
    }
}

} // verus!
