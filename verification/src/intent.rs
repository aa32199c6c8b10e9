//! Intent-based transfers: a user states what to send and what to receive,
//! and the solver picks a route among direct bridging, bridging then
//! swapping, swapping on one chain, and multi-hop routing through Ethereum.
use vstd::prelude::*;
use crate::arith::{sat_mul_spec, sat_mul_u128, sat_sub_spec};
use crate::fee::{FeeTier, tier_of, tier_bps};
use crate::text::{dec_chars, decimal_u128, prefixed_decimal};

verus! {

/// Highest slippage applied to a quote's worst case, in basis points.
pub const MAX_INTENT_SLIPPAGE_BPS: u32 = 200;

/// Most hops a route may have.
pub const MAX_ROUTE_HOPS: usize = 3;

/// How long a quote stays valid, in seconds.
pub const INTENT_EXPIRY_SECS: u64 = 300;

/// Most solver bids accepted per intent.
pub const MAX_SOLVER_BIDS: usize = 10;

/// Smallest input for which a multi-hop route is considered (1 token of 18
/// decimals).
pub const MULTIHOP_MIN_AMOUNT: u128 = 1_000_000_000_000_000_000;

/// Base units per rough USD cent step of the fee estimate.
pub const USD_ESTIMATE_DIVISOR: u128 = 1_000_000_000_000;

/// A user's cross-chain intent.
#[derive(Debug)]
pub struct IntentRequest {
    pub token_in: [u8; 20],
    pub chain_in: u64,
    pub amount_in: u128,
    pub token_out: [u8; 20],
    pub chain_out: u64,
    /// Smallest acceptable output.
    pub min_amount_out: u128,
    pub recipient: Vec<u8>,
    /// Unix time after which the intent is void.
    pub deadline: u64,
    /// Rank routes by time rather than by fee.
    pub prefer_speed: bool,
}

/// Two requests that hold the same values.
pub open spec fn same_request(a: IntentRequest, b: IntentRequest) -> bool {
    &&& a.token_in == b.token_in
    &&& a.chain_in == b.chain_in
    &&& a.amount_in == b.amount_in
    &&& a.token_out == b.token_out
    &&& a.chain_out == b.chain_out
    &&& a.min_amount_out == b.min_amount_out
    &&& a.recipient@ == b.recipient@
    &&& a.deadline == b.deadline
    &&& a.prefer_speed == b.prefer_speed
}

impl Clone for IntentRequest {
    fn clone(&self) -> (r: Self)
        ensures
            same_request(r, *self),
    {
        IntentRequest {
            token_in: self.token_in,
            chain_in: self.chain_in,
            amount_in: self.amount_in,
            token_out: self.token_out,
            chain_out: self.chain_out,
            min_amount_out: self.min_amount_out,
            recipient: self.recipient.clone(),
            deadline: self.deadline,
            prefer_speed: self.prefer_speed,
        }
    }
}

fn same_token(a: &[u8; 20], b: &[u8; 20]) -> (r: bool)
    ensures
        r == (a@ == b@),
{
    let mut i: usize = 0;
    while i < 20
        invariant
            i <= 20,
            forall|k: int| 0 <= k < i ==> a@[k] == b@[k],
        decreases 20 - i,
    {
        if a[i] != b[i] {
            return false;
        }
        i = i + 1;
    }
    assert(a@ =~= b@);
    true
}

/// The same token on both sides.
pub open spec fn same_tokens(i: IntentRequest) -> bool {
    i.token_in@ == i.token_out@
}

impl IntentRequest {
    /// A direct token transfer: the same token on both sides, so no swap is
    /// needed.
    pub fn is_direct_transfer(&self) -> (r: bool)
        ensures
            r == same_tokens(*self),
    {
        same_token(&self.token_in, &self.token_out)
    }

    /// Whether the deadline has passed at `now`.
    pub fn is_expired(&self, now: u64) -> (r: bool)
        ensures
            r == (now > self.deadline),
    {
        now > self.deadline
    }

    /// Slippage tolerance implied by the minimum output against
    /// `expected_out`, in basis points (all of it without an expected output).
    pub fn slippage_bps(&self, expected_out: u128) -> (r: u32)
        ensures
            expected_out == 0 ==> r == 10_000,
            expected_out > 0 ==> r == sat_mul_spec(
                sat_sub_spec(expected_out as int, self.min_amount_out as int),
                10_000,
                u128::MAX as int,
            ) / expected_out as int,
    {
        if expected_out == 0 {
            return 10_000;
        }
        let gap = expected_out.saturating_sub(self.min_amount_out);
        let scaled = sat_mul_u128(gap, 10_000);
        let slip = scaled / expected_out;
        assert(slip <= 10_000) by (nonlinear_arith)
            requires
                scaled <= gap * 10_000,
                gap <= expected_out,
                expected_out > 0,
                slip == scaled / expected_out,
        ;
        slip as u32
    }
}

/// Kind of a hop.
#[derive(Debug, Clone, Copy, PartialEq, Eq, Structural)]
pub enum HopType {
    ZkBridge,
    AmmSwap,
    DexSwap,
    Wrap,
}

/// One hop of a route.
#[derive(Debug, Clone, Copy)]
pub struct RouteHop {
    pub hop_type: HopType,
    pub token_in: [u8; 20],
    pub chain_in: u64,
    pub token_out: [u8; 20],
    pub chain_out: u64,
    pub amount_in: u128,
    /// Output before slippage.
    pub expected_amount_out: u128,
    pub fee_bps: u32,
    pub executor: &'static str,
    pub estimated_secs: u64,
}

/// Kind of a route.
#[derive(Debug, Clone, Copy, PartialEq, Eq, Structural)]
pub enum RouteType {
    DirectBridge,
    BridgeAndSwap,
    MultiHop,
    SameChainSwap,
}

/// A complete route.
#[derive(Debug, Clone)]
pub struct IntentRoute {
    pub hops: Vec<RouteHop>,
    pub total_amount_out: u128,
    pub total_fee_bps: u32,
    pub total_secs: u64,
    pub route_type: RouteType,
    /// Reliability score from 0 to 100.
    pub confidence: u8,
}

/// A route as values: hops, output, fee, time, kind and confidence.
pub type RouteView = (Seq<RouteHop>, u128, u32, u64, RouteType, u8);

impl View for IntentRoute {
    type V = RouteView;

    open spec fn view(&self) -> RouteView {
        (
            self.hops@,
            self.total_amount_out,
            self.total_fee_bps,
            self.total_secs,
            self.route_type,
            self.confidence,
        )
    }
}

/// A solver's bid for an intent.
#[derive(Debug, Clone)]
pub struct SolverBid {
    pub solver_id: String,
    pub route: IntentRoute,
    pub guaranteed_min_out: u128,
    pub bond_amount: u128,
    pub expires_at: u64,
}

/// The best quote for an intent.
#[derive(Debug)]
pub struct IntentQuote {
    pub quote_id: String,
    pub intent: IntentRequest,
    pub best_route: IntentRoute,
    pub alternative_routes: Vec<IntentRoute>,
    pub expected_out: u128,
    /// Worst case once slippage is applied.
    pub min_out: u128,
    pub fee_bps: u32,
    pub protocol_fee_bps: u32,
    pub estimated_secs: u64,
    pub expires_at: u64,
    /// Whether this bridge beats Wormhole's 10 bps.
    pub interlink_wins: bool,
}

/// Why an intent cannot be quoted.
#[derive(Debug, Clone, PartialEq, Eq, Structural)]
pub enum IntentError {
    IntentExpired,
    ZeroAmount,
    NoRouteFound,
    UnreachableMinOutput,
    BelowMinOutput { expected: u128, minimum: u128 },
    TooManyHops,
    SlippageTooHigh,
}

/// The text of each error.
pub open spec fn intent_error_text(e: IntentError) -> Seq<char> {
    match e {
        IntentError::IntentExpired => "intent has expired"@,
        IntentError::ZeroAmount => "amount_in must be > 0"@,
        IntentError::NoRouteFound => "no route found for this intent"@,
        IntentError::UnreachableMinOutput => "min_amount_out exceeds 2x amount_in"@,
        IntentError::BelowMinOutput { expected, minimum } => "expected output "@ + dec_chars(
            expected as nat,
        ) + " < minimum "@ + dec_chars(minimum as nat),
        IntentError::TooManyHops => "route exceeds max 3 hops"@,
        IntentError::SlippageTooHigh => "slippage exceeds maximum"@,
    }
}

impl IntentError {
    /// The error as text.
    pub fn message(&self) -> (r: String)
        ensures
            r@ == intent_error_text(*self),
    {
        match self {
            IntentError::IntentExpired => "intent has expired".to_owned(),
            IntentError::ZeroAmount => "amount_in must be > 0".to_owned(),
            IntentError::NoRouteFound => "no route found for this intent".to_owned(),
            IntentError::UnreachableMinOutput => "min_amount_out exceeds 2x amount_in".to_owned(),
            IntentError::BelowMinOutput { expected, minimum } => {
                let mut s = "expected output ".to_owned();
                let e = decimal_u128(*expected);
                s.append(e.as_str());
                s.append(" < minimum ");
                let m = decimal_u128(*minimum);
                s.append(m.as_str());
                s
            },
            IntentError::TooManyHops => "route exceeds max 3 hops".to_owned(),
            IntentError::SlippageTooHigh => "slippage exceeds maximum".to_owned(),
        }
    }
}

/// The rough USD value in cents used to pick the fee tier of an amount.
pub open spec fn usd_estimate(amount: u128) -> int {
    ((amount / USD_ESTIMATE_DIVISOR) as u64) * 3
}

/// The estimate fits in a `u64`.
pub open spec fn usd_estimate_fits(amount: u128) -> bool {
    usd_estimate(amount) <= u64::MAX
}

/// Bridge fee of an amount, by the tier of its rough USD value.
pub open spec fn bridge_fee_bps(amount: u128) -> u32 {
    tier_bps(tier_of(usd_estimate(amount) as u64))
}

/// `amount` less `bps` basis points, saturating, rounded down.
pub open spec fn less_bps(amount: u128, bps: int) -> u128 {
    (sat_mul_spec(amount as int, 10_000 - bps, u128::MAX as int) / 10_000) as u128
}

fn bridge_fee(amount: u128) -> (r: u32)
    requires
        usd_estimate_fits(amount),
    ensures
        r == bridge_fee_bps(amount),
        r <= 5,
{
    let usd = (amount / USD_ESTIMATE_DIVISOR) as u64 * 3;
    FeeTier::from_usd_cents(usd).bps()
}

fn apply_bps(amount: u128, bps: u32) -> (r: u128)
    requires
        bps <= 10_000,
    ensures
        r == less_bps(amount, bps as int),
{
    sat_mul_u128(amount, 10_000 - bps as u128) / 10_000
}

/// The direct bridge route.
pub open spec fn direct_route(i: IntentRequest) -> RouteView {
    let fee = bridge_fee_bps(i.amount_in);
    let out = less_bps(i.amount_in, fee as int);
    (
        seq![
            RouteHop {
                hop_type: HopType::ZkBridge,
                token_in: i.token_in,
                chain_in: i.chain_in,
                token_out: i.token_out,
                chain_out: i.chain_out,
                amount_in: i.amount_in,
                expected_amount_out: out,
                fee_bps: fee,
                executor: "InterLink ZK Hub",
                estimated_secs: 30,
            },
        ],
        out,
        fee,
        30,
        RouteType::DirectBridge,
        95,
    )
}

fn build_direct_bridge_route(intent: &IntentRequest) -> (r: IntentRoute)
    requires
        usd_estimate_fits(intent.amount_in),
    ensures
        r@ == direct_route(*intent),
{
    let fee_bps = bridge_fee(intent.amount_in);
    let amount_out = apply_bps(intent.amount_in, fee_bps);
    let hops = vec![
        RouteHop {
            hop_type: HopType::ZkBridge,
            token_in: intent.token_in,
            chain_in: intent.chain_in,
            token_out: intent.token_out,
            chain_out: intent.chain_out,
            amount_in: intent.amount_in,
            expected_amount_out: amount_out,
            fee_bps,
            executor: "InterLink ZK Hub",
            estimated_secs: 30,
        },
    ];
    let r = IntentRoute {
        hops,
        total_amount_out: amount_out,
        total_fee_bps: fee_bps,
        total_secs: 30,
        route_type: RouteType::DirectBridge,
        confidence: 95,
    };
    assert(r@.0 =~= direct_route(*intent).0);
    r
}

/// Bridge the input token, then swap on the destination chain (30 bps fee,
/// 50 bps slippage).
pub open spec fn bridge_and_swap_route(i: IntentRequest) -> RouteView {
    let fee = bridge_fee_bps(i.amount_in);
    let after_bridge = less_bps(i.amount_in, fee as int);
    let out = less_bps(after_bridge, 80);
    (
        seq![
            RouteHop {
                hop_type: HopType::ZkBridge,
                token_in: i.token_in,
                chain_in: i.chain_in,
                token_out: i.token_in,
                chain_out: i.chain_out,
                amount_in: i.amount_in,
                expected_amount_out: after_bridge,
                fee_bps: fee,
                executor: "InterLink ZK Hub",
                estimated_secs: 30,
            },
            RouteHop {
                hop_type: HopType::AmmSwap,
                token_in: i.token_in,
                chain_in: i.chain_out,
                token_out: i.token_out,
                chain_out: i.chain_out,
                amount_in: after_bridge,
                expected_amount_out: out,
                fee_bps: 30,
                executor: "InterLink AMM",
                estimated_secs: 5,
            },
        ],
        out,
        (fee + 30) as u32,
        35,
        RouteType::BridgeAndSwap,
        85,
    )
}

fn build_bridge_and_swap_route(intent: &IntentRequest) -> (r: IntentRoute)
    requires
        usd_estimate_fits(intent.amount_in),
    ensures
        r@ == bridge_and_swap_route(*intent),
{
    let bridge_fee_bps = bridge_fee(intent.amount_in);
    let after_bridge = apply_bps(intent.amount_in, bridge_fee_bps);
    let swap_fee_bps: u32 = 30;
    let swap_slippage_bps: u32 = 50;
    let amount_out = apply_bps(after_bridge, swap_fee_bps + swap_slippage_bps);
    let total_fee_bps = bridge_fee_bps + swap_fee_bps;
    let hops = vec![
        RouteHop {
            hop_type: HopType::ZkBridge,
            token_in: intent.token_in,
            chain_in: intent.chain_in,
            token_out: intent.token_in,
            chain_out: intent.chain_out,
            amount_in: intent.amount_in,
            expected_amount_out: after_bridge,
            fee_bps: bridge_fee_bps,
            executor: "InterLink ZK Hub",
            estimated_secs: 30,
        },
        RouteHop {
            hop_type: HopType::AmmSwap,
            token_in: intent.token_in,
            chain_in: intent.chain_out,
            token_out: intent.token_out,
            chain_out: intent.chain_out,
            amount_in: after_bridge,
            expected_amount_out: amount_out,
            fee_bps: swap_fee_bps,
            executor: "InterLink AMM",
            estimated_secs: 5,
        },
    ];
    let r = IntentRoute {
        hops,
        total_amount_out: amount_out,
        total_fee_bps,
        total_secs: 35,
        route_type: RouteType::BridgeAndSwap,
        confidence: 85,
    };
    assert(r@.0 =~= bridge_and_swap_route(*intent).0);
    r
}

/// Swap on one chain (30 bps fee).
pub open spec fn same_chain_swap_route(i: IntentRequest) -> RouteView {
    let out = less_bps(i.amount_in, 30);
    (
        seq![
            RouteHop {
                hop_type: HopType::AmmSwap,
                token_in: i.token_in,
                chain_in: i.chain_in,
                token_out: i.token_out,
                chain_out: i.chain_out,
                amount_in: i.amount_in,
                expected_amount_out: out,
                fee_bps: 30,
                executor: "InterLink AMM",
                estimated_secs: 5,
            },
        ],
        out,
        30,
        5,
        RouteType::SameChainSwap,
        90,
    )
}

fn build_same_chain_swap_route(intent: &IntentRequest) -> (r: IntentRoute)
    ensures
        r@ == same_chain_swap_route(*intent),
{
    let swap_fee_bps: u32 = 30;
    let amount_out = apply_bps(intent.amount_in, swap_fee_bps);
    let hops = vec![
        RouteHop {
            hop_type: HopType::AmmSwap,
            token_in: intent.token_in,
            chain_in: intent.chain_in,
            token_out: intent.token_out,
            chain_out: intent.chain_out,
            amount_in: intent.amount_in,
            expected_amount_out: amount_out,
            fee_bps: swap_fee_bps,
            executor: "InterLink AMM",
            estimated_secs: 5,
        },
    ];
    let r = IntentRoute {
        hops,
        total_amount_out: amount_out,
        total_fee_bps: swap_fee_bps,
        total_secs: 5,
        route_type: RouteType::SameChainSwap,
        confidence: 90,
    };
    assert(r@.0 =~= same_chain_swap_route(*intent).0);
    r
}

/// Bridge to Ethereum, swap on a DEX aggregator (25 bps), bridge onward.
pub open spec fn multihop_route(i: IntentRequest) -> RouteView {
    let fee = bridge_fee_bps(i.amount_in);
    let after_hop1 = less_bps(i.amount_in, fee as int);
    let after_hop2 = less_bps(after_hop1, 25);
    let after_hop3 = less_bps(after_hop2, fee as int);
    (
        seq![
            RouteHop {
                hop_type: HopType::ZkBridge,
                token_in: i.token_in,
                chain_in: i.chain_in,
                token_out: i.token_in,
                chain_out: 1,
                amount_in: i.amount_in,
                expected_amount_out: after_hop1,
                fee_bps: fee,
                executor: "InterLink ZK Hub",
                estimated_secs: 30,
            },
            RouteHop {
                hop_type: HopType::DexSwap,
                token_in: i.token_in,
                chain_in: 1,
                token_out: i.token_out,
                chain_out: 1,
                amount_in: after_hop1,
                expected_amount_out: after_hop2,
                fee_bps: 25,
                executor: "1inch",
                estimated_secs: 15,
            },
            RouteHop {
                hop_type: HopType::ZkBridge,
                token_in: i.token_out,
                chain_in: 1,
                token_out: i.token_out,
                chain_out: i.chain_out,
                amount_in: after_hop2,
                expected_amount_out: after_hop3,
                fee_bps: fee,
                executor: "InterLink ZK Hub",
                estimated_secs: 30,
            },
        ],
        after_hop3,
        (fee * 2 + 25) as u32,
        75,
        RouteType::MultiHop,
        75,
    )
}

/// The multi-hop route, for inputs of at least one whole token only.
fn build_multihop_route(intent: &IntentRequest) -> (r: Option<IntentRoute>)
    requires
        intent.amount_in >= MULTIHOP_MIN_AMOUNT ==> usd_estimate_fits(intent.amount_in),
    ensures
        intent.amount_in < MULTIHOP_MIN_AMOUNT ==> r is None,
        intent.amount_in >= MULTIHOP_MIN_AMOUNT ==> r is Some && r->0@ == multihop_route(*intent),
{
    if intent.amount_in < MULTIHOP_MIN_AMOUNT {
        return None;
    }
    let bridge_fee_bps = bridge_fee(intent.amount_in);
    let after_hop1 = apply_bps(intent.amount_in, bridge_fee_bps);
    let after_hop2 = apply_bps(after_hop1, 25);
    let after_hop3 = apply_bps(after_hop2, bridge_fee_bps);
    let hops = vec![
        RouteHop {
            hop_type: HopType::ZkBridge,
            token_in: intent.token_in,
            chain_in: intent.chain_in,
            token_out: intent.token_in,
            chain_out: 1,
            amount_in: intent.amount_in,
            expected_amount_out: after_hop1,
            fee_bps: bridge_fee_bps,
            executor: "InterLink ZK Hub",
            estimated_secs: 30,
        },
        RouteHop {
            hop_type: HopType::DexSwap,
            token_in: intent.token_in,
            chain_in: 1,
            token_out: intent.token_out,
            chain_out: 1,
            amount_in: after_hop1,
            expected_amount_out: after_hop2,
            fee_bps: 25,
            executor: "1inch",
            estimated_secs: 15,
        },
        RouteHop {
            hop_type: HopType::ZkBridge,
            token_in: intent.token_out,
            chain_in: 1,
            token_out: intent.token_out,
            chain_out: intent.chain_out,
            amount_in: after_hop2,
            expected_amount_out: after_hop3,
            fee_bps: bridge_fee_bps,
            executor: "InterLink ZK Hub",
            estimated_secs: 30,
        },
    ];
    let r = IntentRoute {
        hops,
        total_amount_out: after_hop3,
        total_fee_bps: bridge_fee_bps * 2 + 25,
        total_secs: 75,
        route_type: RouteType::MultiHop,
        confidence: 75,
    };
    assert(r@.0 =~= multihop_route(*intent).0);
    Some(r)
}

/// The candidate routes of an intent, in the order they are tried.
pub open spec fn candidate_routes(i: IntentRequest) -> Seq<RouteView> {
    let cross = i.chain_in != i.chain_out;
    let swap = !same_tokens(i);
    let s1 = if !swap && cross { seq![direct_route(i)] } else { Seq::empty() };
    let s2 = if cross && swap { s1.push(bridge_and_swap_route(i)) } else { s1 };
    let s3 = if !cross && swap { s2.push(same_chain_swap_route(i)) } else { s2 };
    if cross && swap && i.amount_in >= MULTIHOP_MIN_AMOUNT {
        s3.push(multihop_route(i))
    } else {
        s3
    }
}

/// The views of a list of routes.
pub open spec fn route_views(rs: Seq<IntentRoute>) -> Seq<RouteView> {
    rs.map_values(|r: IntentRoute| r@)
}

/// Generate the candidate routes of an intent.
pub fn generate_routes(intent: &IntentRequest) -> (r: Vec<IntentRoute>)
    requires
        intent.chain_in != intent.chain_out ==> usd_estimate_fits(intent.amount_in),
    ensures
        route_views(r@) == candidate_routes(*intent),
{
    let mut routes: Vec<IntentRoute> = Vec::new();
    let same = same_token(&intent.token_in, &intent.token_out);
    let cross = intent.chain_in != intent.chain_out;
    if same && cross {
        routes.push(build_direct_bridge_route(intent));
    }
    if cross && !same {
        routes.push(build_bridge_and_swap_route(intent));
    }
    if !cross && !same {
        routes.push(build_same_chain_swap_route(intent));
    }
    if cross && !same {
        if let Some(multi) = build_multihop_route(intent) {
            routes.push(multi);
        }
    }
    assert(route_views(routes@) =~= candidate_routes(*intent));
    routes
}

/// Whether route `a` ranks before route `b`: by time when speed is
/// preferred, by fee otherwise, then by larger output.
pub open spec fn ranks_before(a: RouteView, b: RouteView, prefer_speed: bool) -> bool {
    if prefer_speed {
        a.3 < b.3 || (a.3 == b.3 && a.1 > b.1)
    } else {
        a.2 < b.2 || (a.2 == b.2 && a.1 > b.1)
    }
}

/// Index of the first best-ranked route.
pub open spec fn best_index(rs: Seq<RouteView>, prefer_speed: bool) -> int
    decreases rs.len(),
{
    if rs.len() <= 1 {
        0
    } else {
        let b = best_index(rs.drop_last(), prefer_speed);
        if ranks_before(rs.last(), rs[b], prefer_speed) {
            rs.len() - 1
        } else {
            b
        }
    }
}

fn ranks_before_exec(a: &IntentRoute, b: &IntentRoute, prefer_speed: bool) -> (r: bool)
    ensures
        r == ranks_before(a@, b@, prefer_speed),
{
    if prefer_speed {
        a.total_secs < b.total_secs || (a.total_secs == b.total_secs && a.total_amount_out
            > b.total_amount_out)
    } else {
        a.total_fee_bps < b.total_fee_bps || (a.total_fee_bps == b.total_fee_bps
            && a.total_amount_out > b.total_amount_out)
    }
}

/// The error of the checks made before any route is built.
pub open spec fn precheck_error(i: IntentRequest, now: u64) -> Option<IntentError> {
    if now > i.deadline {
        Some(IntentError::IntentExpired)
    } else if i.amount_in == 0 {
        Some(IntentError::ZeroAmount)
    } else if i.min_amount_out > sat_mul_spec(i.amount_in as int, 2, u128::MAX as int) {
        Some(IntentError::UnreachableMinOutput)
    } else {
        None
    }
}

/// The route `solve` picks.
pub open spec fn best_route(i: IntentRequest) -> RouteView {
    let rs = candidate_routes(i);
    rs[best_index(rs, i.prefer_speed)]
}

/// The outcome of `solve` short of the quote itself: an error, or none.
pub open spec fn solve_error(i: IntentRequest, now: u64) -> Option<IntentError> {
    if precheck_error(i, now) is Some {
        precheck_error(i, now)
    } else if candidate_routes(i).len() == 0 {
        Some(IntentError::NoRouteFound)
    } else if best_route(i).1 < i.min_amount_out {
        Some(IntentError::BelowMinOutput { expected: best_route(i).1, minimum: i.min_amount_out })
    } else {
        None
    }
}

/// The first `n` items of `s`, or all of them when there are fewer.
pub open spec fn first_at_most<T>(s: Seq<T>, n: int) -> Seq<T> {
    if s.len() <= n {
        s
    } else {
        s.take(n)
    }
}

/// The quote `solve` returns for `i` at `now`, once no error applies.
pub open spec fn is_quote_for(q: IntentQuote, i: IntentRequest, now: u64) -> bool {
    let rs = candidate_routes(i);
    let k = best_index(rs, i.prefer_speed);
    let best = rs[k];
    &&& q.quote_id@ == "quote_"@ + dec_chars(now as nat) + "_"@ + dec_chars((i.amount_in % 10_000) as nat)
    &&& same_request(q.intent, i)
    &&& q.best_route@ == best
    &&& route_views(q.alternative_routes@) == first_at_most(rs.remove(k), 3)
    &&& q.expected_out == best.1
    &&& q.min_out == less_bps(best.1, if best.2 < MAX_INTENT_SLIPPAGE_BPS { best.2 as int } else { MAX_INTENT_SLIPPAGE_BPS as int })
    &&& q.fee_bps == best.2
    &&& q.protocol_fee_bps == bridge_fee_bps(i.amount_in)
    &&& q.estimated_secs == best.3
    &&& q.expires_at == now + INTENT_EXPIRY_SECS
    &&& q.interlink_wins == (best.4 == RouteType::DirectBridge || best.2 <= 10)
}

/// Find the best route for an intent at time `now_secs` and quote it.
pub fn solve(intent: &IntentRequest, now_secs: u64) -> (r: Result<IntentQuote, IntentError>)
    requires
        precheck_error(*intent, now_secs) is None && intent.chain_in != intent.chain_out
            ==> usd_estimate_fits(intent.amount_in),
        solve_error(*intent, now_secs) is None ==> usd_estimate_fits(intent.amount_in) && now_secs
            + INTENT_EXPIRY_SECS <= u64::MAX,
    ensures
        match solve_error(*intent, now_secs) {
            Some(e) => r == Err::<IntentQuote, IntentError>(e),
            None => r is Ok && is_quote_for(r->Ok_0, *intent, now_secs),
        },
{
    if intent.is_expired(now_secs) {
        return Err(IntentError::IntentExpired);
    }
    if intent.amount_in == 0 {
        return Err(IntentError::ZeroAmount);
    }
    if intent.min_amount_out > sat_mul_u128(intent.amount_in, 2) {
        return Err(IntentError::UnreachableMinOutput);
    }
    let mut routes = generate_routes(intent);
    let ghost rs = candidate_routes(*intent);
    if routes.len() == 0 {
        return Err(IntentError::NoRouteFound);
    }
    let n = routes.len();
    let mut best_idx: usize = 0;
    let mut k: usize = 1;
    assert(rs.take(1).len() == 1);
    while k < n
        invariant
            n == routes@.len(),
            route_views(routes@) == rs,
            1 <= k <= n,
            best_idx < k,
            best_idx == best_index(rs.take(k as int), intent.prefer_speed),
        decreases n - k,
    {
        assert(rs.take(k + 1).drop_last() =~= rs.take(k as int));
        assert(rs.take(k + 1)[best_idx as int] == rs[best_idx as int]);
        assert(rs[k as int] == routes@[k as int]@);
        assert(rs[best_idx as int] == routes@[best_idx as int]@);
        if ranks_before_exec(&routes[k], &routes[best_idx], intent.prefer_speed) {
            best_idx = k;
        }
        k = k + 1;
    }
    assert(rs.take(n as int) =~= rs);
    let best = routes.remove(best_idx);
    assert(best@ == rs[best_idx as int]);
    let expected_out = best.total_amount_out;
    let slip: u32 = if best.total_fee_bps < MAX_INTENT_SLIPPAGE_BPS {
        best.total_fee_bps
    } else {
        MAX_INTENT_SLIPPAGE_BPS
    };
    let min_out = sat_mul_u128(expected_out, 10_000 - slip as u128) / 10_000;
    if expected_out < intent.min_amount_out {
        return Err(IntentError::BelowMinOutput { expected: expected_out, minimum: intent.min_amount_out });
    }
    let ghost rest = routes@;
    assert(route_views(rest) =~= rs.remove(best_idx as int));
    routes.truncate(3);
    proof {
        if rest.len() > 3 {
            assert(route_views(routes@) =~= route_views(rest).take(3));
        } else {
            assert(routes@ == rest);
        }
    }
    let protocol_fee_bps = bridge_fee(intent.amount_in);
    let mut quote_id = prefixed_decimal("quote_", now_secs);
    quote_id.append("_");
    let tail = decimal_u128(intent.amount_in % 10_000);
    quote_id.append(tail.as_str());
    let interlink_wins = best.route_type == RouteType::DirectBridge || best.total_fee_bps <= 10;
    let fee_bps = best.total_fee_bps;
    let estimated_secs = best.total_secs;
    Ok(IntentQuote {
        quote_id,
        intent: intent.clone(),
        best_route: best,
        alternative_routes: routes,
        expected_out,
        min_out,
        fee_bps,
        protocol_fee_bps,
        estimated_secs,
        expires_at: now_secs + INTENT_EXPIRY_SECS,
        interlink_wins,
    })
}

/// The route the solver picks ranks no worse than any candidate, and
/// strictly better than every candidate listed before it.
pub proof fn law_best_route_is_first_best(rs: Seq<RouteView>, prefer_speed: bool)
    requires
        rs.len() > 0,
    ensures
        0 <= best_index(rs, prefer_speed) < rs.len(),
        forall|j: int|
            0 <= j < rs.len() ==> !ranks_before(rs[j], #[trigger] rs[best_index(rs, prefer_speed)], prefer_speed),
        forall|j: int|
            0 <= j < best_index(rs, prefer_speed) ==> ranks_before(
                rs[best_index(rs, prefer_speed)],
                #[trigger] rs[j],
                prefer_speed,
            ),
    decreases rs.len(),
{
    if rs.len() > 1 {
        let init = rs.drop_last();
        law_best_route_is_first_best(init, prefer_speed);
        let b = best_index(init, prefer_speed);
        assert forall|j: int| 0 <= j < init.len() implies init[j] == rs[j] by {}
        let k = best_index(rs, prefer_speed);
        assert forall|j: int| 0 <= j < rs.len() implies !ranks_before(rs[j], #[trigger] rs[k], prefer_speed) by {
            if j < init.len() {
                assert(init[j] == rs[j]);
                assert(!ranks_before(init[j], init[b], prefer_speed));
            }
        }
        assert forall|j: int| 0 <= j < k implies ranks_before(rs[k], #[trigger] rs[j], prefer_speed) by {
            assert(init[j] == rs[j]);
            if k == b {
                assert(ranks_before(init[b], init[j], prefer_speed));
            } else {
                assert(!ranks_before(init[j], init[b], prefer_speed));
                assert(ranks_before(rs.last(), init[b], prefer_speed));
            }
        }
    }
}

/// Inputs below one whole token get no multi-hop candidate.
pub proof fn law_multihop_only_for_large_amounts(i: IntentRequest)
    requires
        i.amount_in < MULTIHOP_MIN_AMOUNT,
    ensures
        forall|j: int|
            0 <= j < candidate_routes(i).len() ==> (#[trigger] candidate_routes(i)[j]).4
                != RouteType::MultiHop,
{
}

/// Taking basis points off never raises an amount.
pub proof fn lemma_less_bps_le(amount: u128, bps: int)
    requires
        0 <= bps <= 10_000,
    ensures
        less_bps(amount, bps) <= amount,
{
    let full = amount as int * (10_000 - bps);
    assert(full <= amount as int * 10_000) by (nonlinear_arith)
        requires
            0 <= bps,
            full == amount as int * (10_000 - bps),
    ;
    assert(sat_mul_spec(amount as int, 10_000 - bps, u128::MAX as int) <= amount as int * 10_000);
}

/// A quote's worst case never exceeds its expected output.
pub proof fn law_quote_worst_case_within_expected(q: IntentQuote, i: IntentRequest, now: u64)
    requires
        is_quote_for(q, i, now),
    ensures
        q.min_out <= q.expected_out,
{
    let best = best_route(i);
    lemma_less_bps_le(best.1, if best.2 < MAX_INTENT_SLIPPAGE_BPS { best.2 as int } else { MAX_INTENT_SLIPPAGE_BPS as int });
}


/// The quoted route ranks no worse than any candidate: no route of the
/// intent is cheaper (or, preferring speed, faster), or equally cheap with
/// a larger output, than the route the quote names.
pub proof fn law_quoted_route_is_least(q: IntentQuote, i: IntentRequest, now: u64)
    requires
        is_quote_for(q, i, now),
        candidate_routes(i).len() > 0,
    ensures
        forall|j: int|
            0 <= j < candidate_routes(i).len() ==> !ranks_before(
                #[trigger] candidate_routes(i)[j],
                q.best_route@,
                i.prefer_speed,
            ),
{
    law_best_route_is_first_best(candidate_routes(i), i.prefer_speed);
}

} // verus!
