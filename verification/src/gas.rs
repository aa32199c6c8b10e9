//! Cost quotes for a bridge transfer, and a comparison with published
//! competitor rates.
use vstd::prelude::*;
use crate::fee::{FeeTier, tier_of, tier_bps, tier_description_str, fee_spec, calculate_fee};
use crate::text::{
    dec_chars, decimal, usd_text, usd_string, pad_left, pad_right, pad_left_string,
    pad_right_string,
};

verus! {

/// Gas units consumed by a gateway `sendCrossChainMessage` call.
pub const EVM_GATEWAY_GAS: u64 = 80_000;

/// Compute units consumed by the hub's proof submission instruction.
pub const SOLANA_SUBMIT_CU: u64 = 200_000;

/// Compute unit price in micro-lamports.
pub const SOLANA_CU_PRICE_MICRO_LAMPORTS: u64 = 1;

/// Wormhole message fee range in USD cents.
pub const WORMHOLE_FEE_MIN_CENTS: u64 = 100;
pub const WORMHOLE_FEE_MAX_CENTS: u64 = 2_000;

/// Stargate fee range in basis points.
pub const STARGATE_FEE_MIN_BPS: u32 = 50;
pub const STARGATE_FEE_MAX_BPS: u32 = 500;

/// Across fee range in basis points.
pub const ACROSS_FEE_MIN_BPS: u32 = 25;
pub const ACROSS_FEE_MAX_BPS: u32 = 100;

/// Across settlement time range in seconds.
pub const ACROSS_SETTLEMENT_MIN_SECS: u64 = 300;
pub const ACROSS_SETTLEMENT_MAX_SECS: u64 = 3_600;

/// Wormhole settlement time range in seconds.
pub const WORMHOLE_SETTLEMENT_MIN_SECS: u64 = 120;
pub const WORMHOLE_SETTLEMENT_MAX_SECS: u64 = 900;

/// Stargate settlement time range in seconds.
pub const STARGATE_SETTLEMENT_MIN_SECS: u64 = 60;
pub const STARGATE_SETTLEMENT_MAX_SECS: u64 = 120;

/// Target settlement time of this bridge in seconds.
pub const INTERLINK_SETTLEMENT_TARGET_SECS: u64 = 30;

/// Gas equivalent of verifying one proof, shared by a whole batch.
pub const PROOF_GAS_EQUIVALENT: u64 = 200_000;

/// Base fee of a Solana transaction in lamports.
pub const SOLANA_BASE_FEE_LAMPORTS: u64 = 5_000;

/// Wei per gwei.
pub const WEI_PER_GWEI: u128 = 1_000_000_000;

/// Full cost breakdown of one transfer.
#[derive(Debug, Clone)]
pub struct GasEstimate {
    pub source_gas_units: u64,
    pub source_gas_price_gwei: u64,
    pub source_gas_cost_wei: u128,
    /// Proof overhead, amortised over the batch.
    pub proof_cost_amortised_wei: u128,
    pub dest_compute_units: u64,
    pub dest_fee_lamports: u64,
    pub fee_tier: FeeTierSummary,
    pub protocol_fee_amount: u128,
}

/// Summary of the fee tier that applies.
#[derive(Debug, Clone)]
pub struct FeeTierSummary {
    pub name: &'static str,
    pub bps: u32,
    pub description: &'static str,
}

/// The name of a tier.
pub open spec fn tier_name_str(t: FeeTier) -> &'static str {
    match t {
        FeeTier::Zero => "Zero",
        FeeTier::Standard => "Standard",
        FeeTier::Institutional => "Institutional",
        FeeTier::OTC => "OTC",
    }
}

/// The summary of a tier.
pub open spec fn tier_summary(t: FeeTier) -> FeeTierSummary {
    FeeTierSummary { name: tier_name_str(t), bps: tier_bps(t), description: tier_description_str(t) }
}

impl From<FeeTier> for FeeTierSummary {
    fn from(t: FeeTier) -> (r: Self) {
        let name = match t {
            FeeTier::Zero => "Zero",
            FeeTier::Standard => "Standard",
            FeeTier::Institutional => "Institutional",
            FeeTier::OTC => "OTC",
        };
        FeeTierSummary { name, bps: t.bps(), description: t.describe() }
    }
}

impl vstd::std_specs::convert::FromSpecImpl<FeeTier> for FeeTierSummary {
    open spec fn obeys_from_spec() -> bool {
        true
    }

    open spec fn from_spec(t: FeeTier) -> Self {
        tier_summary(t)
    }
}

/// A competitor's cost for a transfer of a given size.
#[derive(Debug, Clone)]
pub struct CompetitorEstimate {
    pub name: &'static str,
    pub fee_bps: u32,
    pub fee_usd_cents: u64,
    pub settlement_min_secs: u64,
    pub settlement_max_secs: u64,
}

/// This bridge's side of a comparison.
#[derive(Debug, Clone)]
pub struct InterLinkSummary {
    pub fee_bps: u32,
    pub fee_usd_cents: u64,
    pub settlement_target_secs: u64,
    pub fee_description: &'static str,
}

/// This bridge against its competitors for one transfer size.
#[derive(Debug, Clone)]
pub struct CostComparison {
    pub interlink: InterLinkSummary,
    pub competitors: Vec<CompetitorEstimate>,
}

/// Wei charged for `gas` units at `gwei` per unit.
pub open spec fn gas_cost_wei(gas: int, gwei: u64) -> int {
    gas * gwei * WEI_PER_GWEI
}

/// The proof overhead that one transfer pays in a batch of `batch_size`
/// (a batch is never taken as smaller than one).
pub open spec fn amortised_proof_cost(gwei: u64, batch_size: usize) -> int {
    let b: int = if batch_size == 0 { 1 } else { batch_size as int };
    gas_cost_wei(PROOF_GAS_EQUIVALENT as int, gwei) / b
}

/// Estimate the full cost of a transfer of `amount` base units worth
/// `usd_cents`, at `gas_price_gwei` on the source chain, in a batch of
/// `batch_size`. `eth_price_usd` is taken and not used.
pub fn estimate(
    amount: u128,
    usd_cents: u64,
    gas_price_gwei: u64,
    batch_size: usize,
    eth_price_usd: u64,
) -> (r: GasEstimate)
    ensures
        r.source_gas_units == EVM_GATEWAY_GAS,
        r.source_gas_price_gwei == gas_price_gwei,
        r.source_gas_cost_wei == gas_cost_wei(EVM_GATEWAY_GAS as int, gas_price_gwei),
        r.proof_cost_amortised_wei == amortised_proof_cost(gas_price_gwei, batch_size),
        r.dest_compute_units == SOLANA_SUBMIT_CU,
        r.dest_fee_lamports == SOLANA_SUBMIT_CU * SOLANA_CU_PRICE_MICRO_LAMPORTS / 1_000_000
            + SOLANA_BASE_FEE_LAMPORTS,
        r.fee_tier == tier_summary(tier_of(usd_cents)),
        r.protocol_fee_amount == fee_spec(amount, usd_cents),
{
    let batch: u128 = if batch_size == 0 { 1 } else { batch_size as u128 };
    let gwei = gas_price_gwei as u128;
    assert(gwei * 1_000_000_000 <= u64::MAX * 1_000_000_000) by (nonlinear_arith)
        requires gwei <= u64::MAX;
    let per_gas = gwei * WEI_PER_GWEI;
    let source_gas_cost_wei = EVM_GATEWAY_GAS as u128 * per_gas;
    let proof_total = PROOF_GAS_EQUIVALENT as u128 * per_gas;
    let proof_cost_amortised_wei = proof_total / batch;
    let dest_fee_lamports = SOLANA_SUBMIT_CU * SOLANA_CU_PRICE_MICRO_LAMPORTS / 1_000_000
        + SOLANA_BASE_FEE_LAMPORTS;
    let tier = FeeTier::from_usd_cents(usd_cents);
    let protocol_fee_amount = calculate_fee(amount, usd_cents);
    proof {
        assert(EVM_GATEWAY_GAS as int * (gwei * WEI_PER_GWEI) == gas_cost_wei(
            EVM_GATEWAY_GAS as int,
            gas_price_gwei,
        )) by (nonlinear_arith)
            requires
                gwei == gas_price_gwei,
        ;
        assert(PROOF_GAS_EQUIVALENT as int * (gwei * WEI_PER_GWEI) == gas_cost_wei(
            PROOF_GAS_EQUIVALENT as int,
            gas_price_gwei,
        )) by (nonlinear_arith)
            requires
                gwei == gas_price_gwei,
        ;
    }
    GasEstimate {
        source_gas_units: EVM_GATEWAY_GAS,
        source_gas_price_gwei: gas_price_gwei,
        source_gas_cost_wei,
        proof_cost_amortised_wei,
        dest_compute_units: SOLANA_SUBMIT_CU,
        dest_fee_lamports,
        fee_tier: FeeTierSummary::from(tier),
        protocol_fee_amount,
    }
}

/// `bps` basis points of `usd_cents`, rounded down.
pub open spec fn share_cents(usd_cents: u64, bps: u32) -> u64 {
    (usd_cents as int * bps as int / 10_000) as u64
}

/// This bridge's fee in cents on a transfer worth `usd_cents`.
pub open spec fn interlink_fee_cents(usd_cents: u64) -> u64 {
    let bps = tier_bps(tier_of(usd_cents));
    if bps == 0 {
        0
    } else {
        share_cents(usd_cents, bps)
    }
}

/// This bridge's side of the comparison for a transfer worth `usd_cents`.
pub open spec fn interlink_summary(usd_cents: u64) -> InterLinkSummary {
    InterLinkSummary {
        fee_bps: tier_bps(tier_of(usd_cents)),
        fee_usd_cents: interlink_fee_cents(usd_cents),
        settlement_target_secs: INTERLINK_SETTLEMENT_TARGET_SECS,
        fee_description: tier_description_str(tier_of(usd_cents)),
    }
}

/// The competitors, at their best published rates, for a transfer worth
/// `usd_cents`: Wormhole's minimum flat fee, Stargate's and Across's lowest
/// percentage.
pub open spec fn competitor_estimates(usd_cents: u64) -> Seq<CompetitorEstimate> {
    seq![
        CompetitorEstimate {
            name: "Wormhole",
            fee_bps: 10,
            fee_usd_cents: WORMHOLE_FEE_MIN_CENTS,
            settlement_min_secs: WORMHOLE_SETTLEMENT_MIN_SECS,
            settlement_max_secs: WORMHOLE_SETTLEMENT_MAX_SECS,
        },
        CompetitorEstimate {
            name: "Stargate v2",
            fee_bps: STARGATE_FEE_MIN_BPS,
            fee_usd_cents: share_cents(usd_cents, STARGATE_FEE_MIN_BPS),
            settlement_min_secs: STARGATE_SETTLEMENT_MIN_SECS,
            settlement_max_secs: STARGATE_SETTLEMENT_MAX_SECS,
        },
        CompetitorEstimate {
            name: "Across",
            fee_bps: ACROSS_FEE_MIN_BPS,
            fee_usd_cents: share_cents(usd_cents, ACROSS_FEE_MIN_BPS),
            settlement_min_secs: ACROSS_SETTLEMENT_MIN_SECS,
            settlement_max_secs: ACROSS_SETTLEMENT_MAX_SECS,
        },
    ]
}

fn share_of(usd_cents: u64, bps: u32) -> (r: u64)
    requires
        bps <= 10_000,
    ensures
        r == share_cents(usd_cents, bps),
        r <= usd_cents,
{
    assert(usd_cents as u128 * bps as u128 <= u64::MAX * 10_000) by (nonlinear_arith)
        requires
            bps <= 10_000,
    ;
    let v = usd_cents as u128 * bps as u128 / 10_000;
    assert(v <= usd_cents) by (nonlinear_arith)
        requires
            v == usd_cents as int * bps as int / 10_000,
            bps <= 10_000,
    ;
    v as u64
}

/// Compare this bridge with its competitors for a transfer worth `usd_cents`.
pub fn compare(usd_cents: u64) -> (r: CostComparison)
    ensures
        r.interlink == interlink_summary(usd_cents),
        r.competitors@ == competitor_estimates(usd_cents),
{
    let tier = FeeTier::from_usd_cents(usd_cents);
    let fee_bps = tier.bps();
    let interlink_fee_cents = if fee_bps == 0 {
        0u64
    } else {
        share_of(usd_cents, fee_bps)
    };
    let stargate_fee_cents = share_of(usd_cents, STARGATE_FEE_MIN_BPS);
    let across_fee_cents = share_of(usd_cents, ACROSS_FEE_MIN_BPS);
    let competitors = vec![
        CompetitorEstimate {
            name: "Wormhole",
            fee_bps: 10,
            fee_usd_cents: WORMHOLE_FEE_MIN_CENTS,
            settlement_min_secs: WORMHOLE_SETTLEMENT_MIN_SECS,
            settlement_max_secs: WORMHOLE_SETTLEMENT_MAX_SECS,
        },
        CompetitorEstimate {
            name: "Stargate v2",
            fee_bps: STARGATE_FEE_MIN_BPS,
            fee_usd_cents: stargate_fee_cents,
            settlement_min_secs: STARGATE_SETTLEMENT_MIN_SECS,
            settlement_max_secs: STARGATE_SETTLEMENT_MAX_SECS,
        },
        CompetitorEstimate {
            name: "Across",
            fee_bps: ACROSS_FEE_MIN_BPS,
            fee_usd_cents: across_fee_cents,
            settlement_min_secs: ACROSS_SETTLEMENT_MIN_SECS,
            settlement_max_secs: ACROSS_SETTLEMENT_MAX_SECS,
        },
    ];
    assert(competitors@ =~= competitor_estimates(usd_cents));
    CostComparison {
        interlink: InterLinkSummary {
            fee_bps,
            fee_usd_cents: interlink_fee_cents,
            settlement_target_secs: INTERLINK_SETTLEMENT_TARGET_SECS,
            fee_description: tier.describe(),
        },
        competitors,
    }
}

/// The lowest competitor fee in `cs`, or 0 when there is none.
pub open spec fn is_cheapest(cs: Seq<CompetitorEstimate>, r: u64) -> bool {
    if cs.len() == 0 {
        r == 0
    } else {
        &&& exists|i: int| 0 <= i < cs.len() && #[trigger] cs[i].fee_usd_cents == r
        &&& forall|i: int| 0 <= i < cs.len() ==> r <= #[trigger] cs[i].fee_usd_cents
    }
}

/// The lowest competitor fee in `cs`, or 0 when there is none.
pub open spec fn min_fee(cs: Seq<CompetitorEstimate>) -> u64
    decreases cs.len(),
{
    if cs.len() == 0 {
        0
    } else if cs.len() == 1 {
        cs[0].fee_usd_cents
    } else {
        let m = min_fee(cs.drop_last());
        if cs.last().fee_usd_cents < m {
            cs.last().fee_usd_cents
        } else {
            m
        }
    }
}

/// This bridge's fee is at most every competitor's.
pub open spec fn wins_on_fee(il: InterLinkSummary, cs: Seq<CompetitorEstimate>) -> bool {
    forall|i: int| 0 <= i < cs.len() ==> il.fee_usd_cents <= #[trigger] cs[i].fee_usd_cents
}

/// This bridge's settlement target is no later than every competitor's
/// fastest settlement.
pub open spec fn wins_on_speed(il: InterLinkSummary, cs: Seq<CompetitorEstimate>) -> bool {
    forall|i: int|
        0 <= i < cs.len() ==> il.settlement_target_secs <= #[trigger] cs[i].settlement_min_secs
}

/// The cheapest fee of a nonempty list is one of its fees and no fee is
/// lower.
pub proof fn lemma_min_fee_is_cheapest(cs: Seq<CompetitorEstimate>)
    ensures
        is_cheapest(cs, min_fee(cs)),
    decreases cs.len(),
{
    if cs.len() > 1 {
        let init = cs.drop_last();
        lemma_min_fee_is_cheapest(init);
        let m = min_fee(init);
        let w = choose|i: int| 0 <= i < init.len() && #[trigger] init[i].fee_usd_cents == m;
        assert(cs[w].fee_usd_cents == init[w].fee_usd_cents);
        assert(cs[cs.len() - 1].fee_usd_cents == cs.last().fee_usd_cents);
        assert forall|i: int| 0 <= i < cs.len() implies min_fee(cs) <= #[trigger] cs[i].fee_usd_cents by {
            if i < cs.len() - 1 {
                assert(cs[i] == init[i]);
            }
        }
    } else if cs.len() == 1 {
        assert(cs[0].fee_usd_cents == min_fee(cs));
    }
}

impl CostComparison {
    /// Cheapest competitor fee in USD cents (0 without competitors).
    pub fn cheapest_competitor_cents(&self) -> (r: u64)
        ensures
            r == min_fee(self.competitors@),
            is_cheapest(self.competitors@, r),
    {
        let n = self.competitors.len();
        if n == 0 {
            return 0;
        }
        let mut best = self.competitors[0].fee_usd_cents;
        assert(self.competitors@.take(1) =~= seq![self.competitors@[0]]);
        let mut i: usize = 1;
        while i < n
            invariant
                n == self.competitors@.len(),
                1 <= i <= n,
                best == min_fee(self.competitors@.take(i as int)),
            decreases n - i,
        {
            assert(self.competitors@.take(i + 1).drop_last() =~= self.competitors@.take(i as int));
            if self.competitors[i].fee_usd_cents < best {
                best = self.competitors[i].fee_usd_cents;
            }
            i = i + 1;
        }
        assert(self.competitors@.take(n as int) =~= self.competitors@);
        proof {
            lemma_min_fee_is_cheapest(self.competitors@);
        }
        best
    }

    /// Savings against the cheapest competitor in USD cents; positive when
    /// this bridge is cheaper. Each amount is taken as an `i64`.
    pub fn savings_vs_cheapest_cents(&self) -> (r: i64)
        requires
            i64::MIN <= (min_fee(self.competitors@) as i64) - (self.interlink.fee_usd_cents as i64)
                <= i64::MAX,
        ensures
            r == (min_fee(self.competitors@) as i64) - (self.interlink.fee_usd_cents as i64),
    {
        let c = self.cheapest_competitor_cents();
        c as i64 - self.interlink.fee_usd_cents as i64
    }

    /// True if this bridge is no dearer than every competitor.
    pub fn interlink_wins_on_fee(&self) -> (r: bool)
        ensures
            r == wins_on_fee(self.interlink, self.competitors@),
    {
        let n = self.competitors.len();
        let mut i: usize = 0;
        while i < n
            invariant
                n == self.competitors@.len(),
                i <= n,
                forall|j: int|
                    0 <= j < i ==> self.interlink.fee_usd_cents
                        <= #[trigger] self.competitors@[j].fee_usd_cents,
            decreases n - i,
        {
            if self.competitors[i].fee_usd_cents < self.interlink.fee_usd_cents {
                return false;
            }
            i = i + 1;
        }
        true
    }

    /// True if this bridge's settlement target is no slower than every
    /// competitor's fastest settlement.
    pub fn interlink_wins_on_speed(&self) -> (r: bool)
        ensures
            r == wins_on_speed(self.interlink, self.competitors@),
    {
        let n = self.competitors.len();
        let mut i: usize = 0;
        while i < n
            invariant
                n == self.competitors@.len(),
                i <= n,
                forall|j: int|
                    0 <= j < i ==> self.interlink.settlement_target_secs
                        <= #[trigger] self.competitors@[j].settlement_min_secs,
            decreases n - i,
        {
            if self.competitors[i].settlement_min_secs < self.interlink.settlement_target_secs {
                return false;
            }
            i = i + 1;
        }
        true
    }
}

/// A larger batch never makes the proof overhead of one transfer dearer.
pub proof fn law_batching_never_raises_proof_cost(gwei: u64, smaller: usize, larger: usize)
    requires
        smaller <= larger,
    ensures
        amortised_proof_cost(gwei, larger) <= amortised_proof_cost(gwei, smaller),
{
    let total = gas_cost_wei(PROOF_GAS_EQUIVALENT as int, gwei);
    assert(total >= 0) by (nonlinear_arith)
        requires
            total == PROOF_GAS_EQUIVALENT as int * gwei * WEI_PER_GWEI,
    ;
    let a: int = if smaller == 0 { 1 } else { smaller as int };
    let b: int = if larger == 0 { 1 } else { larger as int };
    vstd::arithmetic::div_mod::lemma_div_is_ordered_by_denominator(total, a, b);
}

/// This bridge's fee is never above the best rate of Stargate or of Across.
pub proof fn law_never_dearer_than_percentage_bridges(usd_cents: u64)
    ensures
        interlink_fee_cents(usd_cents) <= share_cents(usd_cents, STARGATE_FEE_MIN_BPS),
        interlink_fee_cents(usd_cents) <= share_cents(usd_cents, ACROSS_FEE_MIN_BPS),
{
    let bps = tier_bps(tier_of(usd_cents));
    if bps != 0 {
        assert(usd_cents as int * bps as int / 10_000 <= usd_cents as int * 25 / 10_000)
            by (nonlinear_arith)
            requires
                bps <= 5,
        ;
        assert(usd_cents as int * 25 / 10_000 <= usd_cents as int * 50 / 10_000) by (nonlinear_arith);
        assert(usd_cents as int * 50 / 10_000 <= u64::MAX) by (nonlinear_arith);
    }
}

/// Whatever the transfer size, this bridge's settlement target beats the
/// fastest settlement of every competitor.
pub proof fn law_always_wins_on_speed(usd_cents: u64)
    ensures
        wins_on_speed(interlink_summary(usd_cents), competitor_estimates(usd_cents)),
{
}

/// Transfers under $1,000 pay no protocol fee, so no competitor is cheaper.
pub proof fn law_small_transfers_are_free(usd_cents: u64)
    requires
        usd_cents <= 99_999,
    ensures
        interlink_fee_cents(usd_cents) == 0,
        wins_on_fee(interlink_summary(usd_cents), competitor_estimates(usd_cents)),
{
}

/// The row of this bridge in the comparison table.
pub open spec fn interlink_row(s: InterLinkSummary) -> Seq<char> {
    "│ InterLink ★  │ "@ + pad_left(dec_chars(s.fee_bps as nat), 6) + " bps │ "@
        + pad_left(usd_text(s.fee_usd_cents as nat, 2), 10) + "  │ "@
        + pad_left(dec_chars(s.settlement_target_secs as nat), 6) + "s target           │\n"@
}

/// The row of one competitor in the comparison table.
pub open spec fn competitor_row(c: CompetitorEstimate) -> Seq<char> {
    "│ "@ + pad_right(c.name@, 13) + "│ "@ + pad_left(dec_chars(c.fee_bps as nat), 6)
        + " bps │ "@ + pad_left(usd_text(c.fee_usd_cents as nat, 2), 10) + "  │ "@
        + dec_chars(c.settlement_min_secs as nat) + "s–"@
        + dec_chars(c.settlement_max_secs as nat) + "s                │\n"@
}

/// The rows of all competitors, in order.
pub open spec fn competitor_rows(cs: Seq<CompetitorEstimate>) -> Seq<char>
    decreases cs.len(),
{
    if cs.len() == 0 {
        Seq::empty()
    } else {
        competitor_rows(cs.drop_last()) + competitor_row(cs.last())
    }
}

/// The line on savings (positive) or extra cost (negative), in cents.
pub open spec fn savings_line(savings: int) -> Seq<char> {
    if savings >= 0 {
        "│ ✓ InterLink saves "@ + usd_text(savings as nat, 0) + " vs cheapest competitor                         │\n"@
    } else {
        "│ InterLink costs "@ + usd_text((-savings) as nat, 0) + " more than cheapest competitor                    │\n"@
    }
}

/// "YES" or "NO ".
pub open spec fn yes_no(b: bool) -> Seq<char> {
    if b {
        "YES"@
    } else {
        "NO "@
    }
}

/// The comparison table for a transfer worth `usd_cents`.
pub open spec fn comparison_table(usd_cents: u64) -> Seq<char> {
    let il = interlink_summary(usd_cents);
    let cs = competitor_estimates(usd_cents);
    "\n┌─ InterLink Cost Comparison — Transfer: "@ + usd_text(usd_cents as nat, 0) + " ────────────────────────────┐\n"@ + "│ Bridge       │ Fee        │ Fee (USD)   │ Settlement time          │\n"@ + "│──────────────│────────────│─────────────│──────────────────────────│\n"@
        + interlink_row(il) + competitor_rows(cs) + "│──────────────────────────────────────────────────────────────────────│\n"@
        + savings_line(min_fee(cs) - il.fee_usd_cents) + "│ ✓ Fee win: "@ + yes_no(wins_on_fee(il, cs))
        + "  │ ✓ Speed win: "@ + yes_no(wins_on_speed(il, cs)) + "                              │\n"@ + "└──────────────────────────────────────────────────────────────────────┘\n"@
}

fn interlink_row_text(s: &InterLinkSummary) -> (r: String)
    ensures
        r@ == interlink_row(*s),
{
    let mut out = String::new();
    out.append("│ InterLink ★  │ ");
    let bps = decimal(s.fee_bps as u64);
    let bps = pad_left_string(bps.as_str(), 6);
    out.append(bps.as_str());
    out.append(" bps │ ");
    let fee = usd_string(s.fee_usd_cents, 2);
    let fee = pad_left_string(fee.as_str(), 10);
    out.append(fee.as_str());
    out.append("  │ ");
    let secs = decimal(s.settlement_target_secs);
    let secs = pad_left_string(secs.as_str(), 6);
    out.append(secs.as_str());
    out.append("s target           │\n");
    out
}

fn competitor_row_text(c: &CompetitorEstimate) -> (r: String)
    ensures
        r@ == competitor_row(*c),
{
    let mut out = String::new();
    out.append("│ ");
    let name = pad_right_string(c.name, 13);
    out.append(name.as_str());
    out.append("│ ");
    let bps = decimal(c.fee_bps as u64);
    let bps = pad_left_string(bps.as_str(), 6);
    out.append(bps.as_str());
    out.append(" bps │ ");
    let fee = usd_string(c.fee_usd_cents, 2);
    let fee = pad_left_string(fee.as_str(), 10);
    out.append(fee.as_str());
    out.append("  │ ");
    let lo = decimal(c.settlement_min_secs);
    out.append(lo.as_str());
    out.append("s–");
    let hi = decimal(c.settlement_max_secs);
    out.append(hi.as_str());
    out.append("s                │\n");
    out
}

fn yes_no_text(b: bool) -> (r: &'static str)
    ensures
        r@ == yes_no(b),
{
    if b {
        "YES"
    } else {
        "NO "
    }
}

/// This bridge's fee is at most a two-thousandth of the transfer's value.
pub proof fn lemma_interlink_fee_bound(usd_cents: u64)
    ensures
        interlink_fee_cents(usd_cents) <= usd_cents / 2000,
{
    let bps = tier_bps(tier_of(usd_cents));
    if bps != 0 {
        assert(usd_cents as int * bps as int / 10_000 <= usd_cents / 2000) by (nonlinear_arith)
            requires
                bps <= 5,
        ;
    }
}

/// The closing lines of the table: savings, wins and the bottom border.
pub open spec fn table_trailer(il: InterLinkSummary, cs: Seq<CompetitorEstimate>) -> Seq<char> {
    "│──────────────────────────────────────────────────────────────────────│\n"@ + savings_line(min_fee(cs) - il.fee_usd_cents) + "│ ✓ Fee win: "@
        + yes_no(wins_on_fee(il, cs)) + "  │ ✓ Speed win: "@ + yes_no(wins_on_speed(il, cs)) + "                              │\n"@
        + "└──────────────────────────────────────────────────────────────────────┘\n"@
}

fn trailer_text(comparison: &CostComparison) -> (r: String)
    requires
        min_fee(comparison.competitors@) <= i64::MAX,
        comparison.interlink.fee_usd_cents <= i64::MAX,
    ensures
        r@ == table_trailer(comparison.interlink, comparison.competitors@),
{
    let savings = comparison.savings_vs_cheapest_cents();
    let mut out = String::new();
    out.append("│──────────────────────────────────────────────────────────────────────│\n");
    if savings >= 0 {
        out.append("│ ✓ InterLink saves ");
        let t = usd_string(savings as u64, 0);
        out.append(t.as_str());
        out.append(" vs cheapest competitor                         │\n");
    } else {
        out.append("│ InterLink costs ");
        let t = usd_string((-savings) as u64, 0);
        out.append(t.as_str());
        out.append(" more than cheapest competitor                    │\n");
    }
    out.append("│ ✓ Fee win: ");
    out.append(yes_no_text(comparison.interlink_wins_on_fee()));
    out.append("  │ ✓ Speed win: ");
    out.append(yes_no_text(comparison.interlink_wins_on_speed()));
    out.append("                              │\n");
    out.append("└──────────────────────────────────────────────────────────────────────┘\n");
    out
}

/// The comparison for a transfer worth `usd_cents`, as a text table.
pub fn format_comparison_table(usd_cents: u64) -> (r: String)
    ensures
        r@ == comparison_table(usd_cents),
{
    let comparison = compare(usd_cents);
    let ghost cs = competitor_estimates(usd_cents);
    let mut out = String::new();
    out.append("\n┌─ InterLink Cost Comparison — Transfer: ");
    let amount = usd_string(usd_cents, 0);
    out.append(amount.as_str());
    out.append(" ────────────────────────────┐\n");
    out.append("│ Bridge       │ Fee        │ Fee (USD)   │ Settlement time          │\n");
    out.append("│──────────────│────────────│─────────────│──────────────────────────│\n");
    let row = interlink_row_text(&comparison.interlink);
    out.append(row.as_str());
    let ghost head = out@;
    let n = comparison.competitors.len();
    let mut i: usize = 0;
    while i < n
        invariant
            n == comparison.competitors@.len(),
            i <= n,
            out@ == head + competitor_rows(comparison.competitors@.take(i as int)),
        decreases n - i,
    {
        assert(comparison.competitors@.take(i + 1).drop_last() =~= comparison.competitors@.take(
            i as int,
        ));
        let row = competitor_row_text(&comparison.competitors[i]);
        out.append(row.as_str());
        i = i + 1;
    }
    assert(comparison.competitors@.take(n as int) =~= cs);
    proof {
        lemma_min_fee_is_cheapest(cs);
        assert(min_fee(cs) <= cs[0].fee_usd_cents);
        lemma_interlink_fee_bound(usd_cents);
    }
    let tail = trailer_text(&comparison);
    out.append(tail.as_str());
    out
}

} // verus!
