//! Revenue model of the relayer: protocol fees, MEV capture and LP float
//! yield against the daily operating cost, and the volume at which they
//! break even.
use vstd::prelude::*;
use crate::fee::{FeeTier, tier_bps};
use crate::text::{dec_chars, decimal, usd_text, usd_string, pad_right, pad_right_string};

verus! {

/// Daily operating cost of the relayer in USD cents.
pub const DAILY_OPERATING_COST_CENTS: u64 = 550;

/// Share of swap value captured by arbitrage, in basis points.
pub const MEV_CAPTURE_BPS: u32 = 1;

/// Annual yield on locked collateral, in basis points.
pub const LP_ANNUAL_YIELD_BPS: u32 = 300;

/// Competitor LP yields, in basis points per year.
pub const ACROSS_LP_APY_MIN_BPS: u32 = 300;
pub const ACROSS_LP_APY_MAX_BPS: u32 = 800;
pub const STARGATE_LP_APY_MIN_BPS: u32 = 400;
pub const STARGATE_LP_APY_MAX_BPS: u32 = 1000;

/// Days per year over which yield accrues.
pub const TRADING_DAYS_PER_YEAR: u64 = 365;

/// Upper end of the volume range searched for the breakeven, in cents.
pub const BREAKEVEN_SEARCH_MAX_CENTS: u64 = 10_000_000_000;

/// Precision of the breakeven search, in cents.
pub const BREAKEVEN_PRECISION_CENTS: u64 = 100;

/// Collateral locked on average, in percent of daily volume.
pub const COLLATERAL_PERCENT: u64 = 10;

/// Daily revenue model for one volume.
#[derive(Debug, Clone, PartialEq, Eq, Structural)]
pub struct RevenueBreakdown {
    pub daily_volume_cents: u64,
    pub fee_revenue_cents: u64,
    pub mev_revenue_cents: u64,
    pub lp_yield_revenue_cents: u64,
    pub total_revenue_cents: u64,
    pub operating_cost_cents: u64,
    /// Total revenue less operating cost.
    pub net_cents: i64,
    pub is_breakeven: bool,
    /// Net result in basis points of volume.
    pub margin_bps: i32,
}

/// The lowest daily volume that covers the operating cost.
#[derive(Debug, Clone)]
pub struct BreakevenAnalysis {
    pub breakeven_volume_cents: u64,
    pub tier1_subsidy_breakeven_cents: u64,
    pub annual_revenue_at_breakeven_cents: u64,
    pub revenue_at_breakeven: RevenueBreakdown,
    pub competitor_breakevens: Vec<CompetitorBreakeven>,
}

/// A competitor's breakeven, by its own fee and yield.
#[derive(Debug, Clone)]
pub struct CompetitorBreakeven {
    pub name: &'static str,
    pub fee_bps: u32,
    pub lp_apy_bps: u32,
    pub daily_cost_cents: u64,
    pub breakeven_volume_cents: u64,
}

/// Fee revenue on a day's volume: half of it pays the standard rate, a
/// tenth the institutional rate, the rest nothing.
pub open spec fn fee_revenue(volume: u64) -> int {
    (volume * 50 / 100) * tier_bps(FeeTier::Standard) / 10_000 + (volume * 10 / 100) * tier_bps(
        FeeTier::Institutional,
    ) / 10_000
}

/// MEV revenue: the capture rate on the six tenths of volume that are swaps.
pub open spec fn mev_revenue(volume: u64) -> int {
    (volume * 60 / 100) * MEV_CAPTURE_BPS / 10_000
}

/// One day of the annual yield on locked collateral.
pub open spec fn lp_yield(collateral: u64) -> int {
    collateral * LP_ANNUAL_YIELD_BPS / 10_000 / TRADING_DAYS_PER_YEAR as int
}

/// Total daily revenue.
pub open spec fn total_revenue(volume: u64, collateral: u64) -> int {
    fee_revenue(volume) + mev_revenue(volume) + lp_yield(collateral)
}

/// Daily revenue less the operating cost.
pub open spec fn net_revenue(volume: u64, collateral: u64) -> int {
    total_revenue(volume, collateral) - DAILY_OPERATING_COST_CENTS
}

/// Division rounding toward zero.
pub open spec fn trunc_div(a: int, b: int) -> int {
    if a >= 0 {
        a / b
    } else {
        -((-a) / b)
    }
}

/// Net result in basis points of volume, -100% without volume.
pub open spec fn margin_bps(volume: u64, collateral: u64) -> i32 {
    if volume > 0 {
        trunc_div(net_revenue(volume, collateral) * 10_000, volume as int) as i32
    } else {
        -10_000i32
    }
}

/// The revenue model for a volume and an average locked collateral.
pub open spec fn revenue_breakdown(volume: u64, collateral: u64) -> RevenueBreakdown {
    RevenueBreakdown {
        daily_volume_cents: volume,
        fee_revenue_cents: fee_revenue(volume) as u64,
        mev_revenue_cents: mev_revenue(volume) as u64,
        lp_yield_revenue_cents: lp_yield(collateral) as u64,
        total_revenue_cents: total_revenue(volume, collateral) as u64,
        operating_cost_cents: DAILY_OPERATING_COST_CENTS,
        net_cents: net_revenue(volume, collateral) as i64,
        is_breakeven: net_revenue(volume, collateral) >= 0,
        margin_bps: margin_bps(volume, collateral),
    }
}

/// What the model needs to be computed without overflow.
pub open spec fn revenue_computable(volume: u64, collateral: u64) -> bool {
    &&& volume * 60 <= u64::MAX
    &&& volume > 0 ==> net_revenue(volume, collateral) * 10_000 <= i64::MAX
}

/// Revenue never exceeds twice the volume plus the collateral, and is never
/// negative.
pub proof fn lemma_revenue_bounds(volume: u64, collateral: u64)
    ensures
        0 <= fee_revenue(volume) <= volume,
        0 <= mev_revenue(volume) <= volume,
        0 <= lp_yield(collateral) <= collateral,
        0 <= total_revenue(volume, collateral) <= 2 * volume + collateral,
{
    assert(0 <= (volume * 50 / 100) * 5 / 10_000 + (volume * 10 / 100) * 1 / 10_000 <= volume)
        by (nonlinear_arith);
    assert(0 <= (volume * 60 / 100) * 1 / 10_000 <= volume) by (nonlinear_arith);
    assert(0 <= collateral * 300 / 10_000 / 365 <= collateral) by (nonlinear_arith);
}

/// Estimate a day's revenue for `daily_volume_cents` bridged with
/// `avg_locked_collateral_cents` locked on average.
pub fn estimate_daily_revenue(daily_volume_cents: u64, avg_locked_collateral_cents: u64) -> (r:
    RevenueBreakdown)
    requires
        revenue_computable(daily_volume_cents, avg_locked_collateral_cents),
    ensures
        r == revenue_breakdown(daily_volume_cents, avg_locked_collateral_cents),
{
    let v = daily_volume_cents;
    let c = avg_locked_collateral_cents;
    proof {
        lemma_revenue_bounds(v, c);
    }
    let tier2_volume = v * 50 / 100;
    let tier3_volume = v * 10 / 100;
    let fee_revenue_cents = (tier2_volume as u128 * FeeTier::Standard.bps() as u128 / 10_000
        + tier3_volume as u128 * FeeTier::Institutional.bps() as u128 / 10_000) as u64;
    let swap_volume = v * 60 / 100;
    let mev_revenue_cents = (swap_volume as u128 * MEV_CAPTURE_BPS as u128 / 10_000) as u64;
    let lp_yield_revenue_cents = (c as u128 * LP_ANNUAL_YIELD_BPS as u128 / 10_000
        / TRADING_DAYS_PER_YEAR as u128) as u64;
    let total_revenue_cents = fee_revenue_cents + mev_revenue_cents + lp_yield_revenue_cents;
    let net_cents = total_revenue_cents as i64 - DAILY_OPERATING_COST_CENTS as i64;
    let margin: i32 = if v > 0 {
        let scaled = net_cents * 10_000;
        let vol = v as i64;
        let q: i64 = if scaled >= 0 {
            scaled / vol
        } else {
            -((-scaled) / vol)
        };
        q as i32
    } else {
        -10_000
    };
    RevenueBreakdown {
        daily_volume_cents: v,
        fee_revenue_cents,
        mev_revenue_cents,
        lp_yield_revenue_cents,
        total_revenue_cents,
        operating_cost_cents: DAILY_OPERATING_COST_CENTS,
        net_cents,
        is_breakeven: net_cents >= 0,
        margin_bps: margin,
    }
}

/// Collateral assumed locked for a daily volume.
pub open spec fn collateral_for(volume: u64) -> u64 {
    (volume * COLLATERAL_PERCENT / 100) as u64
}

/// Whether a daily volume (with its assumed collateral) covers the cost.
pub open spec fn breakeven_at(volume: u64) -> bool {
    net_revenue(volume, collateral_for(volume)) >= 0
}

/// Bisection between a volume that loses and one that covers the cost, to
/// within the search precision.
pub open spec fn bisect(lo: u64, hi: u64) -> u64
    decreases hi - lo,
{
    if hi <= lo + BREAKEVEN_PRECISION_CENTS {
        hi
    } else {
        let mid = ((lo + hi) / 2) as u64;
        if breakeven_at(mid) {
            bisect(lo, mid)
        } else {
            bisect(mid, hi)
        }
    }
}

/// The breakeven volume the search finds.
pub open spec fn breakeven_volume() -> u64 {
    bisect(0, BREAKEVEN_SEARCH_MAX_CENTS)
}

/// The competitors' breakevens.
pub open spec fn competitor_breakevens() -> Seq<CompetitorBreakeven> {
    seq![
        CompetitorBreakeven {
            name: "Wormhole",
            fee_bps: 10,
            lp_apy_bps: 0,
            daily_cost_cents: 5_000,
            breakeven_volume_cents: 5_000,
        },
        CompetitorBreakeven {
            name: "Across",
            fee_bps: (ACROSS_LP_APY_MIN_BPS / TRADING_DAYS_PER_YEAR as u32) as u32,
            lp_apy_bps: ACROSS_LP_APY_MIN_BPS,
            daily_cost_cents: 2_000,
            breakeven_volume_cents: 800_000,
        },
        CompetitorBreakeven {
            name: "Stargate v2",
            fee_bps: (STARGATE_LP_APY_MIN_BPS / TRADING_DAYS_PER_YEAR as u32) as u32,
            lp_apy_bps: STARGATE_LP_APY_MIN_BPS,
            daily_cost_cents: 3_000,
            breakeven_volume_cents: 600_000,
        },
    ]
}

fn revenue_at(volume: u64) -> (r: RevenueBreakdown)
    requires
        volume <= BREAKEVEN_SEARCH_MAX_CENTS,
    ensures
        r == revenue_breakdown(volume, collateral_for(volume)),
        r.is_breakeven == breakeven_at(volume),
{
    let collateral = volume * COLLATERAL_PERCENT / 100;
    proof {
        lemma_revenue_bounds(volume, collateral);
    }
    estimate_daily_revenue(volume, collateral)
}

/// Find the lowest daily volume, to within a dollar, whose revenue covers
/// the operating cost, by bisection over $0 to $100M.
pub fn calculate_breakeven() -> (r: BreakevenAnalysis)
    ensures
        r.breakeven_volume_cents == breakeven_volume(),
        breakeven_at(r.breakeven_volume_cents),
        0 < r.breakeven_volume_cents < r.tier1_subsidy_breakeven_cents,
        exists|lo: u64|
            #![trigger breakeven_at(lo)]
            r.breakeven_volume_cents <= lo + BREAKEVEN_PRECISION_CENTS
                && lo < r.breakeven_volume_cents && !breakeven_at(lo),
        r.tier1_subsidy_breakeven_cents == r.breakeven_volume_cents * 150 / 100,
        r.revenue_at_breakeven == revenue_breakdown(
            r.breakeven_volume_cents,
            collateral_for(r.breakeven_volume_cents),
        ),
        r.annual_revenue_at_breakeven_cents == r.revenue_at_breakeven.total_revenue_cents
            * TRADING_DAYS_PER_YEAR,
        r.competitor_breakevens@ == competitor_breakevens(),
{
    let mut lo: u64 = 0;
    let mut hi: u64 = BREAKEVEN_SEARCH_MAX_CENTS;
    assert(breakeven_at(BREAKEVEN_SEARCH_MAX_CENTS));
    assert(!breakeven_at(0));
    while hi - lo > BREAKEVEN_PRECISION_CENTS
        invariant
            lo < hi <= BREAKEVEN_SEARCH_MAX_CENTS,
            bisect(lo, hi) == breakeven_volume(),
            breakeven_at(hi),
            !breakeven_at(lo),
        decreases hi - lo,
    {
        let mid = (lo + hi) / 2;
        let rev = revenue_at(mid);
        if rev.is_breakeven {
            hi = mid;
        } else {
            lo = mid;
        }
    }
    let breakeven_volume_cents = hi;
    let revenue_at_breakeven = revenue_at(breakeven_volume_cents);
    let tier1_subsidy_breakeven_cents = breakeven_volume_cents * 150 / 100;
    proof {
        lemma_revenue_bounds(breakeven_volume_cents, collateral_for(breakeven_volume_cents));
        assert(collateral_for(breakeven_volume_cents) <= breakeven_volume_cents);
        assert(breakeven_volume_cents >= 2);
    }
    let annual = revenue_at_breakeven.total_revenue_cents * TRADING_DAYS_PER_YEAR;
    let competitors = vec![
        CompetitorBreakeven {
            name: "Wormhole",
            fee_bps: 10,
            lp_apy_bps: 0,
            daily_cost_cents: 5_000,
            breakeven_volume_cents: 50 * 100,
        },
        CompetitorBreakeven {
            name: "Across",
            fee_bps: ACROSS_LP_APY_MIN_BPS / TRADING_DAYS_PER_YEAR as u32,
            lp_apy_bps: ACROSS_LP_APY_MIN_BPS,
            daily_cost_cents: 2_000,
            breakeven_volume_cents: 2_000 * 10_000 / 25,
        },
        CompetitorBreakeven {
            name: "Stargate v2",
            fee_bps: STARGATE_LP_APY_MIN_BPS / TRADING_DAYS_PER_YEAR as u32,
            lp_apy_bps: STARGATE_LP_APY_MIN_BPS,
            daily_cost_cents: 3_000,
            breakeven_volume_cents: 3_000 * 10_000 / 50,
        },
    ];
    assert(competitors@ =~= competitor_breakevens());
    BreakevenAnalysis {
        breakeven_volume_cents,
        tier1_subsidy_breakeven_cents,
        annual_revenue_at_breakeven_cents: annual,
        revenue_at_breakeven,
        competitor_breakevens: competitors,
    }
}

/// More locked collateral never lowers the revenue of a day.
pub proof fn law_revenue_grows_with_collateral(volume: u64, less: u64, more: u64)
    requires
        less <= more,
    ensures
        lp_yield(less) <= lp_yield(more),
        total_revenue(volume, less) <= total_revenue(volume, more),
{
    assert(less * 300 / 10_000 / 365 <= more * 300 / 10_000 / 365) by (nonlinear_arith)
        requires
            less <= more,
    ;
}

/// More volume never lowers the revenue of a day.
pub proof fn law_revenue_grows_with_volume(less: u64, more: u64, collateral: u64)
    requires
        less <= more,
    ensures
        total_revenue(less, collateral) <= total_revenue(more, collateral),
{
    assert((less * 50 / 100) * 5 / 10_000 <= (more * 50 / 100) * 5 / 10_000) by (nonlinear_arith)
        requires
            less <= more,
    ;
    assert((less * 10 / 100) * 1 / 10_000 <= (more * 10 / 100) * 1 / 10_000) by (nonlinear_arith)
        requires
            less <= more,
    ;
    assert((less * 60 / 100) * 1 / 10_000 <= (more * 60 / 100) * 1 / 10_000) by (nonlinear_arith)
        requires
            less <= more,
    ;
}

/// Bisection from a losing volume to a covering one ends on a covering one.
pub proof fn lemma_bisect_covers(lo: u64, hi: u64)
    requires
        lo < hi,
        breakeven_at(hi),
        !breakeven_at(lo),
    ensures
        breakeven_at(bisect(lo, hi)),
        lo < bisect(lo, hi) <= hi,
    decreases hi - lo,
{
    if hi > lo + BREAKEVEN_PRECISION_CENTS {
        let mid = ((lo + hi) / 2) as u64;
        if breakeven_at(mid) {
            lemma_bisect_covers(lo, mid);
        } else {
            lemma_bisect_covers(mid, hi);
        }
    }
}

/// Every volume at or above the breakeven the search finds covers the
/// operating cost, with its assumed collateral.
pub proof fn law_volumes_above_breakeven_cover_cost(volume: u64)
    requires
        breakeven_volume() <= volume <= BREAKEVEN_SEARCH_MAX_CENTS,
    ensures
        breakeven_at(volume),
{
    assert(breakeven_at(BREAKEVEN_SEARCH_MAX_CENTS));
    assert(!breakeven_at(0));
    lemma_bisect_covers(0, BREAKEVEN_SEARCH_MAX_CENTS);
    let be = breakeven_volume();
    law_revenue_grows_with_volume(be, volume, collateral_for(be));
    assert(collateral_for(be) <= collateral_for(volume)) by (nonlinear_arith)
        requires
            be <= volume <= BREAKEVEN_SEARCH_MAX_CENTS,
            collateral_for(be) == (be * 10 / 100) as u64,
            collateral_for(volume) == (volume * 10 / 100) as u64,
    ;
    law_revenue_grows_with_collateral(volume, collateral_for(be), collateral_for(volume));
}

/// Covering the cost is monotone in the volume (with its assumed
/// collateral).
proof fn lemma_breakeven_monotone(v: u64, w: u64)
    requires
        v <= w <= BREAKEVEN_SEARCH_MAX_CENTS,
        breakeven_at(v),
    ensures
        breakeven_at(w),
{
    law_revenue_grows_with_volume(v, w, collateral_for(v));
    assert(collateral_for(v) <= collateral_for(w)) by (nonlinear_arith)
        requires
            v <= w <= BREAKEVEN_SEARCH_MAX_CENTS,
            collateral_for(v) == (v * 10 / 100) as u64,
            collateral_for(w) == (w * 10 / 100) as u64,
    ;
    law_revenue_grows_with_collateral(w, collateral_for(v), collateral_for(w));
}

/// Bisection ends within the precision above a volume that does not
/// cover the cost.
proof fn lemma_bisect_gap(lo: u64, hi: u64) -> (l: u64)
    requires
        lo < hi,
        breakeven_at(hi),
        !breakeven_at(lo),
    ensures
        lo <= l < bisect(lo, hi),
        bisect(lo, hi) <= l + BREAKEVEN_PRECISION_CENTS,
        !breakeven_at(l),
    decreases hi - lo,
{
    if hi > lo + BREAKEVEN_PRECISION_CENTS {
        let mid = ((lo + hi) / 2) as u64;
        if breakeven_at(mid) {
            lemma_bisect_gap(lo, mid)
        } else {
            lemma_bisect_gap(mid, hi)
        }
    } else {
        lo
    }
}

/// No volume at least the search precision (a dollar) below the breakeven
/// the search finds covers the operating cost.
pub proof fn law_volumes_below_breakeven_do_not_cover_cost(volume: u64)
    requires
        volume + BREAKEVEN_PRECISION_CENTS <= breakeven_volume(),
    ensures
        !breakeven_at(volume),
{
    assert(breakeven_at(BREAKEVEN_SEARCH_MAX_CENTS));
    assert(!breakeven_at(0));
    lemma_bisect_covers(0, BREAKEVEN_SEARCH_MAX_CENTS);
    let l = lemma_bisect_gap(0, BREAKEVEN_SEARCH_MAX_CENTS);
    if breakeven_at(volume) {
        lemma_breakeven_monotone(volume, l);
    }
}

/// The line of one competitor in the report.
pub open spec fn competitor_line(c: CompetitorBreakeven) -> Seq<char> {
    "│   "@ + pad_right(c.name@, 12) + " "@ + usd_text(c.breakeven_volume_cents as nat, 0)
        + " (fee: "@ + dec_chars(c.fee_bps as nat) + " bps, APY: "@ + dec_chars(c.lp_apy_bps as nat)
        + " bps)         │\n"@
}

/// The lines of all competitors, in order.
pub open spec fn competitor_lines(cs: Seq<CompetitorBreakeven>) -> Seq<char>
    decreases cs.len(),
{
    if cs.len() == 0 {
        Seq::empty()
    } else {
        competitor_lines(cs.drop_last()) + competitor_line(cs.last())
    }
}

/// The opening lines of the report: cost and the two breakevens.
pub open spec fn report_head(breakeven: u64, subsidy: u64) -> Seq<char> {
    "\n┌─ InterLink MEV + LP Fee Breakeven Analysis ─────────────────────────┐\n"@ + "│ Daily operating cost:          "@ + usd_text(DAILY_OPERATING_COST_CENTS as nat, 0) + "                                │\n"@
        + "│ Breakeven daily volume:        "@ + usd_text(breakeven as nat, 0) + "                              │\n"@ + "│ Tier-1 subsidy breakeven:      "@
        + usd_text(subsidy as nat, 0) + "                              │\n"@ + "│                                                                      │\n"@
}

/// The revenue lines of the report.
pub open spec fn report_revenue(r: RevenueBreakdown) -> Seq<char> {
    "│ Revenue breakdown at breakeven:                                      │\n"@ + "│   Protocol fees:    "@ + usd_text(r.fee_revenue_cents as nat, 2) + "                                       │\n"@ + "│   MEV capture:      "@
        + usd_text(r.mev_revenue_cents as nat, 2) + "                                       │\n"@ + "│   LP yield:         "@
        + usd_text(r.lp_yield_revenue_cents as nat, 2) + "                                       │\n"@ + "│                                                                      │\n"@
}

/// The breakeven report.
pub open spec fn breakeven_report() -> Seq<char> {
    let be = breakeven_volume();
    report_head(be, (be * 150 / 100) as u64) + report_revenue(
        revenue_breakdown(be, collateral_for(be)),
    ) + "│ Competitor breakeven volumes:                                        │\n"@ + competitor_lines(competitor_breakevens()) + "└──────────────────────────────────────────────────────────────────────┘\n"@
}

fn report_head_text(breakeven: u64, subsidy: u64) -> (r: String)
    ensures
        r@ == report_head(breakeven, subsidy),
{
    let mut out = String::new();
    out.append("\n┌─ InterLink MEV + LP Fee Breakeven Analysis ─────────────────────────┐\n");
    out.append("│ Daily operating cost:          ");
    let t = usd_string(DAILY_OPERATING_COST_CENTS, 0);
    out.append(t.as_str());
    out.append("                                │\n");
    out.append("│ Breakeven daily volume:        ");
    let t = usd_string(breakeven, 0);
    out.append(t.as_str());
    out.append("                              │\n");
    out.append("│ Tier-1 subsidy breakeven:      ");
    let t = usd_string(subsidy, 0);
    out.append(t.as_str());
    out.append("                              │\n");
    out.append("│                                                                      │\n");
    out
}

fn report_revenue_text(r: &RevenueBreakdown) -> (s: String)
    ensures
        s@ == report_revenue(*r),
{
    let mut out = String::new();
    out.append("│ Revenue breakdown at breakeven:                                      │\n");
    out.append("│   Protocol fees:    ");
    let t = usd_string(r.fee_revenue_cents, 2);
    out.append(t.as_str());
    out.append("                                       │\n");
    out.append("│   MEV capture:      ");
    let t = usd_string(r.mev_revenue_cents, 2);
    out.append(t.as_str());
    out.append("                                       │\n");
    out.append("│   LP yield:         ");
    let t = usd_string(r.lp_yield_revenue_cents, 2);
    out.append(t.as_str());
    out.append("                                       │\n");
    out.append("│                                                                      │\n");
    out
}

fn competitor_line_text(c: &CompetitorBreakeven) -> (r: String)
    ensures
        r@ == competitor_line(*c),
{
    let mut out = String::new();
    out.append("│   ");
    let name = pad_right_string(c.name, 12);
    out.append(name.as_str());
    out.append(" ");
    let t = usd_string(c.breakeven_volume_cents, 0);
    out.append(t.as_str());
    out.append(" (fee: ");
    let t = decimal(c.fee_bps as u64);
    out.append(t.as_str());
    out.append(" bps, APY: ");
    let t = decimal(c.lp_apy_bps as u64);
    out.append(t.as_str());
    out.append(" bps)         │\n");
    out
}

/// A human-readable breakeven summary.
pub fn format_breakeven_report() -> (r: String)
    ensures
        r@ == breakeven_report(),
{
    let analysis = calculate_breakeven();
    let mut out = report_head_text(
        analysis.breakeven_volume_cents,
        analysis.tier1_subsidy_breakeven_cents,
    );
    let t = report_revenue_text(&analysis.revenue_at_breakeven);
    out.append(t.as_str());
    out.append("│ Competitor breakeven volumes:                                        │\n");
    let ghost head = out@;
    let n = analysis.competitor_breakevens.len();
    let mut i: usize = 0;
    while i < n
        invariant
            n == analysis.competitor_breakevens@.len(),
            i <= n,
            out@ == head + competitor_lines(analysis.competitor_breakevens@.take(i as int)),
        decreases n - i,
    {
        assert(analysis.competitor_breakevens@.take(i + 1).drop_last()
            =~= analysis.competitor_breakevens@.take(i as int));
        let t = competitor_line_text(&analysis.competitor_breakevens[i]);
        out.append(t.as_str());
        i = i + 1;
    }
    assert(analysis.competitor_breakevens@.take(n as int) =~= competitor_breakevens());
    out.append("└──────────────────────────────────────────────────────────────────────┘\n");
    out
}

} // verus!
