//! Liquidity mining: epoch rewards for liquidity providers, weighted by
//! liquidity and boosts, paid a quarter at once and the rest vesting linearly.
use vstd::prelude::*;
use vstd::string::StringExecFns;
use crate::text::{dec_chars, decimal_u128, prefixed_decimal};
use crate::keyed::{has_key, keyed_map, lemma_keyed_at, lemma_keyed_empty, lemma_keyed_len, lemma_keyed_push, lemma_keyed_update, unique_keys};

verus! {

/// Total reward budget in tokens.
pub const TOTAL_REWARD_BUDGET: u64 = 10_000_000;
/// Number of epochs in the program.
pub const TOTAL_EPOCHS: u32 = 26;
/// Epoch length in seconds.
pub const EPOCH_DURATION_SECS: u64 = 604_800;
/// Epochs with the early-bird boost.
pub const EARLY_BIRD_EPOCHS: u32 = 4;
/// Early-bird boost in basis points.
pub const EARLY_BIRD_BOOST_BPS: u32 = 20_000;
/// Consecutive epochs after which the loyalty boost applies.
pub const LOYALTY_THRESHOLD_EPOCHS: u32 = 4;
/// Loyalty boost in basis points.
pub const LOYALTY_BOOST_BPS: u32 = 15_000;
/// Minimum time liquidity must have been deposited to earn, in seconds.
pub const MIN_DEPOSIT_DURATION_SECS: u64 = 86_400;
/// Share of a reward released at once, in basis points.
pub const IMMEDIATE_VEST_BPS: u32 = 2_500;
/// Linear vesting period of the rest, in seconds.
pub const LINEAR_VEST_DURATION_SECS: u64 = 7_776_000;
const BPS: u64 = 10_000;

/// A vesting tranche.
#[derive(Debug, Clone, Copy, PartialEq, Eq, Structural)]
pub struct VestingSchedule {
    pub total: u64,
    pub claimed: u64,
    pub start_timestamp: u64,
    pub end_timestamp: u64,
}

/// `a - b`, or 0 when `b > a`.
pub open spec fn sat_sub(a: u64, b: u64) -> u64 {
    if a >= b {
        (a - b) as u64
    } else {
        0
    }
}

/// Amount of a tranche that can be claimed at `now`: everything unclaimed
/// after the end, nothing up to the start, in between the linearly vested
/// part less what was claimed.
pub open spec fn claimable_spec(s: VestingSchedule, now: u64) -> u64 {
    if now >= s.end_timestamp {
        sat_sub(s.total, s.claimed)
    } else if now <= s.start_timestamp {
        0
    } else {
        sat_sub(
            ((s.total * (now - s.start_timestamp) as int) / ((s.end_timestamp - s.start_timestamp) as int)) as u64,
            s.claimed,
        )
    }
}

impl VestingSchedule {
    /// Amount that can be claimed at `now`.
    pub fn claimable_at(&self, now: u64) -> (r: u64)
        ensures
            r == claimable_spec(*self, now),
    {
        if now >= self.end_timestamp {
            self.total.saturating_sub(self.claimed)
        } else if now <= self.start_timestamp {
            0
        } else {
            let elapsed = now - self.start_timestamp;
            let duration = self.end_timestamp - self.start_timestamp;
            assert(self.total as u128 * elapsed as u128 <= u64::MAX as u128 * u64::MAX as u128) by (nonlinear_arith);
            let vested = (self.total as u128 * elapsed as u128 / duration as u128) as u64;
            vested.saturating_sub(self.claimed)
        }
    }
}

/// A liquidity provider's position.
#[derive(Debug, Clone)]
pub struct LpPosition {
    pub lp_id: String,
    pub liquidity: u128,
    pub deposit_timestamp: u64,
    pub consecutive_epochs: u32,
    pub total_rewards_earned: u64,
    pub rewards_released: u64,
    pub rewards_vesting: Vec<VestingSchedule>,
}

/// The reward of one provider in one epoch.
#[derive(Debug, Clone)]
pub struct LpReward {
    pub lp_id: String,
    pub base_reward: u64,
    pub boost_multiplier_bps: u32,
    pub final_reward: u64,
    pub immediate_release: u64,
    pub vesting_amount: u64,
}

/// Outcome of one epoch's distribution.
#[derive(Debug, Clone)]
pub struct EpochRewardSummary {
    pub epoch: u32,
    pub total_distributed: u64,
    pub eligible_lps: usize,
    pub total_liquidity: u128,
    pub boost_active: bool,
    pub per_lp: Vec<LpReward>,
}

/// Mining program errors.
#[derive(Debug, PartialEq, Eq, Clone, Copy, Structural)]
pub enum MiningError {
    LpNotFound,
    InsufficientLiquidity,
    ProgramEnded,
}

/// Budget of an epoch: the early-bird epochs weigh two, the others one,
/// out of a total weight of 30.
pub open spec fn epoch_budget(e: int) -> u64 {
    if e < EARLY_BIRD_EPOCHS {
        (TOTAL_REWARD_BUDGET * 2 / 30) as u64
    } else {
        (TOTAL_REWARD_BUDGET * 1 / 30) as u64
    }
}

/// Sum of the budgets of the first `n` epochs.
pub open spec fn budget_prefix(n: int) -> int
    decreases n,
{
    if n <= 0 {
        0
    } else {
        budget_prefix(n - 1) + epoch_budget(n - 1)
    }
}

/// The budgets of all epochs.
pub fn compute_epoch_budgets() -> (r: Vec<u64>)
    ensures
        r@.len() == TOTAL_EPOCHS,
        forall|e: int| 0 <= e < TOTAL_EPOCHS ==> #[trigger] r@[e] == epoch_budget(e),
{
    let early_weight: u64 = EARLY_BIRD_EPOCHS as u64 * 2;
    let late_weight: u64 = (TOTAL_EPOCHS - EARLY_BIRD_EPOCHS) as u64;
    let total_weight = early_weight + late_weight;
    let mut budgets: Vec<u64> = Vec::new();
    let mut e: u32 = 0;
    while e < TOTAL_EPOCHS
        invariant
            e <= TOTAL_EPOCHS,
            total_weight == 30,
            budgets@.len() == e,
            forall|k: int| 0 <= k < e ==> #[trigger] budgets@[k] == epoch_budget(k),
        decreases TOTAL_EPOCHS - e,
    {
        let weight: u64 = if e < EARLY_BIRD_EPOCHS {
            2
        } else {
            1
        };
        let budget = TOTAL_REWARD_BUDGET as u128 * weight as u128 / total_weight as u128;
        budgets.push(budget as u64);
        e = e + 1;
    }
    budgets
}

/// Boost of a provider in basis points: doubled in the early-bird epochs,
/// then times 1.5 after enough consecutive epochs.
pub open spec fn boost_spec(epoch: u32, consecutive: u32) -> u32 {
    let early: u32 = if epoch < EARLY_BIRD_EPOCHS {
        EARLY_BIRD_BOOST_BPS
    } else {
        10_000
    };
    if consecutive >= LOYALTY_THRESHOLD_EPOCHS {
        (early * LOYALTY_BOOST_BPS / 10_000int) as u32
    } else {
        early
    }
}

/// Boost of a provider in basis points.
pub fn compute_boost_bps(epoch: u32, consecutive_epochs: u32) -> (r: u32)
    ensures
        r == boost_spec(epoch, consecutive_epochs),
        10_000 <= r <= 30_000,
{
    let mut boost = BPS as u32;
    if epoch < EARLY_BIRD_EPOCHS {
        boost = boost * EARLY_BIRD_BOOST_BPS / (BPS as u32);
    }
    if consecutive_epochs >= LOYALTY_THRESHOLD_EPOCHS {
        boost = boost * LOYALTY_BOOST_BPS / (BPS as u32);
    }
    boost
}

pub open spec fn lp_key() -> spec_fn(LpPosition) -> Seq<char> {
    |p: LpPosition| p.lp_id@
}

/// Unclaimed vesting amounts of a list of tranches.
pub open spec fn unvested(v: Seq<VestingSchedule>) -> int
    decreases v.len(),
{
    if v.len() == 0 {
        0
    } else {
        unvested(v.drop_last()) + (v.last().total - v.last().claimed)
    }
}

/// A tranche is consistent: no more claimed than granted, ending after it starts.
pub open spec fn tranche_ok(s: VestingSchedule) -> bool {
    s.claimed <= s.total && s.start_timestamp < s.end_timestamp
}

/// Rewards of a position are accounted for: what was released plus what is
/// still vesting is what was earned, and nothing was released twice.
pub open spec fn position_ok(p: LpPosition, epoch: u32, distributed: u64) -> bool {
    &&& p.consecutive_epochs <= epoch
    &&& p.total_rewards_earned <= distributed
    &&& forall|k: int| 0 <= k < p.rewards_vesting@.len() ==> tranche_ok(#[trigger] p.rewards_vesting@[k])
    &&& p.rewards_released + unvested(p.rewards_vesting@) == p.total_rewards_earned
}

/// Tranches after claiming everything claimable at `now`.
pub open spec fn claim_all(v: Seq<VestingSchedule>, now: u64) -> Seq<VestingSchedule> {
    v.map_values(|t: VestingSchedule| VestingSchedule { claimed: (t.claimed + claimable_spec(t, now)) as u64, ..t })
}

/// Total claimable at `now` over a list of tranches.
pub open spec fn claimable_total(v: Seq<VestingSchedule>, now: u64) -> int
    decreases v.len(),
{
    if v.len() == 0 {
        0
    } else {
        claimable_total(v.drop_last(), now) + claimable_spec(v.last(), now)
    }
}

proof fn lemma_claimable_le(t: VestingSchedule, now: u64)
    requires
        tranche_ok(t),
    ensures
        claimable_spec(t, now) <= t.total - t.claimed,
{
    if now < t.end_timestamp && now > t.start_timestamp {
        let e = (now - t.start_timestamp) as int;
        let d = (t.end_timestamp - t.start_timestamp) as int;
        assert(t.total * e / d <= t.total) by (nonlinear_arith)
            requires
                0 < e < d,
                t.total >= 0,
        {
            assert(t.total * e <= t.total * d);
            vstd::arithmetic::div_mod::lemma_div_is_ordered(t.total * e, t.total * d, d);
            vstd::arithmetic::div_mod::lemma_div_by_multiple(t.total as int, d);
        }
    }
}

proof fn lemma_claim_all(v: Seq<VestingSchedule>, now: u64)
    requires
        forall|k: int| 0 <= k < v.len() ==> tranche_ok(#[trigger] v[k]),
    ensures
        claim_all(v, now).len() == v.len(),
        forall|k: int| 0 <= k < v.len() ==> tranche_ok(#[trigger] claim_all(v, now)[k]),
        unvested(claim_all(v, now)) + claimable_total(v, now) == unvested(v),
        0 <= claimable_total(v, now) <= unvested(v),
    decreases v.len(),
{
    assert forall|k: int| 0 <= k < v.len() implies tranche_ok(#[trigger] claim_all(v, now)[k]) by {
        lemma_claimable_le(v[k], now);
    }
    if v.len() > 0 {
        let p = v.drop_last();
        assert forall|k: int| 0 <= k < p.len() implies tranche_ok(#[trigger] p[k]) by {
            assert(p[k] == v[k]);
        }
        lemma_claim_all(p, now);
        assert(claim_all(v, now).drop_last() =~= claim_all(p, now));
        lemma_claimable_le(v.last(), now);
        assert(claim_all(v, now).last() == claim_all(v, now)[v.len() - 1]);
    }
}

proof fn lemma_claimable_prefix(v: Seq<VestingSchedule>, now: u64, m: int)
    requires
        0 <= m <= v.len(),
    ensures
        claimable_total(v.take(m), now) <= claimable_total(v, now),
    decreases v.len() - m,
{
    if m < v.len() {
        lemma_claimable_prefix(v, now, m + 1);
        assert(v.take(m + 1).drop_last() =~= v.take(m));
    } else {
        assert(v.take(m) =~= v);
    }
}

/// Unvested amount after appending a tranche.
proof fn lemma_unvested_push(v: Seq<VestingSchedule>, t: VestingSchedule)
    ensures
        unvested(v.push(t)) == unvested(v) + (t.total - t.claimed),
{
    assert(v.push(t).drop_last() =~= v);
}

proof fn lemma_unvested_nonneg(v: Seq<VestingSchedule>)
    requires
        forall|k: int| 0 <= k < v.len() ==> tranche_ok(#[trigger] v[k]),
    ensures
        unvested(v) >= 0,
    decreases v.len(),
{
    if v.len() > 0 {
        let p = v.drop_last();
        assert forall|k: int| 0 <= k < p.len() implies tranche_ok(#[trigger] p[k]) by {
            assert(p[k] == v[k]);
        }
        lemma_unvested_nonneg(p);
        assert(tranche_ok(v[v.len() - 1]));
    }
}

proof fn lemma_budget_prefix(n: int)
    requires
        0 <= n <= TOTAL_EPOCHS,
    ensures
        n <= EARLY_BIRD_EPOCHS ==> budget_prefix(n) == 666_666 * n,
        n > EARLY_BIRD_EPOCHS ==> budget_prefix(n) == 2_666_664 + 333_333 * (n - 4),
        budget_prefix(n) <= TOTAL_REWARD_BUDGET,
    decreases n,
{
    if n > 0 {
        lemma_budget_prefix(n - 1);
    }
}

/// A provider earns in an epoch if it holds liquidity deposited at least a day ago.
pub open spec fn eligible(p: LpPosition, now: u64) -> bool {
    p.liquidity > 0 && sat_sub(now, p.deposit_timestamp) >= MIN_DEPOSIT_DURATION_SECS
}

/// Boosted liquidity of a provider.
pub open spec fn weight(epoch: u32, p: LpPosition) -> int {
    p.liquidity * boost_spec(epoch, p.consecutive_epochs) / 10_000
}

/// Total boosted liquidity of the eligible providers of `s`.
pub open spec fn eligible_weight(epoch: u32, s: Seq<LpPosition>, now: u64) -> int
    decreases s.len(),
{
    if s.len() == 0 {
        0
    } else {
        eligible_weight(epoch, s.drop_last(), now) + if eligible(s.last(), now) {
            weight(epoch, s.last())
        } else {
            0
        }
    }
}

/// Total liquidity of the eligible providers of `s`.
pub open spec fn eligible_liquidity(s: Seq<LpPosition>, now: u64) -> int
    decreases s.len(),
{
    if s.len() == 0 {
        0
    } else {
        eligible_liquidity(s.drop_last(), now) + if eligible(s.last(), now) {
            s.last().liquidity as int
        } else {
            0
        }
    }
}

/// Reward of a provider of boosted liquidity `w` out of `total`.
pub open spec fn final_reward_spec(budget: u64, w: int, total: int) -> u64 {
    if total > 0 {
        (budget * w / total) as u64
    } else {
        0
    }
}

/// Reward the provider would have had without boost.
pub open spec fn base_reward_spec(budget: u64, liquidity: int, total: int) -> u64 {
    if total > 0 {
        (budget * liquidity / total) as u64
    } else {
        0
    }
}

/// Part of a reward released at once.
pub open spec fn immediate_spec(reward: u64) -> u64 {
    (reward * IMMEDIATE_VEST_BPS / 10_000int) as u64
}

/// Reward of a provider in this epoch, given the epoch's budget and total weight.
pub open spec fn reward_of(epoch: u32, p: LpPosition, budget: u64, total: int) -> u64 {
    final_reward_spec(budget, weight(epoch, p), total)
}

/// Sum of the rewards of the eligible providers of `s`.
pub open spec fn eligible_rewards(epoch: u32, s: Seq<LpPosition>, now: u64, budget: u64, total: int) -> int
    decreases s.len(),
{
    if s.len() == 0 {
        0
    } else {
        eligible_rewards(epoch, s.drop_last(), now, budget, total) + if eligible(s.last(), now) {
            reward_of(epoch, s.last(), budget, total) as int
        } else {
            0
        }
    }
}

/// `r` is the reward line of provider `p`.
pub open spec fn reward_line(r: LpReward, epoch: u32, p: LpPosition, budget: u64, total: int) -> bool {
    let f = reward_of(epoch, p, budget, total);
    &&& r.lp_id@ == p.lp_id@
    &&& r.base_reward == base_reward_spec(budget, p.liquidity as int, total)
    &&& r.boost_multiplier_bps == boost_spec(epoch, p.consecutive_epochs)
    &&& r.final_reward == f
    &&& r.immediate_release == immediate_spec(f)
    &&& r.vesting_amount == f - immediate_spec(f)
}

/// `q` is position `p` after being paid `f` at `now`: a quarter released, the
/// rest vesting over 90 days, one more consecutive epoch.
pub open spec fn paid(p: LpPosition, q: LpPosition, f: u64, now: u64) -> bool {
    let imm = immediate_spec(f);
    let vest = (f - imm) as u64;
    &&& q.lp_id == p.lp_id
    &&& q.liquidity == p.liquidity
    &&& q.deposit_timestamp == p.deposit_timestamp
    &&& q.consecutive_epochs == p.consecutive_epochs + 1
    &&& q.total_rewards_earned == p.total_rewards_earned + f
    &&& q.rewards_released == p.rewards_released + imm
    &&& q.rewards_vesting@ == if vest > 0 {
        p.rewards_vesting@.push(
            VestingSchedule {
                total: vest,
                claimed: 0,
                start_timestamp: now,
                end_timestamp: (now + LINEAR_VEST_DURATION_SECS) as u64,
            },
        )
    } else {
        p.rewards_vesting@
    }
}

/// No amount computed while distributing an epoch exceeds its type.
pub open spec fn distribution_fits(epoch: u32, s: Seq<LpPosition>, now: u64, start: u64) -> bool {
    let budget = epoch_budget(epoch as int);
    let total = eligible_weight(epoch, s, now);
    &&& start + epoch * EPOCH_DURATION_SECS <= u64::MAX
    &&& total <= u128::MAX
    &&& forall|k: int|
        0 <= k < s.len() && eligible(#[trigger] s[k], now) ==> {
            &&& s[k].liquidity * boost_spec(epoch, s[k].consecutive_epochs) <= u128::MAX
            &&& budget * weight(epoch, s[k]) <= u128::MAX
            &&& reward_of(epoch, s[k], budget, total) - immediate_spec(reward_of(epoch, s[k], budget, total)) > 0
                ==> now + LINEAR_VEST_DURATION_SECS <= u64::MAX
        }
}

proof fn lemma_weight_ge_liquidity(epoch: u32, p: LpPosition)
    ensures
        weight(epoch, p) >= p.liquidity,
{
    let b = boost_spec(epoch, p.consecutive_epochs);
    assert(b >= 10_000);
    assert(p.liquidity * b >= p.liquidity * 10_000) by (nonlinear_arith)
        requires
            b >= 10_000,
    ;
    vstd::arithmetic::div_mod::lemma_div_is_ordered(p.liquidity * 10_000, p.liquidity * b, 10_000);
    vstd::arithmetic::div_mod::lemma_div_by_multiple(p.liquidity as int, 10_000);
}

proof fn lemma_eligible_sums(epoch: u32, s: Seq<LpPosition>, now: u64, m: int)
    requires
        0 <= m <= s.len(),
    ensures
        0 <= eligible_liquidity(s.take(m), now) <= eligible_weight(epoch, s.take(m), now),
        eligible_weight(epoch, s.take(m), now) <= eligible_weight(epoch, s, now),
        forall|k: int| 0 <= k < m && eligible(#[trigger] s[k], now) ==> weight(epoch, s[k]) <= eligible_weight(epoch, s.take(m), now),
    decreases s.len() - m,
{
    lemma_liquidity_le_weight(epoch, s, now, m);
    if m < s.len() {
        lemma_eligible_sums(epoch, s, now, m + 1);
        let t = s.take(m + 1);
        assert(t.drop_last() =~= s.take(m));
        lemma_weight_ge_liquidity(epoch, s[m]);
        assert(weight(epoch, s[m]) >= 0);
        assert forall|k: int| 0 <= k < m && eligible(#[trigger] s[k], now) implies weight(epoch, s[k]) <= eligible_weight(epoch, s.take(m), now) by {
            lemma_eligible_sums_prefix(epoch, s, now, m, k);
        }
    } else {
        assert(s.take(m) =~= s);
        assert forall|k: int| 0 <= k < m && eligible(#[trigger] s[k], now) implies weight(epoch, s[k]) <= eligible_weight(epoch, s.take(m), now) by {
            lemma_eligible_sums_prefix(epoch, s, now, m, k);
        }
        lemma_liquidity_le_weight(epoch, s, now, m);
    }
}

proof fn lemma_liquidity_le_weight(epoch: u32, s: Seq<LpPosition>, now: u64, m: int)
    requires
        0 <= m <= s.len(),
    ensures
        0 <= eligible_liquidity(s.take(m), now) <= eligible_weight(epoch, s.take(m), now),
    decreases m,
{
    if m > 0 {
        lemma_liquidity_le_weight(epoch, s, now, m - 1);
        assert(s.take(m).drop_last() =~= s.take(m - 1));
        lemma_weight_ge_liquidity(epoch, s[m - 1]);
    }
}

proof fn lemma_eligible_sums_prefix(epoch: u32, s: Seq<LpPosition>, now: u64, m: int, k: int)
    requires
        0 <= k < m <= s.len(),
        eligible(s[k], now),
    ensures
        weight(epoch, s[k]) <= eligible_weight(epoch, s.take(m), now),
    decreases m,
{
    assert(s.take(m).drop_last() =~= s.take(m - 1));
    lemma_weight_nonneg_sum(epoch, s, now, m - 1);
    lemma_weight_ge_liquidity(epoch, s[m - 1]);
    if k < m - 1 {
        lemma_eligible_sums_prefix(epoch, s, now, m - 1, k);
    }
}

proof fn lemma_weight_nonneg_sum(epoch: u32, s: Seq<LpPosition>, now: u64, m: int)
    requires
        0 <= m <= s.len(),
    ensures
        eligible_weight(epoch, s.take(m), now) >= 0,
    decreases m,
{
    if m > 0 {
        lemma_weight_nonneg_sum(epoch, s, now, m - 1);
        assert(s.take(m).drop_last() =~= s.take(m - 1));
        lemma_weight_ge_liquidity(epoch, s[m - 1]);
    }
}

/// `floor(b * w / t) <= b` when `w <= t`.
proof fn lemma_share_le(b: int, w: int, t: int)
    requires
        0 <= b,
        0 <= w <= t,
        0 < t,
    ensures
        b * w / t <= b,
        0 <= b * w / t,
        (b * w / t) * t <= b * w,
{
    assert(b * w <= b * t) by (nonlinear_arith)
        requires
            0 <= b,
            w <= t,
    ;
    vstd::arithmetic::div_mod::lemma_div_is_ordered(b * w, b * t, t);
    vstd::arithmetic::div_mod::lemma_div_by_multiple(b, t);
    assert(0 <= b * w) by (nonlinear_arith)
        requires
            0 <= b,
            0 <= w,
    ;
    vstd::arithmetic::div_mod::lemma_div_pos_is_pos(b * w, t);
    vstd::arithmetic::div_mod::lemma_fundamental_div_mod(b * w, t);
    vstd::arithmetic::div_mod::lemma_mod_pos_bound(b * w, t);
}

/// The eligible providers of `s`, in order.
pub open spec fn eligible_seq(s: Seq<LpPosition>, now: u64) -> Seq<LpPosition> {
    s.filter(|p: LpPosition| eligible(p, now))
}

proof fn lemma_take_step(epoch: u32, s: Seq<LpPosition>, now: u64, budget: u64, total: int, i: int)
    requires
        0 <= i < s.len(),
    ensures
        eligible_seq(s.take(i + 1), now) == (if eligible(s[i], now) {
            eligible_seq(s.take(i), now).push(s[i])
        } else {
            eligible_seq(s.take(i), now)
        }),
        eligible_weight(epoch, s.take(i + 1), now) == eligible_weight(epoch, s.take(i), now) + if eligible(s[i], now) {
            weight(epoch, s[i])
        } else {
            0
        },
        eligible_liquidity(s.take(i + 1), now) == eligible_liquidity(s.take(i), now) + if eligible(s[i], now) {
            s[i].liquidity as int
        } else {
            0
        },
        eligible_rewards(epoch, s.take(i + 1), now, budget, total) == eligible_rewards(epoch, s.take(i), now, budget, total)
            + if eligible(s[i], now) {
            reward_of(epoch, s[i], budget, total) as int
        } else {
            0
        },
{
    reveal_with_fuel(Seq::filter, 1);
    assert(s.take(i + 1).drop_last() =~= s.take(i));
    assert(s.take(i + 1).last() == s[i]);
}

/// The sum of the final rewards on a list of reward lines.
pub open spec fn lines_total(lines: Seq<LpReward>) -> int
    decreases lines.len(),
{
    if lines.len() == 0 {
        0
    } else {
        lines_total(lines.drop_last()) + lines.last().final_reward
    }
}

/// An epoch's distributed total is the sum of the final rewards on its
/// reward lines: when the lines are those of the eligible providers, in
/// order, their final rewards add up to the eligible rewards.
pub proof fn law_total_is_sum_of_lines(
    epoch: u32,
    s: Seq<LpPosition>,
    now: u64,
    budget: u64,
    total: int,
    lines: Seq<LpReward>,
)
    requires
        lines.len() == eligible_seq(s, now).len(),
        forall|k: int|
            0 <= k < lines.len() ==> reward_line(#[trigger] lines[k], epoch, eligible_seq(s, now)[k], budget, total),
    ensures
        lines_total(lines) == eligible_rewards(epoch, s, now, budget, total),
    decreases s.len(),
{
    if s.len() == 0 {
        reveal_with_fuel(Seq::filter, 1);
        assert(eligible_seq(s, now).len() == 0);
    } else {
        let n = s.len() as int;
        lemma_take_step(epoch, s, now, budget, total, n - 1);
        assert(s.take(n) =~= s);
        assert(s.take(n - 1) =~= s.drop_last());
        let el0 = eligible_seq(s.drop_last(), now);
        if eligible(s[n - 1], now) {
            let l0 = lines.drop_last();
            assert forall|k: int| 0 <= k < l0.len() implies reward_line(
                #[trigger] l0[k],
                epoch,
                el0[k],
                budget,
                total,
            ) by {
                assert(l0[k] == lines[k]);
                assert(eligible_seq(s, now)[k] == el0[k]);
            }
            law_total_is_sum_of_lines(epoch, s.drop_last(), now, budget, total, l0);
            assert(reward_line(lines[lines.len() - 1], epoch, eligible_seq(s, now)[lines.len() - 1], budget, total));
        } else {
            law_total_is_sum_of_lines(epoch, s.drop_last(), now, budget, total, lines);
        }
    }
}

proof fn lemma_paid_ok(p: LpPosition, q: LpPosition, f: u64, now: u64, e: u32, d0: u64, d1: u64)
    requires
        e < TOTAL_EPOCHS,
        position_ok(p, e, d0),
        paid(p, q, f, now),
        q.total_rewards_earned <= d1,
        f - immediate_spec(f) > 0 ==> now + LINEAR_VEST_DURATION_SECS <= u64::MAX,
        immediate_spec(f) <= f,
    ensures
        position_ok(q, (e + 1) as u32, d1),
{
    let imm = immediate_spec(f);
    let vest = (f - imm) as u64;
    if vest > 0 {
        let t = VestingSchedule {
            total: vest,
            claimed: 0,
            start_timestamp: now,
            end_timestamp: (now + LINEAR_VEST_DURATION_SECS) as u64,
        };
        lemma_unvested_push(p.rewards_vesting@, t);
        assert forall|k: int| 0 <= k < q.rewards_vesting@.len() implies tranche_ok(#[trigger] q.rewards_vesting@[k]) by {
            if k < p.rewards_vesting@.len() {
                assert(q.rewards_vesting@[k] == p.rewards_vesting@[k]);
            }
        }
    }
}

/// Total liquidity of all positions of `s`.
pub open spec fn total_liquidity(s: Seq<LpPosition>) -> int
    decreases s.len(),
{
    if s.len() == 0 {
        0
    } else {
        total_liquidity(s.drop_last()) + s.last().liquidity
    }
}

proof fn lemma_total_liquidity_prefix(s: Seq<LpPosition>, m: int)
    requires
        0 <= m <= s.len(),
    ensures
        0 <= total_liquidity(s.take(m)) <= total_liquidity(s),
    decreases s.len() - m,
{
    lemma_total_liquidity_nonneg(s.take(m));
    if m < s.len() {
        lemma_total_liquidity_prefix(s, m + 1);
        assert(s.take(m + 1).drop_last() =~= s.take(m));
    } else {
        assert(s.take(m) =~= s);
    }
}

proof fn lemma_total_liquidity_nonneg(s: Seq<LpPosition>)
    ensures
        total_liquidity(s) >= 0,
    decreases s.len(),
{
    if s.len() > 0 {
        lemma_total_liquidity_nonneg(s.drop_last());
    }
}

/// The mining program.
pub struct LiquidityMiningProgram {
    positions: Vec<LpPosition>,
    current_epoch: u32,
    program_start: u64,
    total_distributed: u64,
    epoch_budgets: Vec<u64>,
}

fn find_position(s: &Vec<LpPosition>, id: &String) -> (r: Option<usize>)
    ensures
        match r {
            Some(i) => i < s@.len() && s@[i as int].lp_id@ == id@,
            None => !has_key(s@, lp_key(), id@),
        },
{
    let mut i: usize = 0;
    while i < s.len()
        invariant
            0 <= i <= s@.len(),
            forall|k: int| 0 <= k < i ==> (#[trigger] s@[k]).lp_id@ != id@,
        decreases s@.len() - i,
    {
        if s[i].lp_id == *id {
            return Some(i);
        }
        i = i + 1;
    }
    None
}

fn is_eligible(p: &LpPosition, now: u64) -> (r: bool)
    ensures
        r == eligible(*p, now),
{
    p.liquidity > 0 && now.saturating_sub(p.deposit_timestamp) >= MIN_DEPOSIT_DURATION_SECS
}

fn weight_of(epoch: u32, p: &LpPosition) -> (r: u128)
    requires
        p.liquidity * boost_spec(epoch, p.consecutive_epochs) <= u128::MAX,
    ensures
        r == weight(epoch, *p),
{
    let boost = compute_boost_bps(epoch, p.consecutive_epochs);
    p.liquidity * boost as u128 / (BPS as u128)
}

/// The reward line of an eligible provider.
fn reward_line_for(budget: u64, epoch: u32, p: &LpPosition, total: u128) -> (r: LpReward)
    requires
        p.liquidity * boost_spec(epoch, p.consecutive_epochs) <= u128::MAX,
        budget * weight(epoch, *p) <= u128::MAX,
        weight(epoch, *p) <= total,
    ensures
        reward_line(r, epoch, *p, budget, total as int),
        r.final_reward <= budget,
        total > 0 ==> r.final_reward * total <= budget * weight(epoch, *p),
        immediate_spec(r.final_reward) <= r.final_reward,
{
    let boost = compute_boost_bps(epoch, p.consecutive_epochs);
    let weighted = weight_of(epoch, p);
    proof {
        lemma_weight_ge_liquidity(epoch, *p);
        assert(budget * p.liquidity <= budget * weight(epoch, *p)) by (nonlinear_arith)
            requires
                p.liquidity <= weight(epoch, *p),
        ;
        if total > 0 {
            lemma_share_le(budget as int, weight(epoch, *p), total as int);
            lemma_share_le(budget as int, p.liquidity as int, total as int);
        }
    }
    let base_reward = if total > 0 {
        (budget as u128 * p.liquidity / total) as u64
    } else {
        0
    };
    let final_reward = if total > 0 {
        (budget as u128 * weighted / total) as u64
    } else {
        0
    };
    let immediate = (final_reward as u128 * IMMEDIATE_VEST_BPS as u128 / BPS as u128) as u64;
    proof {
        assert(final_reward * 2_500 / 10_000int <= final_reward) by (nonlinear_arith)
            requires
                final_reward >= 0,
        {
            vstd::arithmetic::div_mod::lemma_div_is_ordered(final_reward * 2_500, final_reward * 10_000, 10_000);
            vstd::arithmetic::div_mod::lemma_div_by_multiple(final_reward as int, 10_000);
        }
    }
    let vesting_amount = final_reward.saturating_sub(immediate);
    LpReward {
        lp_id: p.lp_id.clone(),
        base_reward,
        boost_multiplier_bps: boost,
        final_reward,
        immediate_release: immediate,
        vesting_amount,
    }
}

impl LiquidityMiningProgram {
    /// Positions in the order in which providers first deposited.
    pub closed spec fn position_seq(&self) -> Seq<LpPosition> {
        self.positions@
    }

    /// Positions by provider.
    pub open spec fn position_map(&self) -> Map<Seq<char>, LpPosition> {
        keyed_map(self.position_seq(), lp_key())
    }

    pub closed spec fn epoch(&self) -> u32 {
        self.current_epoch
    }

    pub closed spec fn start(&self) -> u64 {
        self.program_start
    }

    pub closed spec fn distributed(&self) -> u64 {
        self.total_distributed
    }

    /// The program's invariant: one position per provider, the epoch within
    /// the program, the budgets as scheduled, no more distributed than the
    /// budgets of the past epochs, and each position's rewards accounted for.
    pub closed spec fn wf(&self) -> bool {
        &&& unique_keys(self.positions@, lp_key())
        &&& self.current_epoch <= TOTAL_EPOCHS
        &&& self.epoch_budgets@.len() == TOTAL_EPOCHS
        &&& forall|e: int| 0 <= e < TOTAL_EPOCHS ==> #[trigger] self.epoch_budgets@[e] == epoch_budget(e)
        &&& self.total_distributed <= budget_prefix(self.current_epoch as int)
        &&& forall|k: int|
            0 <= k < self.positions@.len() ==> position_ok(
                #[trigger] self.positions@[k],
                self.current_epoch,
                self.total_distributed,
            )
    }

    /// A well-formed program holds one position per provider.
    pub proof fn lemma_one_position_per_provider(&self)
        requires
            self.wf(),
        ensures
            unique_keys(self.position_seq(), lp_key()),
            forall|j: int, k: int|
                0 <= j < k < self.position_seq().len() ==> (#[trigger] self.position_seq()[j]).lp_id@
                    != (#[trigger] self.position_seq()[k]).lp_id@,
    {
    }

    /// A program starting at `start_timestamp`, in epoch 0, with no position.
    pub fn new(start_timestamp: u64) -> (r: Self)
        ensures
            r.wf(),
            r.position_seq() == Seq::<LpPosition>::empty(),
            r.position_map() == Map::<Seq<char>, LpPosition>::empty(),
            r.epoch() == 0,
            r.start() == start_timestamp,
            r.distributed() == 0,
    {
        let epoch_budgets = compute_epoch_budgets();
        let r = LiquidityMiningProgram {
            positions: Vec::new(),
            current_epoch: 0,
            program_start: start_timestamp,
            total_distributed: 0,
            epoch_budgets,
        };
        proof {
            lemma_keyed_empty(lp_key());
            assert(r.positions@ =~= Seq::<LpPosition>::empty());
        }
        r
    }

    /// Current epoch.
    pub fn current_epoch(&self) -> (r: u32)
        ensures
            r == self.epoch(),
    {
        self.current_epoch
    }

    /// Tokens distributed so far.
    pub fn total_distributed(&self) -> (r: u64)
        ensures
            r == self.distributed(),
    {
        self.total_distributed
    }

    /// Tokens of the total budget not yet distributed.
    pub fn remaining_budget(&self) -> (r: u64)
        ensures
            r == sat_sub(TOTAL_REWARD_BUDGET, self.distributed()),
    {
        TOTAL_REWARD_BUDGET.saturating_sub(self.total_distributed)
    }

    /// The position of a provider, if any.
    pub fn get_position(&self, lp_id: &str) -> (r: Option<&LpPosition>)
        requires
            self.wf(),
        ensures
            match r {
                Some(p) => self.position_map().dom().contains(lp_id@) && *p == self.position_map()[lp_id@],
                None => !self.position_map().dom().contains(lp_id@),
            },
    {
        let key = lp_id.to_owned();
        match find_position(&self.positions, &key) {
            Some(i) => {
                proof { lemma_keyed_at(self.positions@, lp_key(), i as int); }
                Some(&self.positions[i])
            },
            None => None,
        }
    }
    /// Add liquidity for a provider, opening a position if it has none. The
    /// deposit time restarts when the position held no liquidity.
    pub fn deposit(&mut self, lp_id: &str, liquidity: u128, now: u64) -> (r: &LpPosition)
        requires
            old(self).wf(),
            old(self).position_map().dom().contains(lp_id@) ==> old(self).position_map()[lp_id@].liquidity + liquidity
                <= u128::MAX,
        ensures
            final(self).wf(),
            final(self).epoch() == old(self).epoch(),
            final(self).start() == old(self).start(),
            final(self).distributed() == old(self).distributed(),
            final(self).position_map().dom() == old(self).position_map().dom().insert(lp_id@),
            final(self).position_map().remove(lp_id@) == old(self).position_map().remove(lp_id@),
            *r == final(self).position_map()[lp_id@],
            r.lp_id@ == lp_id@,
            old(self).position_map().dom().contains(lp_id@) ==> exists|j: int|
                0 <= j < old(self).position_seq().len() && (#[trigger] old(self).position_seq()[j]).lp_id@ == lp_id@
                    && final(self).position_seq() == old(self).position_seq().update(j, *r),
            !old(self).position_map().dom().contains(lp_id@) ==> final(self).position_seq() == old(
                self,
            ).position_seq().push(*r),
            old(self).position_map().dom().contains(lp_id@) ==> {
                let p = old(self).position_map()[lp_id@];
                &&& r.liquidity == p.liquidity + liquidity
                &&& r.deposit_timestamp == (if p.liquidity == 0 {
                    now
                } else {
                    p.deposit_timestamp
                })
                &&& r.consecutive_epochs == p.consecutive_epochs
                &&& r.total_rewards_earned == p.total_rewards_earned
                &&& r.rewards_released == p.rewards_released
                &&& r.rewards_vesting@ == p.rewards_vesting@
            },
            !old(self).position_map().dom().contains(lp_id@) ==> {
                &&& r.liquidity == liquidity
                &&& r.deposit_timestamp == now
                &&& r.consecutive_epochs == 0
                &&& r.total_rewards_earned == 0
                &&& r.rewards_released == 0
                &&& r.rewards_vesting@.len() == 0
            },
    {
        let key = lp_id.to_owned();
        let ghost old_s = self.positions@;
        let i = match find_position(&self.positions, &key) {
            Some(i) => {
                proof { lemma_keyed_at(old_s, lp_key(), i as int); }
                i
            },
            None => {
                let fresh = LpPosition {
                    lp_id: lp_id.to_owned(),
                    liquidity: 0,
                    deposit_timestamp: now,
                    consecutive_epochs: 0,
                    total_rewards_earned: 0,
                    rewards_released: 0,
                    rewards_vesting: Vec::new(),
                };
                let ghost f = fresh;
                self.positions.push(fresh);
                proof {
                    lemma_keyed_push(old_s, lp_key(), f);
                    assert(unvested(f.rewards_vesting@) == 0);
                    assert forall|k: int| 0 <= k < self.positions@.len() implies position_ok(
                        #[trigger] self.positions@[k],
                        self.current_epoch,
                        self.total_distributed,
                    ) by {
                        if k < old_s.len() {
                            assert(self.positions@[k] == old_s[k]);
                        }
                    }
                }
                self.positions.len() - 1
            },
        };
        let ghost mid = self.positions@;
        let ghost before = self.positions@[i as int];
        let old_liquidity = self.positions[i].liquidity;
        self.positions[i].liquidity = old_liquidity + liquidity;
        if self.positions[i].liquidity == liquidity {
            self.positions[i].deposit_timestamp = now;
        }
        proof {
            let after = self.positions@[i as int];
            assert(self.positions@ == mid.update(i as int, after));
            lemma_keyed_update(mid, lp_key(), i as int, after);
            lemma_keyed_at(self.positions@, lp_key(), i as int);
            assert forall|k: int| 0 <= k < self.positions@.len() implies position_ok(
                #[trigger] self.positions@[k],
                self.current_epoch,
                self.total_distributed,
            ) by {
                if k != i {
                    assert(self.positions@[k] == mid[k]);
                }
            }
            assert(final(self).position_map().remove(lp_id@) =~= old(self).position_map().remove(lp_id@));
            if i < old_s.len() {
                assert(self.positions@ =~= old_s.update(i as int, after));
                assert(old_s[i as int].lp_id@ == lp_id@);
            } else {
                assert(self.positions@ =~= old_s.push(after));
            }
        }
        &self.positions[i]
    }

    /// Take liquidity out of a position; returns what remains. Emptying a
    /// position ends its run of consecutive epochs.
    pub fn withdraw(&mut self, lp_id: &str, amount: u128) -> (r: Result<u128, MiningError>)
        requires
            old(self).wf(),
        ensures
            final(self).wf(),
            final(self).epoch() == old(self).epoch(),
            final(self).start() == old(self).start(),
            final(self).distributed() == old(self).distributed(),
            !old(self).position_map().dom().contains(lp_id@) ==> r == Err::<u128, MiningError>(MiningError::LpNotFound)
                && final(self).position_seq() == old(self).position_seq(),
            old(self).position_map().dom().contains(lp_id@) ==> {
                let p = old(self).position_map()[lp_id@];
                let q = final(self).position_map()[lp_id@];
                if amount > p.liquidity {
                    r == Err::<u128, MiningError>(MiningError::InsufficientLiquidity) && final(self).position_seq()
                        == old(self).position_seq()
                } else {
                    &&& r == Ok::<u128, MiningError>((p.liquidity - amount) as u128)
                    &&& final(self).position_map().dom() == old(self).position_map().dom()
                    &&& final(self).position_map().remove(lp_id@) == old(self).position_map().remove(lp_id@)
                    &&& q.liquidity == p.liquidity - amount
                    &&& q.consecutive_epochs == (if q.liquidity == 0 {
                        0
                    } else {
                        p.consecutive_epochs
                    })
                    &&& q.lp_id == p.lp_id
                    &&& q.deposit_timestamp == p.deposit_timestamp
                    &&& q.total_rewards_earned == p.total_rewards_earned
                    &&& q.rewards_released == p.rewards_released
                    &&& q.rewards_vesting@ == p.rewards_vesting@
                }
            },
    {
        let key = lp_id.to_owned();
        let ghost old_s = self.positions@;
        let i = match find_position(&self.positions, &key) {
            Some(i) => i,
            None => return Err(MiningError::LpNotFound),
        };
        proof { lemma_keyed_at(old_s, lp_key(), i as int); }
        if amount > self.positions[i].liquidity {
            return Err(MiningError::InsufficientLiquidity);
        }
        let remaining = self.positions[i].liquidity - amount;
        self.positions[i].liquidity = remaining;
        if remaining == 0 {
            self.positions[i].consecutive_epochs = 0;
        }
        proof {
            let after = self.positions@[i as int];
            assert(self.positions@ == old_s.update(i as int, after));
            lemma_keyed_update(old_s, lp_key(), i as int, after);
            lemma_keyed_at(self.positions@, lp_key(), i as int);
            assert forall|k: int| 0 <= k < self.positions@.len() implies position_ok(
                #[trigger] self.positions@[k],
                self.current_epoch,
                self.total_distributed,
            ) by {
                if k != i {
                    assert(self.positions@[k] == old_s[k]);
                }
            }
            assert(final(self).position_map().remove(lp_id@) =~= old(self).position_map().remove(lp_id@));
            assert(final(self).position_map().dom() =~= old(self).position_map().dom());
        }
        Ok(remaining)
    }

    /// Claim everything vested at `now` for a provider; returns the amount.
    pub fn claim_vested(&mut self, lp_id: &str, now: u64) -> (r: Result<u64, MiningError>)
        requires
            old(self).wf(),
        ensures
            final(self).wf(),
            final(self).epoch() == old(self).epoch(),
            final(self).start() == old(self).start(),
            final(self).distributed() == old(self).distributed(),
            !old(self).position_map().dom().contains(lp_id@) ==> r == Err::<u64, MiningError>(MiningError::LpNotFound)
                && final(self).position_seq() == old(self).position_seq(),
            old(self).position_map().dom().contains(lp_id@) ==> {
                let p = old(self).position_map()[lp_id@];
                let q = final(self).position_map()[lp_id@];
                &&& r == Ok::<u64, MiningError>(claimable_total(p.rewards_vesting@, now) as u64)
                &&& final(self).position_map().dom() == old(self).position_map().dom()
                &&& final(self).position_map().remove(lp_id@) == old(self).position_map().remove(lp_id@)
                &&& q.rewards_vesting@ == claim_all(p.rewards_vesting@, now)
                &&& q.rewards_released == p.rewards_released + claimable_total(p.rewards_vesting@, now)
                &&& q.lp_id == p.lp_id
                &&& q.liquidity == p.liquidity
                &&& q.deposit_timestamp == p.deposit_timestamp
                &&& q.consecutive_epochs == p.consecutive_epochs
                &&& q.total_rewards_earned == p.total_rewards_earned
            },
    {
        let key = lp_id.to_owned();
        let ghost old_s = self.positions@;
        let i = match find_position(&self.positions, &key) {
            Some(i) => i,
            None => return Err(MiningError::LpNotFound),
        };
        proof {
            lemma_keyed_at(old_s, lp_key(), i as int);
            lemma_budget_prefix(self.current_epoch as int);
        }
        let ghost p = old_s[i as int];
        let ghost v0 = p.rewards_vesting@;
        proof {
            assert(position_ok(old_s[i as int], self.current_epoch, self.total_distributed));
            lemma_claim_all(v0, now);
            lemma_unvested_nonneg(claim_all(v0, now));
        }
        let mut v: Vec<VestingSchedule> = Vec::new();
        std::mem::swap(&mut v, &mut self.positions[i].rewards_vesting);
        let mut total_claimed: u64 = 0;
        let n = v.len();
        let mut k: usize = 0;
        while k < n
            invariant
                n == v0.len(),
                k <= n,
                v@ == claim_all(v0, now).take(k as int) + v0.skip(k as int),
                total_claimed == claimable_total(v0.take(k as int), now),
                claimable_total(v0, now) <= unvested(v0),
                unvested(v0) <= TOTAL_REWARD_BUDGET,
                forall|j: int| 0 <= j < v0.len() ==> tranche_ok(#[trigger] v0[j]),
            decreases n - k,
        {
            let t = v[k];
            let c = t.claimable_at(now);
            proof {
                lemma_claimable_le(v0[k as int], now);
                assert(v0.take(k as int + 1).drop_last() =~= v0.take(k as int));
                lemma_claimable_prefix(v0, now, k as int + 1);
            }
            v.set(k, VestingSchedule { claimed: t.claimed + c, ..t });
            total_claimed = total_claimed + c;
            proof {
                assert(v@ =~= claim_all(v0, now).take(k as int + 1) + v0.skip(k as int + 1));
            }
            k = k + 1;
        }
        proof {
            assert(v0.take(n as int) =~= v0);
            assert(claim_all(v0, now).take(n as int) + v0.skip(n as int) =~= claim_all(v0, now));
        }
        self.positions[i].rewards_vesting = v;
        self.positions[i].rewards_released = self.positions[i].rewards_released + total_claimed;
        proof {
            let after = self.positions@[i as int];
            assert(self.positions@ == old_s.update(i as int, after));
            lemma_keyed_update(old_s, lp_key(), i as int, after);
            lemma_keyed_at(self.positions@, lp_key(), i as int);
            assert forall|j: int| 0 <= j < self.positions@.len() implies position_ok(
                #[trigger] self.positions@[j],
                self.current_epoch,
                self.total_distributed,
            ) by {
                if j != i {
                    assert(self.positions@[j] == old_s[j]);
                } else {
                    assert(after.rewards_vesting@ == claim_all(v0, now));
                    assert(position_ok(after, self.current_epoch, self.total_distributed));
                }
            }
            assert(final(self).position_map().remove(lp_id@) =~= old(self).position_map().remove(lp_id@));
            assert(final(self).position_map().dom() =~= old(self).position_map().dom());
        }
        Ok(total_claimed)
    }
    /// Distribute the current epoch's budget among the eligible providers in
    /// proportion to their boosted liquidity, then move to the next epoch.
    /// Each reward is paid a quarter at once and the rest as a 90-day
    /// vesting tranche. Fails once all epochs are done.
    pub fn distribute_epoch(&mut self, now: u64) -> (r: Result<EpochRewardSummary, MiningError>)
        requires
            old(self).wf(),
            old(self).epoch() < TOTAL_EPOCHS ==> distribution_fits(
                old(self).epoch(),
                old(self).position_seq(),
                now,
                old(self).start(),
            ),
        ensures
            final(self).wf(),
            final(self).start() == old(self).start(),
            old(self).epoch() >= TOTAL_EPOCHS ==> r == Err::<EpochRewardSummary, MiningError>(MiningError::ProgramEnded)
                && final(self).position_seq() == old(self).position_seq() && final(self).epoch() == old(self).epoch()
                && final(self).distributed() == old(self).distributed(),
            old(self).epoch() < TOTAL_EPOCHS ==> {
                let e = old(self).epoch();
                let s = old(self).position_seq();
                let b = epoch_budget(e as int);
                let t = eligible_weight(e, s, now);
                let el = eligible_seq(s, now);
                match r {
                    Ok(sum) => {
                        &&& sum.epoch == e
                        &&& sum.boost_active == (e < EARLY_BIRD_EPOCHS)
                        &&& sum.eligible_lps == el.len()
                        &&& sum.total_liquidity == eligible_liquidity(s, now)
                        &&& sum.total_distributed == eligible_rewards(e, s, now, b, t)
                        &&& sum.total_distributed <= b
                        &&& sum.total_distributed == lines_total(sum.per_lp@)
                        &&& sum.per_lp@.len() == el.len()
                        &&& forall|k: int| 0 <= k < el.len() ==> reward_line(#[trigger] sum.per_lp@[k], e, el[k], b, t)
                        &&& final(self).epoch() == e + 1
                        &&& final(self).distributed() == old(self).distributed() + sum.total_distributed
                        &&& final(self).position_seq().len() == s.len()
                        &&& forall|j: int|
                            0 <= j < s.len() ==> if eligible(#[trigger] s[j], now) {
                                paid(s[j], final(self).position_seq()[j], reward_of(e, s[j], b, t), now)
                            } else {
                                final(self).position_seq()[j] == s[j]
                            }
                    },
                    Err(_) => false,
                }
            },
    {
        if self.current_epoch >= TOTAL_EPOCHS {
            return Err(MiningError::ProgramEnded);
        }
        let epoch = self.current_epoch;
        let budget = self.epoch_budgets[epoch as usize];
        let _epoch_start = self.program_start + epoch as u64 * EPOCH_DURATION_SECS;
        let ghost s = self.positions@;
        let ghost d0 = self.total_distributed;
        let ghost budgets0 = self.epoch_budgets@;
        let ghost start0 = self.program_start;
        let ghost t = eligible_weight(epoch, s, now);
        let n = self.positions.len();
        proof {
            lemma_budget_prefix(epoch as int);
            lemma_budget_prefix(epoch as int + 1);
            lemma_eligible_sums(epoch, s, now, s.len() as int);
            assert(s.take(s.len() as int) =~= s);
        }

        let mut total_weighted: u128 = 0;
        let mut total_liquidity: u128 = 0;
        let mut count: usize = 0;
        let mut i: usize = 0;
        while i < n
            invariant
                n == s.len(),
                self.positions@ == s,
                i <= n,
                total_weighted == eligible_weight(epoch, s.take(i as int), now),
                total_liquidity == eligible_liquidity(s.take(i as int), now),
                count == eligible_seq(s.take(i as int), now).len(),
                count <= i,
                t == eligible_weight(epoch, s, now),
                distribution_fits(epoch, s, now, self.program_start),
            decreases n - i,
        {
            proof {
                lemma_take_step(epoch, s, now, budget, t, i as int);
                lemma_eligible_sums(epoch, s, now, i as int + 1);
            }
            if is_eligible(&self.positions[i], now) {
                let w = weight_of(epoch, &self.positions[i]);
                total_weighted = total_weighted + w;
                total_liquidity = total_liquidity + self.positions[i].liquidity;
                count = count + 1;
            }
            i = i + 1;
        }
        proof {
            assert(s.take(n as int) =~= s);
        }

        let mut per_lp: Vec<LpReward> = Vec::new();
        let mut actual: u64 = 0;
        let mut i: usize = 0;
        while i < n
            invariant
                n == s.len(),
                self.positions@.len() == n,
                i <= n,
                total_weighted == t,
                t == eligible_weight(epoch, s, now),
                budget == epoch_budget(epoch as int),
                budget <= 666_666,
                distribution_fits(epoch, s, now, self.program_start),
                epoch < TOTAL_EPOCHS,
                self.current_epoch == epoch,
                self.total_distributed == d0,
                self.epoch_budgets@ == budgets0,
                self.program_start == start0,
                budgets0.len() == TOTAL_EPOCHS,
                forall|e: int| 0 <= e < TOTAL_EPOCHS ==> #[trigger] budgets0[e] == epoch_budget(e),
                d0 <= budget_prefix(epoch as int),
                budget_prefix(epoch as int) + budget <= TOTAL_REWARD_BUDGET,
                forall|k: int| 0 <= k < s.len() ==> position_ok(#[trigger] s[k], epoch, d0),
                forall|j: int| i <= j < n ==> #[trigger] self.positions@[j] == s[j],
                forall|j: int|
                    0 <= j < i ==> if eligible(#[trigger] s[j], now) {
                        &&& paid(s[j], self.positions@[j], reward_of(epoch, s[j], budget, t), now)
                        &&& self.positions@[j].total_rewards_earned <= d0 + actual
                    } else {
                        self.positions@[j] == s[j]
                    },
                per_lp@.len() == eligible_seq(s.take(i as int), now).len(),
                forall|k: int|
                    0 <= k < per_lp@.len() ==> reward_line(
                        #[trigger] per_lp@[k],
                        epoch,
                        eligible_seq(s.take(i as int), now)[k],
                        budget,
                        t,
                    ),
                actual == eligible_rewards(epoch, s.take(i as int), now, budget, t),
                t > 0 ==> actual * t <= budget * eligible_weight(epoch, s.take(i as int), now),
                t == 0 ==> actual == 0,
            decreases n - i,
        {
            proof {
                lemma_take_step(epoch, s, now, budget, t, i as int);
                lemma_eligible_sums(epoch, s, now, i as int + 1);
            }
            if is_eligible(&self.positions[i], now) {
                let line = reward_line_for(budget, epoch, &self.positions[i], total_weighted);
                let f = line.final_reward;
                let imm = line.immediate_release;
                let vest = line.vesting_amount;
                proof {
                    let w = weight(epoch, s[i as int]);
                    let wi = eligible_weight(epoch, s.take(i as int), now);
                    assert(self.positions@[i as int] == s[i as int]);
                    lemma_weight_ge_liquidity(epoch, s[i as int]);
                    assert(t > 0);
                    assert((actual + f) * t <= budget * (wi + w)) by (nonlinear_arith)
                        requires
                            actual * t <= budget * wi,
                            f * t <= budget * w,
                    ;
                    assert(wi + w <= t);
                    assert(budget * (wi + w) <= budget * t) by (nonlinear_arith)
                        requires
                            wi + w <= t,
                            budget >= 0,
                    ;
                    assert(actual + f <= budget) by (nonlinear_arith)
                        requires
                            (actual + f) * t <= budget * t,
                            t > 0,
                    ;
                    lemma_unvested_nonneg(s[i as int].rewards_vesting@);
                    assert(position_ok(s[i as int], epoch, d0));
                }
                per_lp.push(line);
                let ghost before = self.positions@;
                self.positions[i].total_rewards_earned = self.positions[i].total_rewards_earned + f;
                self.positions[i].rewards_released = self.positions[i].rewards_released + imm;
                self.positions[i].consecutive_epochs = self.positions[i].consecutive_epochs + 1;
                if vest > 0 {
                    let tranche = VestingSchedule {
                        total: vest,
                        claimed: 0,
                        start_timestamp: now,
                        end_timestamp: now + LINEAR_VEST_DURATION_SECS,
                    };
                    self.positions[i].rewards_vesting.push(tranche);
                }
                actual = actual + f;
                proof {
                    assert forall|j: int| 0 <= j < n && j != i implies #[trigger] self.positions@[j] == before[j] by {}
                }
            }
            proof {
                assert forall|j: int| 0 <= j < i + 1 implies if eligible(#[trigger] s[j], now) {
                    &&& paid(s[j], self.positions@[j], reward_of(epoch, s[j], budget, t), now)
                    &&& self.positions@[j].total_rewards_earned <= d0 + actual
                } else {
                    self.positions@[j] == s[j]
                } by {}
            }
            i = i + 1;
        }
        proof {
            assert(s.take(n as int) =~= s);
            law_total_is_sum_of_lines(epoch, s, now, budget, t, per_lp@);
            if t > 0 {
                assert(actual <= budget) by (nonlinear_arith)
                    requires
                        actual * t <= budget * t,
                        t > 0,
                ;
            }
        }
        self.total_distributed = self.total_distributed + actual;
        self.current_epoch = self.current_epoch + 1;
        proof {
            assert forall|j: int, k: int|
                0 <= j < self.positions@.len() && 0 <= k < self.positions@.len() && j != k implies lp_key()(
                #[trigger] self.positions@[j],
            ) != lp_key()(#[trigger] self.positions@[k]) by {
                assert(lp_key()(s[j]) != lp_key()(s[k]));
            }
            assert forall|k: int| 0 <= k < self.positions@.len() implies position_ok(
                #[trigger] self.positions@[k],
                self.current_epoch,
                self.total_distributed,
            ) by {
                if eligible(s[k], now) {
                    let f = reward_of(epoch, s[k], budget, t);
                    lemma_paid_ok(s[k], self.positions@[k], f, now, epoch, d0, self.total_distributed);
                }
            }
        }
        Ok(
            EpochRewardSummary {
                epoch,
                total_distributed: actual,
                eligible_lps: count,
                total_liquidity,
                boost_active: epoch < EARLY_BIRD_EPOCHS,
                per_lp,
            },
        )
    }
    /// The program never distributes more than its total budget.
    pub proof fn law_distributed_within_budget(&self)
        requires
            self.wf(),
        ensures
            self.distributed() <= TOTAL_REWARD_BUDGET,
    {
        lemma_budget_prefix(self.current_epoch as int);
    }

    /// No provider is ever released more than it earned: what it was
    /// released plus what still vests is exactly what it earned.
    pub proof fn law_released_within_earned(&self, lp_id: Seq<char>)
        requires
            self.wf(),
            self.position_map().dom().contains(lp_id),
        ensures
            self.position_map()[lp_id].rewards_released + unvested(self.position_map()[lp_id].rewards_vesting@)
                == self.position_map()[lp_id].total_rewards_earned,
            self.position_map()[lp_id].rewards_released <= self.position_map()[lp_id].total_rewards_earned,
            self.position_map()[lp_id].total_rewards_earned <= self.distributed(),
    {
        let k = choose|k: int| 0 <= k < self.positions@.len() && lp_key()(#[trigger] self.positions@[k]) == lp_id;
        lemma_keyed_at(self.positions@, lp_key(), k);
        assert(position_ok(self.positions@[k], self.current_epoch, self.total_distributed));
        lemma_unvested_nonneg(self.positions@[k].rewards_vesting@);
    }

    /// Number of providers with liquidity, and their total liquidity.
    pub fn liquidity_stats(&self) -> (r: (usize, u128))
        requires
            self.wf(),
            total_liquidity(self.position_seq()) <= u128::MAX,
        ensures
            r.0 == self.position_seq().filter(|p: LpPosition| p.liquidity > 0).len(),
            r.1 == total_liquidity(self.position_seq()),
    {
        let mut active: usize = 0;
        let mut total: u128 = 0;
        let mut i: usize = 0;
        while i < self.positions.len()
            invariant
                i <= self.positions@.len(),
                active <= i,
                active == self.positions@.take(i as int).filter(|p: LpPosition| p.liquidity > 0).len(),
                total == total_liquidity(self.positions@.take(i as int)),
                total_liquidity(self.positions@) <= u128::MAX,
            decreases self.positions@.len() - i,
        {
            proof {
                reveal_with_fuel(Seq::filter, 1);
                assert(self.positions@.take(i as int + 1).drop_last() =~= self.positions@.take(i as int));
                lemma_total_liquidity_prefix(self.positions@, i as int + 1);
            }
            if self.positions[i].liquidity > 0 {
                active = active + 1;
            }
            total = total + self.positions[i].liquidity;
            i = i + 1;
        }
        proof {
            assert(self.positions@.take(i as int) =~= self.positions@);
        }
        (active, total)
    }
}


/// The program's state as JSON (keys in sorted order), given the number of
/// active providers and the total liquidity.
pub open spec fn mining_stats_text(active: nat, epoch: u32, distributed: u64, liquidity: nat) -> Seq<char> {
    "{\"active_lps\":"@ + dec_chars(active) + ",\"current_epoch\":"@ + dec_chars(epoch as nat)
        + ",\"program_ended\":"@ + (if epoch >= TOTAL_EPOCHS { "true"@ } else { "false"@ })
        + ",\"remaining_budget\":"@ + dec_chars(sat_sub(TOTAL_REWARD_BUDGET, distributed) as nat)
        + ",\"total_distributed\":"@ + dec_chars(distributed as nat) + ",\"total_epochs\":"@ + dec_chars(
        TOTAL_EPOCHS as nat,
    ) + ",\"total_liquidity\":\""@ + dec_chars(liquidity) + "\"}"@
}

impl LiquidityMiningProgram {
    /// The epoch, the budget, the active providers and the total liquidity,
    /// as JSON.
    pub fn stats_json(&self) -> (r: String)
        requires
            self.wf(),
            total_liquidity(self.position_seq()) <= u128::MAX,
        ensures
            r@ == mining_stats_text(
                self.position_seq().filter(|p: LpPosition| p.liquidity > 0).len(),
                self.epoch(),
                self.distributed(),
                total_liquidity(self.position_seq()) as nat,
            ),
    {
        let (active, total) = self.liquidity_stats();
        let mut out = prefixed_decimal("{\"active_lps\":", active as u64);
        out.append(prefixed_decimal(",\"current_epoch\":", self.current_epoch as u64).as_str());
        out.append(",\"program_ended\":");
        if self.current_epoch >= TOTAL_EPOCHS {
            out.append("true");
        } else {
            out.append("false");
        }
        out.append(prefixed_decimal(",\"remaining_budget\":", self.remaining_budget()).as_str());
        out.append(prefixed_decimal(",\"total_distributed\":", self.total_distributed).as_str());
        out.append(prefixed_decimal(",\"total_epochs\":", TOTAL_EPOCHS as u64).as_str());
        out.append(",\"total_liquidity\":\"");
        out.append(decimal_u128(total).as_str());
        out.append("\"}");
        out
    }
}

} // verus!
