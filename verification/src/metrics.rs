//! Relayer metrics: latency statistics for proof generation, settlement and
//! on-chain verification, batch and queue figures, per-chain health, transfer
//! corridors, TVL and volume, validator heartbeats; exported as Prometheus text.
//!
//! Counters wrap around on overflow, as atomic counters do.
use vstd::prelude::*;
use crate::keyed::{has_key, keyed_map, lemma_keyed_at, lemma_keyed_empty, lemma_keyed_push, lemma_keyed_update, unique_keys};
use vstd::set_lib::{lemma_int_range, lemma_len_subset, set_int_range};
use vstd::string::StringExecFns;
use crate::text::{dec_chars, decimal};

verus! {

/// Proof generation above this many milliseconds raises an alert.
pub const PROOF_ALERT_MS: u64 = 1_000;
/// Settlement above this many milliseconds breaches the SLA.
pub const SETTLEMENT_ALERT_MS: u64 = 60_000;
/// On-chain verification above this many milliseconds raises an alert.
pub const VERIFY_ALERT_MS: u64 = 500;

/// `a + b` wrapped to 64 bits.
pub open spec fn wadd(a: u64, b: u64) -> u64 {
    if a + b > u64::MAX {
        (a + b - 0x1_0000_0000_0000_0000) as u64
    } else {
        (a + b) as u64
    }
}

/// The larger of two values.
pub open spec fn max_spec(a: u64, b: u64) -> u64 {
    if a >= b {
        a
    } else {
        b
    }
}

/// Integer mean, zero when there is nothing to average.
pub open spec fn mean_spec(sum: u64, count: u64) -> u64 {
    if count == 0 {
        0
    } else {
        sum / count
    }
}

pub fn mean(sum: u64, count: u64) -> (r: u64)
    ensures
        r == mean_spec(sum, count),
{
    if count == 0 {
        0
    } else {
        sum / count
    }
}

fn wrapping_inc(a: u64, b: u64) -> (r: u64)
    ensures
        r == wadd(a, b),
{
    a.wrapping_add(b)
}

/// Attempts, outcomes and timings of one kind of job.
#[derive(Clone, Copy, Debug, PartialEq, Eq, Structural)]
pub struct LatencyStats {
    pub total: u64,
    pub success: u64,
    pub failure: u64,
    pub ms_sum: u64,
    pub ms_max: u64,
    pub alerts: u64,
}

impl LatencyStats {
    pub open spec fn zero() -> Self {
        LatencyStats { total: 0, success: 0, failure: 0, ms_sum: 0, ms_max: 0, alerts: 0 }
    }

    pub open spec fn started(self) -> Self {
        LatencyStats { total: wadd(self.total, 1), ..self }
    }

    pub open spec fn succeeded(self, ms: u64, alert_above: u64) -> Self {
        LatencyStats {
            success: wadd(self.success, 1),
            ms_sum: wadd(self.ms_sum, ms),
            ms_max: max_spec(self.ms_max, ms),
            alerts: if ms > alert_above {
                wadd(self.alerts, 1)
            } else {
                self.alerts
            },
            ..self
        }
    }

    pub open spec fn failed(self) -> Self {
        LatencyStats { failure: wadd(self.failure, 1), ..self }
    }

    fn new() -> (r: Self)
        ensures
            r == Self::zero(),
    {
        LatencyStats { total: 0, success: 0, failure: 0, ms_sum: 0, ms_max: 0, alerts: 0 }
    }

    fn start(&mut self)
        ensures
            *final(self) == old(self).started(),
    {
        self.total = wrapping_inc(self.total, 1);
    }

    fn succeed(&mut self, ms: u64, alert_above: u64)
        ensures
            *final(self) == old(self).succeeded(ms, alert_above),
    {
        self.success = wrapping_inc(self.success, 1);
        self.ms_sum = wrapping_inc(self.ms_sum, ms);
        if ms > self.ms_max {
            self.ms_max = ms;
        }
        if ms > alert_above {
            self.alerts = wrapping_inc(self.alerts, 1);
        }
    }

    fn fail(&mut self)
        ensures
            *final(self) == old(self).failed(),
    {
        self.failure = wrapping_inc(self.failure, 1);
    }
}

/// On-chain verification timings.
#[derive(Clone, Copy, Debug, PartialEq, Eq, Structural)]
pub struct VerifyStats {
    pub total: u64,
    pub ms_sum: u64,
    pub ms_max: u64,
    pub alerts: u64,
}

impl VerifyStats {
    pub open spec fn recorded(self, ms: u64) -> Self {
        VerifyStats {
            total: wadd(self.total, 1),
            ms_sum: wadd(self.ms_sum, ms),
            ms_max: max_spec(self.ms_max, ms),
            alerts: if ms > VERIFY_ALERT_MS {
                wadd(self.alerts, 1)
            } else {
                self.alerts
            },
        }
    }
}

/// Batches handed to the proof pipeline.
#[derive(Clone, Copy, Debug, PartialEq, Eq, Structural)]
pub struct BatchStats {
    pub flushed: u64,
    pub events: u64,
    pub size_sum: u64,
    pub size_max: u64,
}

impl BatchStats {
    pub open spec fn with_batch(self, n: u64) -> Self {
        BatchStats {
            flushed: wadd(self.flushed, 1),
            events: wadd(self.events, n),
            size_sum: wadd(self.size_sum, n),
            size_max: max_spec(self.size_max, n),
        }
    }
}

/// Finality lag observations of one chain.
#[derive(Clone, Copy, Debug, PartialEq, Eq, Structural)]
pub struct ChainFinality {
    pub chain_id: u32,
    pub ms_sum: u64,
    pub count: u64,
}

/// Latest RPC latency of one chain.
#[derive(Clone, Copy, Debug, PartialEq, Eq, Structural)]
pub struct ChainLatency {
    pub chain_id: u32,
    pub latency_ms: u64,
}

/// Transfers seen on one source/destination corridor today.
#[derive(Clone, Copy, Debug, PartialEq, Eq, Structural)]
pub struct CorridorCount {
    pub src_chain: u32,
    pub dst_chain: u32,
    pub count: u64,
}

pub open spec fn finality_key() -> spec_fn(ChainFinality) -> u32 {
    |c: ChainFinality| c.chain_id
}

pub open spec fn latency_key() -> spec_fn(ChainLatency) -> u32 {
    |c: ChainLatency| c.chain_id
}

pub open spec fn corridor_key() -> spec_fn(CorridorCount) -> (u32, u32) {
    |c: CorridorCount| (c.src_chain, c.dst_chain)
}

/// Name of a corridor: source chain, a colon, destination chain.
pub open spec fn corridor_name(c: CorridorCount) -> Seq<char> {
    dec_chars(c.src_chain as nat) + ":"@ + dec_chars(c.dst_chain as nat)
}

/// `idx` picks the `n` busiest entries of `s` (all of them if there are
/// fewer), busiest first: no entry left out has more transfers than one picked.
pub open spec fn is_top_selection(s: Seq<CorridorCount>, n: nat, idx: Seq<int>) -> bool {
    &&& idx.len() == (if n < s.len() {
        n
    } else {
        s.len()
    })
    &&& forall|t: int| 0 <= t < idx.len() ==> 0 <= #[trigger] idx[t] < s.len()
    &&& forall|t: int, u: int| 0 <= t < u < idx.len() ==> #[trigger] idx[t] != #[trigger] idx[u]
    &&& forall|t: int, u: int|
        0 <= t < u < idx.len() ==> s[#[trigger] idx[t]].count >= s[#[trigger] idx[u]].count
    &&& forall|j: int, t: int|
        0 <= j < s.len() && 0 <= t < idx.len() && !idx.contains(j) ==> (#[trigger] s[j]).count <= s[#[trigger] idx[t]].count
}

/// Some index below `m` is missing from a sequence shorter than `m`.
proof fn lemma_missing_index(idx: Seq<int>, m: int)
    requires
        idx.len() < m,
    ensures
        exists|j: int| 0 <= j < m && !idx.contains(j),
{
    if forall|j: int| 0 <= j < m ==> idx.contains(j) {
        lemma_int_range(0, m);
        idx.lemma_cardinality_of_set();
        assert(set_int_range(0, m).subset_of(idx.to_set())) by {
            assert forall|j: int| set_int_range(0, m).contains(j) implies idx.to_set().contains(j) by {
                assert(idx.contains(j));
            }
        }
        lemma_len_subset(set_int_range(0, m), idx.to_set());
    }
}

fn corridor_label(c: &CorridorCount) -> (r: String)
    ensures
        r@ == corridor_name(*c),
{
    let mut out = decimal(c.src_chain as u64);
    out.append(":");
    let dst = decimal(c.dst_chain as u64);
    out.append(dst.as_str());
    out
}

/// A Prometheus metric block: help line, type line, sample line.
pub open spec fn metric_block(name: Seq<char>, help: Seq<char>, kind: Seq<char>, v: u64) -> Seq<char> {
    "# HELP "@ + name + " "@ + help + "\n# TYPE "@ + name + " "@ + kind + "\n"@ + name + " "@ + dec_chars(v as nat)
        + "\n"@
}

pub open spec fn counter_block(name: Seq<char>, help: Seq<char>, v: u64) -> Seq<char> {
    metric_block(name, help, "counter"@, v)
}

pub open spec fn gauge_block(name: Seq<char>, help: Seq<char>, v: u64) -> Seq<char> {
    metric_block(name, help, "gauge"@, v)
}

/// `out` followed by the finality gauge of each chain of `s`, in order.
pub open spec fn finality_blocks(out: Seq<char>, s: Seq<ChainFinality>) -> Seq<char>
    decreases s.len(),
{
    if s.len() == 0 {
        out
    } else {
        let c = s.last();
        finality_blocks(out, s.drop_last()) + gauge_block(
            "interlink_chain_"@ + dec_chars(c.chain_id as nat) + "_finality_ms_mean"@,
            "Mean finality lag ms for chain "@ + dec_chars(c.chain_id as nat),
            mean_spec(c.ms_sum, c.count),
        )
    }
}

/// `out` followed by the RPC latency gauge of each chain of `s`, in order.
pub open spec fn latency_blocks(out: Seq<char>, s: Seq<ChainLatency>) -> Seq<char>
    decreases s.len(),
{
    if s.len() == 0 {
        out
    } else {
        let c = s.last();
        latency_blocks(out, s.drop_last()) + gauge_block(
            "interlink_chain_"@ + dec_chars(c.chain_id as nat) + "_rpc_latency_ms"@,
            "Latest RPC latency ms for chain "@ + dec_chars(c.chain_id as nat),
            c.latency_ms,
        )
    }
}

/// The Prometheus text of the job, batch, queue and verification figures.
pub open spec fn pipeline_text(v: MetricsView) -> Seq<char> {
    Seq::<char>::empty()
        + counter_block("interlink_proof_gen_total"@, "Total proof generation attempts"@, v.proof_gen.total)
        + counter_block("interlink_proof_gen_success_total"@, "Successful proof generations"@, v.proof_gen.success)
        + counter_block("interlink_proof_gen_failure_total"@, "Failed proof generations"@, v.proof_gen.failure)
        + gauge_block(
        "interlink_proof_gen_ms_mean"@,
        "Mean proof gen time ms \u{2014} target <100 vs Wormhole 300+"@,
        mean_spec(v.proof_gen.ms_sum, v.proof_gen.success),
    ) + gauge_block("interlink_proof_gen_ms_max"@, "Max proof gen time ms seen"@, v.proof_gen.ms_max)
        + counter_block(
        "interlink_proof_gen_alert_total"@,
        "Proofs exceeding 1000ms alert threshold"@,
        v.proof_gen.alerts,
    ) + counter_block("interlink_settlement_total"@, "Total settlement pipeline attempts"@, v.settlement.total)
        + counter_block(
        "interlink_settlement_success_total"@,
        "Successful end-to-end settlements"@,
        v.settlement.success,
    ) + counter_block("interlink_settlement_failure_total"@, "Failed settlements"@, v.settlement.failure)
        + gauge_block(
        "interlink_settlement_ms_mean"@,
        "Mean settlement ms \u{2014} target <30000 vs Wormhole 120000+"@,
        mean_spec(v.settlement.ms_sum, v.settlement.success),
    ) + gauge_block("interlink_settlement_ms_max"@, "Max settlement ms seen"@, v.settlement.ms_max)
        + counter_block("interlink_settlement_sla_breach_total"@, "Settlements exceeding 60s SLA"@, v.settlement.alerts)
        + counter_block(
        "interlink_batches_flushed_total"@,
        "Total batches dispatched to proof pipeline"@,
        v.batches.flushed,
    ) + counter_block(
        "interlink_events_processed_total"@,
        "Total events processed across all batches"@,
        v.batches.events,
    ) + gauge_block(
        "interlink_batch_size_mean"@,
        "Mean events per batch \u{2014} target 100-1000 vs Wormhole 1-20"@,
        mean_spec(v.batches.size_sum, v.batches.flushed),
    ) + gauge_block("interlink_batch_size_max"@, "Largest single batch seen"@, v.batches.size_max)
        + gauge_block(
        "interlink_queue_depth"@,
        "Events buffered in mpsc channel, not yet dispatched"@,
        v.queue_depth,
    ) + counter_block("interlink_verify_total"@, "On-chain verification calls"@, v.verification.total)
        + gauge_block(
        "interlink_verify_ms_mean"@,
        "Mean on-chain verification latency ms"@,
        mean_spec(v.verification.ms_sum, v.verification.total),
    ) + gauge_block("interlink_verify_ms_max"@, "Max on-chain verification latency ms"@, v.verification.ms_max)
        + counter_block(
        "interlink_verify_alert_total"@,
        "Verifications exceeding 500ms alert threshold"@,
        v.verification.alerts,
    )
}

/// `out` followed by the Prometheus text of the user, TVL and validator figures.
pub open spec fn totals_text(out: Seq<char>, v: MetricsView) -> Seq<char> {
    out + gauge_block("interlink_daily_transfers"@, "Transfers in the current UTC day"@, v.daily_transfers)
        + gauge_block(
        "interlink_unique_users_total"@,
        "Distinct sender addresses seen (lifetime)"@,
        v.unique_users,
    ) + gauge_block(
        "interlink_tvl_usd_cents"@,
        "Total value locked in bridge vaults (USD cents)"@,
        v.tvl_usd_cents,
    ) + gauge_block(
        "interlink_daily_volume_usd_cents"@,
        "Daily transfer volume (USD cents)"@,
        v.daily_volume_usd_cents,
    ) + counter_block(
        "interlink_cumulative_volume_usd_cents"@,
        "All-time cumulative transfer volume (USD cents)"@,
        v.cumulative_volume_usd_cents,
    ) + counter_block(
        "interlink_validator_heartbeats_total"@,
        "Validator heartbeats received"@,
        v.heartbeats_received,
    ) + counter_block(
        "interlink_validator_heartbeats_expected"@,
        "Validator heartbeats expected"@,
        v.heartbeats_expected,
    )
}

fn write_counter(out: &mut String, name: &str, help: &str, val: u64)
    ensures
        final(out)@ == old(out)@ + counter_block(name@, help@, val),
{
    write_metric(out, name, help, "counter", val);
}

fn write_gauge(out: &mut String, name: &str, help: &str, val: u64)
    ensures
        final(out)@ == old(out)@ + gauge_block(name@, help@, val),
{
    write_metric(out, name, help, "gauge", val);
}

fn write_metric(out: &mut String, name: &str, help: &str, kind: &str, val: u64)
    ensures
        final(out)@ == old(out)@ + metric_block(name@, help@, kind@, val),
{
    let ghost start = out@;
    out.append("# HELP ");
    out.append(name);
    out.append(" ");
    out.append(help);
    out.append("\n# TYPE ");
    out.append(name);
    out.append(" ");
    out.append(kind);
    out.append("\n");
    out.append(name);
    out.append(" ");
    let digits = decimal(val);
    out.append(digits.as_str());
    out.append("\n");
    assert(out@ =~= start + metric_block(name@, help@, kind@, val));
}

/// The state of the metrics as plain values.
pub struct MetricsView {
    pub proof_gen: LatencyStats,
    pub settlement: LatencyStats,
    pub batches: BatchStats,
    pub queue_depth: u64,
    pub verification: VerifyStats,
    pub chain_finality: Map<u32, ChainFinality>,
    pub chain_rpc_latency: Map<u32, ChainLatency>,
    pub daily_transfers: u64,
    pub unique_users: u64,
    pub corridors: Map<(u32, u32), CorridorCount>,
    pub tvl_usd_cents: u64,
    pub daily_volume_usd_cents: u64,
    pub cumulative_volume_usd_cents: u64,
    pub heartbeats_received: u64,
    pub heartbeats_expected: u64,
}

/// Relayer metrics.
pub struct Metrics {
    proof_gen: LatencyStats,
    settlement: LatencyStats,
    batches: BatchStats,
    queue_depth: u64,
    verification: VerifyStats,
    chain_finality: Vec<ChainFinality>,
    chain_rpc_latency: Vec<ChainLatency>,
    daily_transfers: u64,
    unique_users: u64,
    corridors: Vec<CorridorCount>,
    tvl_usd_cents: u64,
    daily_volume_usd_cents: u64,
    cumulative_volume_usd_cents: u64,
    heartbeats_received: u64,
    heartbeats_expected: u64,
}

impl View for Metrics {
    type V = MetricsView;

    closed spec fn view(&self) -> MetricsView {
        MetricsView {
            proof_gen: self.proof_gen,
            settlement: self.settlement,
            batches: self.batches,
            queue_depth: self.queue_depth,
            verification: self.verification,
            chain_finality: keyed_map(self.chain_finality@, finality_key()),
            chain_rpc_latency: keyed_map(self.chain_rpc_latency@, latency_key()),
            daily_transfers: self.daily_transfers,
            unique_users: self.unique_users,
            corridors: keyed_map(self.corridors@, corridor_key()),
            tvl_usd_cents: self.tvl_usd_cents,
            daily_volume_usd_cents: self.daily_volume_usd_cents,
            cumulative_volume_usd_cents: self.cumulative_volume_usd_cents,
            heartbeats_received: self.heartbeats_received,
            heartbeats_expected: self.heartbeats_expected,
        }
    }
}

fn find_finality(s: &Vec<ChainFinality>, chain_id: u32) -> (r: Option<usize>)
    ensures
        match r {
            Some(i) => i < s@.len() && s@[i as int].chain_id == chain_id,
            None => !has_key(s@, finality_key(), chain_id),
        },
{
    let mut i: usize = 0;
    while i < s.len()
        invariant
            0 <= i <= s@.len(),
            forall|k: int| 0 <= k < i ==> (#[trigger] s@[k]).chain_id != chain_id,
        decreases s@.len() - i,
    {
        if s[i].chain_id == chain_id {
            return Some(i);
        }
        i = i + 1;
    }
    None
}

fn find_latency(s: &Vec<ChainLatency>, chain_id: u32) -> (r: Option<usize>)
    ensures
        match r {
            Some(i) => i < s@.len() && s@[i as int].chain_id == chain_id,
            None => !has_key(s@, latency_key(), chain_id),
        },
{
    let mut i: usize = 0;
    while i < s.len()
        invariant
            0 <= i <= s@.len(),
            forall|k: int| 0 <= k < i ==> (#[trigger] s@[k]).chain_id != chain_id,
        decreases s@.len() - i,
    {
        if s[i].chain_id == chain_id {
            return Some(i);
        }
        i = i + 1;
    }
    None
}

fn find_corridor(s: &Vec<CorridorCount>, src: u32, dst: u32) -> (r: Option<usize>)
    ensures
        match r {
            Some(i) => i < s@.len() && s@[i as int].src_chain == src && s@[i as int].dst_chain == dst,
            None => !has_key(s@, corridor_key(), (src, dst)),
        },
{
    let mut i: usize = 0;
    while i < s.len()
        invariant
            0 <= i <= s@.len(),
            forall|k: int| 0 <= k < i ==> corridor_key()(#[trigger] s@[k]) != (src, dst),
        decreases s@.len() - i,
    {
        if s[i].src_chain == src && s[i].dst_chain == dst {
            return Some(i);
        }
        i = i + 1;
    }
    None
}

impl Metrics {
    /// No two entries of a per-chain or per-corridor table share a key.
    pub closed spec fn wf(&self) -> bool {
        &&& unique_keys(self.chain_finality@, finality_key())
        &&& unique_keys(self.chain_rpc_latency@, latency_key())
        &&& unique_keys(self.corridors@, corridor_key())
    }

    /// Finality entries in the order in which chains were first seen.
    pub closed spec fn finality_seq(&self) -> Seq<ChainFinality> {
        self.chain_finality@
    }

    /// RPC latency entries in the order in which chains were first seen.
    pub closed spec fn latency_seq(&self) -> Seq<ChainLatency> {
        self.chain_rpc_latency@
    }

    /// Corridor entries in the order in which corridors were first seen.
    pub closed spec fn corridor_seq(&self) -> Seq<CorridorCount> {
        self.corridors@
    }

    /// All counters zero, all tables empty.
    pub fn new() -> (r: Self)
        ensures
            r.wf(),
            r@.proof_gen == LatencyStats::zero(),
            r@.settlement == LatencyStats::zero(),
            r@.batches == (BatchStats { flushed: 0, events: 0, size_sum: 0, size_max: 0 }),
            r@.queue_depth == 0,
            r@.verification == (VerifyStats { total: 0, ms_sum: 0, ms_max: 0, alerts: 0 }),
            r@.chain_finality == Map::<u32, ChainFinality>::empty(),
            r@.chain_rpc_latency == Map::<u32, ChainLatency>::empty(),
            r@.daily_transfers == 0,
            r@.unique_users == 0,
            r@.corridors == Map::<(u32, u32), CorridorCount>::empty(),
            r@.tvl_usd_cents == 0,
            r@.daily_volume_usd_cents == 0,
            r@.cumulative_volume_usd_cents == 0,
            r@.heartbeats_received == 0,
            r@.heartbeats_expected == 0,
            r.finality_seq().len() == 0,
            r.latency_seq().len() == 0,
            r.corridor_seq().len() == 0,
    {
        let r = Metrics {
            proof_gen: LatencyStats::new(),
            settlement: LatencyStats::new(),
            batches: BatchStats { flushed: 0, events: 0, size_sum: 0, size_max: 0 },
            queue_depth: 0,
            verification: VerifyStats { total: 0, ms_sum: 0, ms_max: 0, alerts: 0 },
            chain_finality: Vec::new(),
            chain_rpc_latency: Vec::new(),
            daily_transfers: 0,
            unique_users: 0,
            corridors: Vec::new(),
            tvl_usd_cents: 0,
            daily_volume_usd_cents: 0,
            cumulative_volume_usd_cents: 0,
            heartbeats_received: 0,
            heartbeats_expected: 0,
        };
        proof {
            lemma_keyed_empty(finality_key());
            lemma_keyed_empty(latency_key());
            lemma_keyed_empty(corridor_key());
            assert(r.chain_finality@ =~= Seq::<ChainFinality>::empty());
            assert(r.chain_rpc_latency@ =~= Seq::<ChainLatency>::empty());
            assert(r.corridors@ =~= Seq::<CorridorCount>::empty());
        }
        r
    }

    /// A proof generation has started.
    pub fn record_proof_start(&mut self)
        ensures
            final(self)@ == (MetricsView { proof_gen: old(self)@.proof_gen.started(), ..old(self)@ }),
            final(self).wf() == old(self).wf(),
            final(self).finality_seq() == old(self).finality_seq(),
            final(self).latency_seq() == old(self).latency_seq(),
            final(self).corridor_seq() == old(self).corridor_seq(),
    {
        self.proof_gen.start();
    }

    /// A proof was generated in `ms` milliseconds; above 1 000 ms it raises an alert.
    pub fn record_proof_success(&mut self, ms: u64)
        ensures
            final(self)@ == (MetricsView { proof_gen: old(self)@.proof_gen.succeeded(ms, PROOF_ALERT_MS), ..old(self)@ }),
            final(self).wf() == old(self).wf(),
            final(self).finality_seq() == old(self).finality_seq(),
            final(self).latency_seq() == old(self).latency_seq(),
            final(self).corridor_seq() == old(self).corridor_seq(),
    {
        self.proof_gen.succeed(ms, PROOF_ALERT_MS);
    }

    /// A proof generation failed.
    pub fn record_proof_failure(&mut self)
        ensures
            final(self)@ == (MetricsView { proof_gen: old(self)@.proof_gen.failed(), ..old(self)@ }),
            final(self).wf() == old(self).wf(),
            final(self).finality_seq() == old(self).finality_seq(),
            final(self).latency_seq() == old(self).latency_seq(),
            final(self).corridor_seq() == old(self).corridor_seq(),
    {
        self.proof_gen.fail();
    }

    /// A settlement has started.
    pub fn record_settlement_start(&mut self)
        ensures
            final(self)@ == (MetricsView { settlement: old(self)@.settlement.started(), ..old(self)@ }),
            final(self).wf() == old(self).wf(),
            final(self).finality_seq() == old(self).finality_seq(),
            final(self).latency_seq() == old(self).latency_seq(),
            final(self).corridor_seq() == old(self).corridor_seq(),
    {
        self.settlement.start();
    }

    /// A settlement completed in `ms` milliseconds; above 60 000 ms it breaches the SLA.
    pub fn record_settlement_success(&mut self, ms: u64)
        ensures
            final(self)@ == (MetricsView {
                settlement: old(self)@.settlement.succeeded(ms, SETTLEMENT_ALERT_MS),
                ..old(self)@
            }),
            final(self).wf() == old(self).wf(),
            final(self).finality_seq() == old(self).finality_seq(),
            final(self).latency_seq() == old(self).latency_seq(),
            final(self).corridor_seq() == old(self).corridor_seq(),
    {
        self.settlement.succeed(ms, SETTLEMENT_ALERT_MS);
    }

    /// A settlement failed.
    pub fn record_settlement_failure(&mut self)
        ensures
            final(self)@ == (MetricsView { settlement: old(self)@.settlement.failed(), ..old(self)@ }),
            final(self).wf() == old(self).wf(),
            final(self).finality_seq() == old(self).finality_seq(),
            final(self).latency_seq() == old(self).latency_seq(),
            final(self).corridor_seq() == old(self).corridor_seq(),
    {
        self.settlement.fail();
    }

    /// A batch of `size` events was flushed.
    pub fn record_batch_flushed(&mut self, size: usize)
        ensures
            final(self)@ == (MetricsView { batches: old(self)@.batches.with_batch(size as u64), ..old(self)@ }),
            final(self).wf() == old(self).wf(),
            final(self).finality_seq() == old(self).finality_seq(),
            final(self).latency_seq() == old(self).latency_seq(),
            final(self).corridor_seq() == old(self).corridor_seq(),
    {
        let n = size as u64;
        self.batches.flushed = wrapping_inc(self.batches.flushed, 1);
        self.batches.events = wrapping_inc(self.batches.events, n);
        self.batches.size_sum = wrapping_inc(self.batches.size_sum, n);
        if n > self.batches.size_max {
            self.batches.size_max = n;
        }
    }

    /// Current number of queued events.
    pub fn set_queue_depth(&mut self, depth: usize)
        ensures
            final(self)@ == (MetricsView { queue_depth: depth as u64, ..old(self)@ }),
            final(self).wf() == old(self).wf(),
            final(self).finality_seq() == old(self).finality_seq(),
            final(self).latency_seq() == old(self).latency_seq(),
            final(self).corridor_seq() == old(self).corridor_seq(),
    {
        self.queue_depth = depth as u64;
    }

    /// An on-chain verification took `ms` milliseconds; above 500 ms it raises an alert.
    pub fn record_verification(&mut self, ms: u64)
        ensures
            final(self)@ == (MetricsView { verification: old(self)@.verification.recorded(ms), ..old(self)@ }),
            final(self).wf() == old(self).wf(),
            final(self).finality_seq() == old(self).finality_seq(),
            final(self).latency_seq() == old(self).latency_seq(),
            final(self).corridor_seq() == old(self).corridor_seq(),
    {
        self.verification.total = wrapping_inc(self.verification.total, 1);
        self.verification.ms_sum = wrapping_inc(self.verification.ms_sum, ms);
        if ms > self.verification.ms_max {
            self.verification.ms_max = ms;
        }
        if ms > VERIFY_ALERT_MS {
            self.verification.alerts = wrapping_inc(self.verification.alerts, 1);
        }
    }
    /// One more finality observation of `lag_ms` for a chain.
    pub fn record_chain_finality(&mut self, chain_id: u32, lag_ms: u64)
        requires
            old(self).wf(),
            old(self)@.chain_finality.dom().contains(chain_id) ==> old(self)@.chain_finality[chain_id].ms_sum + lag_ms
                <= u64::MAX && old(self)@.chain_finality[chain_id].count < u64::MAX,
        ensures
            final(self).wf(),
            final(self)@ == (MetricsView {
                chain_finality: old(self)@.chain_finality.insert(
                    chain_id,
                    if old(self)@.chain_finality.dom().contains(chain_id) {
                        ChainFinality {
                            chain_id,
                            ms_sum: (old(self)@.chain_finality[chain_id].ms_sum + lag_ms) as u64,
                            count: (old(self)@.chain_finality[chain_id].count + 1) as u64,
                        }
                    } else {
                        ChainFinality { chain_id, ms_sum: lag_ms, count: 1 }
                    },
                ),
                ..old(self)@
            }),
            final(self).latency_seq() == old(self).latency_seq(),
            final(self).corridor_seq() == old(self).corridor_seq(),
            final(self).finality_seq().len() >= old(self).finality_seq().len(),
    {
        let ghost old_s = self.chain_finality@;
        match find_finality(&self.chain_finality, chain_id) {
            Some(i) => {
                proof { lemma_keyed_at(old_s, finality_key(), i as int); }
                let cur = self.chain_finality[i];
                let e = ChainFinality { chain_id, ms_sum: cur.ms_sum + lag_ms, count: cur.count + 1 };
                self.chain_finality.set(i, e);
                proof {
                    lemma_keyed_update(old_s, finality_key(), i as int, e);
                    assert(self.chain_finality@ == old_s.update(i as int, e));
                }
            },
            None => {
                let e = ChainFinality { chain_id, ms_sum: lag_ms, count: 1 };
                self.chain_finality.push(e);
                proof { lemma_keyed_push(old_s, finality_key(), e); }
            },
        }
    }

    /// Latest RPC latency of a chain.
    pub fn set_chain_rpc_latency(&mut self, chain_id: u32, latency_ms: u64)
        requires
            old(self).wf(),
        ensures
            final(self).wf(),
            final(self)@ == (MetricsView {
                chain_rpc_latency: old(self)@.chain_rpc_latency.insert(chain_id, ChainLatency { chain_id, latency_ms }),
                ..old(self)@
            }),
            final(self).finality_seq() == old(self).finality_seq(),
            final(self).corridor_seq() == old(self).corridor_seq(),
    {
        let ghost old_s = self.chain_rpc_latency@;
        let e = ChainLatency { chain_id, latency_ms };
        match find_latency(&self.chain_rpc_latency, chain_id) {
            Some(i) => {
                self.chain_rpc_latency.set(i, e);
                proof {
                    lemma_keyed_update(old_s, latency_key(), i as int, e);
                    assert(self.chain_rpc_latency@ == old_s.update(i as int, e));
                }
            },
            None => {
                self.chain_rpc_latency.push(e);
                proof { lemma_keyed_push(old_s, latency_key(), e); }
            },
        }
    }

    /// Mean finality lag of a chain in milliseconds; 0 for an unknown chain.
    pub fn chain_finality_mean_ms(&self, chain_id: u32) -> (r: u64)
        requires
            self.wf(),
        ensures
            r == (if self@.chain_finality.dom().contains(chain_id) {
                mean_spec(self@.chain_finality[chain_id].ms_sum, self@.chain_finality[chain_id].count)
            } else {
                0
            }),
    {
        match find_finality(&self.chain_finality, chain_id) {
            Some(i) => {
                proof { lemma_keyed_at(self.chain_finality@, finality_key(), i as int); }
                mean(self.chain_finality[i].ms_sum, self.chain_finality[i].count)
            },
            None => mean(0, 0),
        }
    }

    /// One more transfer today, on the corridor from `src_chain` to `dst_chain`.
    pub fn record_transfer(&mut self, src_chain: u32, dst_chain: u32)
        requires
            old(self).wf(),
            old(self)@.corridors.dom().contains((src_chain, dst_chain)) ==> old(self)@.corridors[(
                src_chain,
                dst_chain,
            )].count < u64::MAX,
        ensures
            final(self).wf(),
            final(self)@ == (MetricsView {
                daily_transfers: wadd(old(self)@.daily_transfers, 1),
                corridors: old(self)@.corridors.insert(
                    (src_chain, dst_chain),
                    CorridorCount {
                        src_chain,
                        dst_chain,
                        count: if old(self)@.corridors.dom().contains((src_chain, dst_chain)) {
                            (old(self)@.corridors[(src_chain, dst_chain)].count + 1) as u64
                        } else {
                            1
                        },
                    },
                ),
                ..old(self)@
            }),
            final(self).finality_seq() == old(self).finality_seq(),
            final(self).latency_seq() == old(self).latency_seq(),
    {
        self.daily_transfers = wrapping_inc(self.daily_transfers, 1);
        let ghost old_s = self.corridors@;
        match find_corridor(&self.corridors, src_chain, dst_chain) {
            Some(i) => {
                proof { lemma_keyed_at(old_s, corridor_key(), i as int); }
                let e = CorridorCount { src_chain, dst_chain, count: self.corridors[i].count + 1 };
                self.corridors.set(i, e);
                proof {
                    lemma_keyed_update(old_s, corridor_key(), i as int, e);
                    assert(self.corridors@ == old_s.update(i as int, e));
                }
            },
            None => {
                let e = CorridorCount { src_chain, dst_chain, count: 1 };
                self.corridors.push(e);
                proof { lemma_keyed_push(old_s, corridor_key(), e); }
            },
        }
    }

    /// One more distinct user.
    pub fn record_unique_user(&mut self)
        ensures
            final(self)@ == (MetricsView { unique_users: wadd(old(self)@.unique_users, 1), ..old(self)@ }),
            final(self).wf() == old(self).wf(),
            final(self).finality_seq() == old(self).finality_seq(),
            final(self).latency_seq() == old(self).latency_seq(),
            final(self).corridor_seq() == old(self).corridor_seq(),
    {
        self.unique_users = wrapping_inc(self.unique_users, 1);
    }

    /// Start a new day: daily transfers, daily volume and corridors are
    /// cleared; cumulative figures are kept.
    pub fn reset_daily(&mut self)
        requires
            old(self).wf(),
        ensures
            final(self).wf(),
            final(self)@ == (MetricsView {
                daily_transfers: 0,
                daily_volume_usd_cents: 0,
                corridors: Map::<(u32, u32), CorridorCount>::empty(),
                ..old(self)@
            }),
            final(self).finality_seq() == old(self).finality_seq(),
            final(self).latency_seq() == old(self).latency_seq(),
            final(self).corridor_seq().len() == 0,
    {
        self.daily_transfers = 0;
        self.daily_volume_usd_cents = 0;
        self.corridors = Vec::new();
        proof {
            lemma_keyed_empty(corridor_key());
            assert(self.corridors@ =~= Seq::<CorridorCount>::empty());
        }
    }

    /// Current total value locked, in USD cents.
    pub fn set_tvl_usd_cents(&mut self, cents: u64)
        ensures
            final(self)@ == (MetricsView { tvl_usd_cents: cents, ..old(self)@ }),
            final(self).wf() == old(self).wf(),
            final(self).finality_seq() == old(self).finality_seq(),
            final(self).latency_seq() == old(self).latency_seq(),
            final(self).corridor_seq() == old(self).corridor_seq(),
    {
        self.tvl_usd_cents = cents;
    }

    /// Transferred volume, added to the daily and the cumulative figure.
    pub fn record_volume_usd_cents(&mut self, cents: u64)
        ensures
            final(self)@ == (MetricsView {
                daily_volume_usd_cents: wadd(old(self)@.daily_volume_usd_cents, cents),
                cumulative_volume_usd_cents: wadd(old(self)@.cumulative_volume_usd_cents, cents),
                ..old(self)@
            }),
            final(self).wf() == old(self).wf(),
            final(self).finality_seq() == old(self).finality_seq(),
            final(self).latency_seq() == old(self).latency_seq(),
            final(self).corridor_seq() == old(self).corridor_seq(),
    {
        self.daily_volume_usd_cents = wrapping_inc(self.daily_volume_usd_cents, cents);
        self.cumulative_volume_usd_cents = wrapping_inc(self.cumulative_volume_usd_cents, cents);
    }

    /// Total value locked, in USD cents.
    pub fn tvl_usd_cents(&self) -> (r: u64)
        ensures
            r == self@.tvl_usd_cents,
    {
        self.tvl_usd_cents
    }

    /// Volume today, in USD cents.
    pub fn daily_volume_usd_cents(&self) -> (r: u64)
        ensures
            r == self@.daily_volume_usd_cents,
    {
        self.daily_volume_usd_cents
    }

    /// Volume since start, in USD cents.
    pub fn cumulative_volume_usd_cents(&self) -> (r: u64)
        ensures
            r == self@.cumulative_volume_usd_cents,
    {
        self.cumulative_volume_usd_cents
    }

    /// Validator heartbeats received and expected.
    pub fn record_validator_heartbeats(&mut self, received: u64, expected: u64)
        ensures
            final(self)@ == (MetricsView {
                heartbeats_received: wadd(old(self)@.heartbeats_received, received),
                heartbeats_expected: wadd(old(self)@.heartbeats_expected, expected),
                ..old(self)@
            }),
            final(self).wf() == old(self).wf(),
            final(self).finality_seq() == old(self).finality_seq(),
            final(self).latency_seq() == old(self).latency_seq(),
            final(self).corridor_seq() == old(self).corridor_seq(),
    {
        self.heartbeats_received = wrapping_inc(self.heartbeats_received, received);
        self.heartbeats_expected = wrapping_inc(self.heartbeats_expected, expected);
    }

    /// Validator heartbeats received and expected so far.
    pub fn validator_heartbeats(&self) -> (r: (u64, u64))
        ensures
            r == (self@.heartbeats_received, self@.heartbeats_expected),
    {
        (self.heartbeats_received, self.heartbeats_expected)
    }

    /// Proof generation statistics.
    pub fn proof_gen_stats(&self) -> (r: LatencyStats)
        ensures
            r == self@.proof_gen,
    {
        self.proof_gen
    }

    /// Settlement statistics.
    pub fn settlement_stats(&self) -> (r: LatencyStats)
        ensures
            r == self@.settlement,
    {
        self.settlement
    }

    /// Batch statistics.
    pub fn batch_stats(&self) -> (r: BatchStats)
        ensures
            r == self@.batches,
    {
        self.batches
    }

    /// Verification statistics.
    pub fn verification_stats(&self) -> (r: VerifyStats)
        ensures
            r == self@.verification,
    {
        self.verification
    }

    /// Queued events.
    pub fn queue_depth(&self) -> (r: u64)
        ensures
            r == self@.queue_depth,
    {
        self.queue_depth
    }

    /// Transfers today and distinct users seen.
    pub fn user_counts(&self) -> (r: (u64, u64))
        ensures
            r == (self@.daily_transfers, self@.unique_users),
    {
        (self.daily_transfers, self.unique_users)
    }
    /// The `n` busiest corridors of the day (all of them if there are fewer),
    /// busiest first, each as its name and transfer count.
    pub fn top_corridors(&self, n: usize) -> (r: Vec<(String, u64)>)
        requires
            self.wf(),
        ensures
            exists|idx: Seq<int>|
                #[trigger] is_top_selection(self.corridor_seq(), n as nat, idx) && r@.len() == idx.len() && forall|t: int|
                    0 <= t < idx.len() ==> r@[t].0@ == corridor_name(self.corridor_seq()[idx[t]]) && r@[t].1
                        == self.corridor_seq()[idx[t]].count,
    {
        let m = self.corridors.len();
        let limit = if n < m {
            n
        } else {
            m
        };
        let ghost s = self.corridors@;
        let mut used: Vec<bool> = Vec::new();
        while used.len() < m
            invariant
                used@.len() <= m,
                forall|j: int| 0 <= j < used@.len() ==> !used@[j],
            decreases m - used@.len(),
        {
            used.push(false);
        }
        let mut r: Vec<(String, u64)> = Vec::new();
        let ghost mut idx: Seq<int> = Seq::empty();
        while r.len() < limit
            invariant
                m == s.len(),
                s == self.corridors@,
                limit == (if n < m {
                    n
                } else {
                    m
                }),
                used@.len() == m,
                r@.len() == idx.len(),
                idx.len() <= limit,
                forall|j: int| 0 <= j < m ==> (used@[j] <==> idx.contains(j)),
                forall|t: int| 0 <= t < idx.len() ==> 0 <= #[trigger] idx[t] < m,
                forall|t: int, u: int| 0 <= t < u < idx.len() ==> #[trigger] idx[t] != #[trigger] idx[u],
                forall|t: int, u: int|
                    0 <= t < u < idx.len() ==> s[#[trigger] idx[t]].count >= s[#[trigger] idx[u]].count,
                forall|j: int, t: int|
                    0 <= j < m && 0 <= t < idx.len() && !idx.contains(j) ==> (#[trigger] s[j]).count <= s[#[trigger] idx[t]].count,
                forall|t: int|
                    0 <= t < idx.len() ==> (#[trigger] r@[t]).0@ == corridor_name(s[idx[t]]) && r@[t].1 == s[idx[t]].count,
            decreases limit - r@.len(),
        {
            let mut best: usize = 0;
            let mut found = false;
            let mut j: usize = 0;
            while j < m
                invariant
                    m == s.len(),
                    s == self.corridors@,
                    used@.len() == m,
                    j <= m,
                    found ==> best < j && !used@[best as int],
                    found ==> forall|k: int| 0 <= k < j && !used@[k] ==> (#[trigger] s[k]).count <= s[best as int].count,
                    !found ==> forall|k: int| 0 <= k < j ==> used@[k],
                decreases m - j,
            {
                if !used[j] && (!found || self.corridors[j].count > self.corridors[best].count) {
                    best = j;
                    found = true;
                }
                j = j + 1;
            }
            proof {
                if !found {
                    lemma_missing_index(idx, m as int);
                    let k = choose|k: int| 0 <= k < m && !idx.contains(k);
                    assert(used@[k]);
                }
                assert(!idx.contains(best as int));
            }
            let label = corridor_label(&self.corridors[best]);
            r.push((label, self.corridors[best].count));
            let ghost old_used = used@;
            used.set(best, true);
            proof {
                let old_idx = idx;
                idx = idx.push(best as int);
                assert forall|q: int| 0 <= q < m implies (used@[q] <==> idx.contains(q)) by {
                    if q == best as int {
                        assert(idx[old_idx.len() as int] == q);
                    } else if used@[q] {
                        assert(old_used[q]);
                        assert(old_idx.contains(q));
                        let t = choose|t: int| 0 <= t < old_idx.len() && old_idx[t] == q;
                        assert(idx[t] == q);
                    } else if idx.contains(q) {
                        let t = choose|t: int| 0 <= t < idx.len() && idx[t] == q;
                        assert(old_idx[t] == q);
                        assert(old_idx.contains(q));
                    }
                }
                assert forall|q: int, t: int|
                    0 <= q < m && 0 <= t < idx.len() && !idx.contains(q) implies (#[trigger] s[q]).count <= s[#[trigger] idx[t]].count by {
                    assert(!old_idx.contains(q)) by {
                        if old_idx.contains(q) {
                            let w = choose|w: int| 0 <= w < old_idx.len() && old_idx[w] == q;
                            assert(idx[w] == q);
                        }
                    }
                    assert(!old_used[q]);
                }
                assert forall|t: int, u: int| 0 <= t < u < idx.len() implies s[#[trigger] idx[t]].count >= s[#[trigger] idx[u]].count by {
                    if u == old_idx.len() {
                        assert(!old_idx.contains(best as int));
                    }
                }
            }
        }
        proof {
            assert(is_top_selection(self.corridor_seq(), n as nat, idx));
            assert(forall|t: int| 0 <= t < idx.len() ==> r@[t].0@ == corridor_name(self.corridor_seq()[idx[t]]) && r@[t].1
                == self.corridor_seq()[idx[t]].count);
        }
        r
    }

    /// All metrics in the Prometheus text format: the job, batch, queue and
    /// verification figures, then per chain the mean finality lag and the
    /// latest RPC latency, then the user, TVL and validator figures.
    pub fn prometheus_text(&self) -> (r: String)
        ensures
            r@ == totals_text(latency_blocks(finality_blocks(pipeline_text(self@), self.finality_seq()), self.latency_seq()), self@),
    {
        let mut out = String::new();
        let proof_ok = self.proof_gen.success;
        let proof_mean = mean(self.proof_gen.ms_sum, proof_ok);
        let settle_ok = self.settlement.success;
        let settle_mean = mean(self.settlement.ms_sum, settle_ok);
        let batches = self.batches.flushed;
        let batch_mean = mean(self.batches.size_sum, batches);

        write_counter(&mut out, "interlink_proof_gen_total", "Total proof generation attempts", self.proof_gen.total);
        write_counter(&mut out, "interlink_proof_gen_success_total", "Successful proof generations", proof_ok);
        write_counter(&mut out, "interlink_proof_gen_failure_total", "Failed proof generations", self.proof_gen.failure);
        write_gauge(&mut out, "interlink_proof_gen_ms_mean", "Mean proof gen time ms \u{2014} target <100 vs Wormhole 300+", proof_mean);
        write_gauge(&mut out, "interlink_proof_gen_ms_max", "Max proof gen time ms seen", self.proof_gen.ms_max);
        write_counter(&mut out, "interlink_proof_gen_alert_total", "Proofs exceeding 1000ms alert threshold", self.proof_gen.alerts);

        write_counter(&mut out, "interlink_settlement_total", "Total settlement pipeline attempts", self.settlement.total);
        write_counter(&mut out, "interlink_settlement_success_total", "Successful end-to-end settlements", settle_ok);
        write_counter(&mut out, "interlink_settlement_failure_total", "Failed settlements", self.settlement.failure);
        write_gauge(&mut out, "interlink_settlement_ms_mean", "Mean settlement ms \u{2014} target <30000 vs Wormhole 120000+", settle_mean);
        write_gauge(&mut out, "interlink_settlement_ms_max", "Max settlement ms seen", self.settlement.ms_max);
        write_counter(&mut out, "interlink_settlement_sla_breach_total", "Settlements exceeding 60s SLA", self.settlement.alerts);

        write_counter(&mut out, "interlink_batches_flushed_total", "Total batches dispatched to proof pipeline", batches);
        write_counter(&mut out, "interlink_events_processed_total", "Total events processed across all batches", self.batches.events);
        write_gauge(&mut out, "interlink_batch_size_mean", "Mean events per batch \u{2014} target 100-1000 vs Wormhole 1-20", batch_mean);
        write_gauge(&mut out, "interlink_batch_size_max", "Largest single batch seen", self.batches.size_max);

        write_gauge(&mut out, "interlink_queue_depth", "Events buffered in mpsc channel, not yet dispatched", self.queue_depth);

        let verify_total = self.verification.total;
        let verify_mean = mean(self.verification.ms_sum, verify_total);
        write_counter(&mut out, "interlink_verify_total", "On-chain verification calls", verify_total);
        write_gauge(&mut out, "interlink_verify_ms_mean", "Mean on-chain verification latency ms", verify_mean);
        write_gauge(&mut out, "interlink_verify_ms_max", "Max on-chain verification latency ms", self.verification.ms_max);
        write_counter(&mut out, "interlink_verify_alert_total", "Verifications exceeding 500ms alert threshold", self.verification.alerts);
        assert(out@ == pipeline_text(self@));

        self.write_chain_finality(&mut out);
        self.write_chain_latency(&mut out);

        let ghost before_totals = out@;
        write_gauge(&mut out, "interlink_daily_transfers", "Transfers in the current UTC day", self.daily_transfers);
        write_gauge(&mut out, "interlink_unique_users_total", "Distinct sender addresses seen (lifetime)", self.unique_users);
        write_gauge(&mut out, "interlink_tvl_usd_cents", "Total value locked in bridge vaults (USD cents)", self.tvl_usd_cents);
        write_gauge(&mut out, "interlink_daily_volume_usd_cents", "Daily transfer volume (USD cents)", self.daily_volume_usd_cents);
        write_counter(&mut out, "interlink_cumulative_volume_usd_cents", "All-time cumulative transfer volume (USD cents)", self.cumulative_volume_usd_cents);
        write_counter(&mut out, "interlink_validator_heartbeats_total", "Validator heartbeats received", self.heartbeats_received);
        write_counter(&mut out, "interlink_validator_heartbeats_expected", "Validator heartbeats expected", self.heartbeats_expected);
        assert(out@ == totals_text(before_totals, self@));
        out
    }

    fn write_chain_finality(&self, out: &mut String)
        ensures
            final(out)@ == finality_blocks(old(out)@, self.finality_seq()),
    {
        let ghost start = out@;
        let mut i: usize = 0;
        while i < self.chain_finality.len()
            invariant
                i <= self.chain_finality@.len(),
                out@ == finality_blocks(start, self.chain_finality@.take(i as int)),
            decreases self.chain_finality@.len() - i,
        {
            let c = self.chain_finality[i];
            let mut name = String::new();
            name.append("interlink_chain_");
            let id = decimal(c.chain_id as u64);
            name.append(id.as_str());
            name.append("_finality_ms_mean");
            let mut help = String::new();
            help.append("Mean finality lag ms for chain ");
            help.append(id.as_str());
            let m = mean(c.ms_sum, c.count);
            write_gauge(out, name.as_str(), help.as_str(), m);
            proof {
                let t = self.chain_finality@.take(i as int + 1);
                assert(t.drop_last() =~= self.chain_finality@.take(i as int));
                assert(t.last() == c);
                assert(name@ =~= "interlink_chain_"@ + dec_chars(c.chain_id as nat) + "_finality_ms_mean"@);
                assert(help@ =~= "Mean finality lag ms for chain "@ + dec_chars(c.chain_id as nat));
            }
            i = i + 1;
        }
        assert(self.chain_finality@.take(i as int) =~= self.chain_finality@);
    }

    fn write_chain_latency(&self, out: &mut String)
        ensures
            final(out)@ == latency_blocks(old(out)@, self.latency_seq()),
    {
        let ghost start = out@;
        let mut i: usize = 0;
        while i < self.chain_rpc_latency.len()
            invariant
                i <= self.chain_rpc_latency@.len(),
                out@ == latency_blocks(start, self.chain_rpc_latency@.take(i as int)),
            decreases self.chain_rpc_latency@.len() - i,
        {
            let c = self.chain_rpc_latency[i];
            let mut name = String::new();
            name.append("interlink_chain_");
            let id = decimal(c.chain_id as u64);
            name.append(id.as_str());
            name.append("_rpc_latency_ms");
            let mut help = String::new();
            help.append("Latest RPC latency ms for chain ");
            help.append(id.as_str());
            write_gauge(out, name.as_str(), help.as_str(), c.latency_ms);
            proof {
                let t = self.chain_rpc_latency@.take(i as int + 1);
                assert(t.drop_last() =~= self.chain_rpc_latency@.take(i as int));
                assert(t.last() == c);
                assert(name@ =~= "interlink_chain_"@ + dec_chars(c.chain_id as nat) + "_rpc_latency_ms"@);
                assert(help@ =~= "Latest RPC latency ms for chain "@ + dec_chars(c.chain_id as nat));
            }
            i = i + 1;
        }
        assert(self.chain_rpc_latency@.take(i as int) =~= self.chain_rpc_latency@);
    }
}

} // verus!
