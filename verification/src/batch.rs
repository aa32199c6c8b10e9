//! Batching of gateway events: a batch closes when it reaches its size limit
//! or when its flush interval has elapsed.
use vstd::prelude::*;
use std::time::{Duration, Instant};
use crate::events::{block_of, GatewayEvent};

verus! {

#[verifier::external_type_specification]
#[verifier::external_body]
pub struct ExInstant(Instant);

/// Wraps `std::time::Instant::now`; nothing is claimed of the instant.
#[verifier::external_body]
fn instant_now() -> Instant {
    Instant::now()
}

/// Wraps `std::time::Instant::elapsed`; the result depends on the clock, so
/// nothing is claimed of it.
#[verifier::external_body]
fn elapsed_since(start: &Instant) -> Duration {
    start.elapsed()
}

/// Wraps `Duration::as_nanos`; durations are opaque here, so nothing is
/// claimed of the number.
#[verifier::external_body]
fn duration_nanos(d: &Duration) -> u128 {
    d.as_nanos()
}

/// The timer rule: a batch is due when it holds events and the time it has
/// been open reaches the flush interval.
pub open spec fn timer_due_spec(pending: nat, elapsed_nanos: u128, interval_nanos: u128) -> bool {
    pending > 0 && elapsed_nanos >= interval_nanos
}

/// The timer rule on given values.
pub fn timer_due(pending: usize, elapsed_nanos: u128, interval_nanos: u128) -> (r: bool)
    ensures
        r == timer_due_spec(pending as nat, elapsed_nanos, interval_nanos),
{
    pending > 0 && elapsed_nanos >= interval_nanos
}

/// Smallest block number among the events (0 for none).
pub open spec fn min_block_of(s: Seq<GatewayEvent>) -> u64
    decreases s.len(),
{
    if s.len() == 0 {
        0
    } else if s.len() == 1 {
        block_of(s[0])
    } else {
        let m = min_block_of(s.drop_last());
        if block_of(s.last()) < m { block_of(s.last()) } else { m }
    }
}

/// Largest block number among the events (0 for none).
pub open spec fn max_block_of(s: Seq<GatewayEvent>) -> u64
    decreases s.len(),
{
    if s.len() == 0 {
        0
    } else if s.len() == 1 {
        block_of(s[0])
    } else {
        let m = max_block_of(s.drop_last());
        if block_of(s.last()) > m { block_of(s.last()) } else { m }
    }
}

/// A closed batch of events.
#[derive(Debug)]
pub struct EventBatch {
    pub events: Vec<GatewayEvent>,
    /// How long the batch was open.
    pub open_duration: Duration,
    pub batch_id: u64,
}

impl EventBatch {
    /// Number of events.
    pub fn len(&self) -> (r: usize)
        ensures
            r == self.events@.len(),
    {
        self.events.len()
    }

    /// Whether the batch has no events.
    pub fn is_empty(&self) -> (r: bool)
        ensures
            r == (self.events@.len() == 0),
    {
        self.events.len() == 0
    }

    /// Smallest block number in the batch (0 when empty).
    pub fn min_block(&self) -> (r: u64)
        ensures
            r == min_block_of(self.events@),
    {
        let n = self.events.len();
        if n == 0 {
            return 0;
        }
        let mut m = self.events[0].block_number();
        let mut i: usize = 1;
        while i < n
            invariant
                1 <= i <= n,
                n == self.events@.len(),
                m == min_block_of(self.events@.take(i as int)),
            decreases n - i,
        {
            assert(self.events@.take(i + 1).drop_last() =~= self.events@.take(i as int));
            let b = self.events[i].block_number();
            if b < m {
                m = b;
            }
            i = i + 1;
        }
        assert(self.events@.take(n as int) =~= self.events@);
        m
    }

    /// Largest block number in the batch (0 when empty).
    pub fn max_block(&self) -> (r: u64)
        ensures
            r == max_block_of(self.events@),
    {
        let n = self.events.len();
        if n == 0 {
            return 0;
        }
        let mut m = self.events[0].block_number();
        let mut i: usize = 1;
        while i < n
            invariant
                1 <= i <= n,
                n == self.events@.len(),
                m == max_block_of(self.events@.take(i as int)),
            decreases n - i,
        {
            assert(self.events@.take(i + 1).drop_last() =~= self.events@.take(i as int));
            let b = self.events[i].block_number();
            if b > m {
                m = b;
            }
            i = i + 1;
        }
        assert(self.events@.take(n as int) =~= self.events@);
        m
    }
}

/// Collects events into batches.
pub struct BatchCollector {
    pending: Vec<GatewayEvent>,
    opened_at: Instant,
    max_size: usize,
    interval_nanos: u128,
    next_batch_id: u64,
}

impl BatchCollector {
    /// Events waiting in the open batch.
    pub closed spec fn pending_spec(&self) -> Seq<GatewayEvent> {
        self.pending@
    }

    /// Size at which a batch closes.
    pub closed spec fn max_size_spec(&self) -> usize {
        self.max_size
    }

    /// ID the next batch will carry.
    pub closed spec fn next_id_spec(&self) -> u64 {
        self.next_batch_id
    }

    /// The flush interval in nanoseconds.
    pub closed spec fn interval_nanos_spec(&self) -> u128 {
        self.interval_nanos
    }

    /// An empty collector whose batches close at `max_size` events or after
    /// `flush_interval_ms` milliseconds.
    pub fn new(max_size: usize, flush_interval_ms: u64) -> (r: Self)
        ensures
            r.pending_spec().len() == 0,
            r.max_size_spec() == max_size,
            r.next_id_spec() == 0,
            r.interval_nanos_spec() == flush_interval_ms * 1_000_000,
    {
        let interval_nanos = flush_interval_ms as u128 * 1_000_000;
        BatchCollector { pending: Vec::new(), opened_at: instant_now(), max_size, interval_nanos, next_batch_id: 0 }
    }

    fn flush(&mut self) -> (b: EventBatch)
        requires
            old(self).next_id_spec() < u64::MAX,
        ensures
            b.events@ == old(self).pending_spec(),
            b.batch_id == old(self).next_id_spec(),
            final(self).pending_spec().len() == 0,
            final(self).next_id_spec() == old(self).next_id_spec() + 1,
            final(self).max_size_spec() == old(self).max_size_spec(),
            final(self).interval_nanos_spec() == old(self).interval_nanos_spec(),
    {
        let mut events: Vec<GatewayEvent> = Vec::new();
        std::mem::swap(&mut events, &mut self.pending);
        let open_duration = elapsed_since(&self.opened_at);
        self.opened_at = instant_now();
        let batch_id = self.next_batch_id;
        self.next_batch_id = self.next_batch_id + 1;
        EventBatch { events, open_duration, batch_id }
    }

    /// Add an event; returns the closed batch when it reaches the size limit.
    pub fn push(&mut self, event: GatewayEvent) -> (r: Option<EventBatch>)
        requires
            old(self).pending_spec().len() + 1 >= old(self).max_size_spec() ==> old(self).next_id_spec() < u64::MAX,
        ensures
            final(self).max_size_spec() == old(self).max_size_spec(),
            final(self).interval_nanos_spec() == old(self).interval_nanos_spec(),
            old(self).pending_spec().len() + 1 >= old(self).max_size_spec() ==> (r matches Some(b) && b.events@
                == old(self).pending_spec().push(event) && b.batch_id == old(self).next_id_spec())
                && final(self).pending_spec().len() == 0 && final(self).next_id_spec() == old(self).next_id_spec()
                + 1,
            old(self).pending_spec().len() + 1 < old(self).max_size_spec() ==> r is None
                && final(self).pending_spec() == old(self).pending_spec().push(event) && final(self).next_id_spec()
                == old(self).next_id_spec(),
    {
        self.pending.push(event);
        if self.pending.len() >= self.max_size {
            Some(self.flush())
        } else {
            None
        }
    }

    /// Whether the open batch has events and its flush interval has elapsed:
    /// `timer_due` of the events and the clock's elapsed time since the
    /// batch opened.
    pub fn is_timer_ready(&self) -> (r: bool)
        ensures
            exists|elapsed: u128|
                r == #[trigger] timer_due_spec(self.pending_spec().len(), elapsed, self.interval_nanos_spec()),
            self.pending_spec().len() == 0 ==> !r,
            self.pending_spec().len() > 0 && self.interval_nanos_spec() == 0 ==> r,
    {
        let elapsed = elapsed_since(&self.opened_at);
        let e = duration_nanos(&elapsed);
        let r = timer_due(self.pending.len(), e, self.interval_nanos);
        assert(r == timer_due_spec(self.pending_spec().len(), e, self.interval_nanos_spec()));
        r
    }

    /// Close the open batch if it has any events.
    pub fn flush_timer(&mut self) -> (r: Option<EventBatch>)
        requires
            old(self).pending_spec().len() > 0 ==> old(self).next_id_spec() < u64::MAX,
        ensures
            final(self).max_size_spec() == old(self).max_size_spec(),
            final(self).interval_nanos_spec() == old(self).interval_nanos_spec(),
            old(self).pending_spec().len() == 0 ==> r is None && final(self).pending_spec() == old(
                self,
            ).pending_spec() && final(self).next_id_spec() == old(self).next_id_spec(),
            old(self).pending_spec().len() > 0 ==> (r matches Some(b) && b.events@ == old(self).pending_spec()
                && b.batch_id == old(self).next_id_spec()) && final(self).pending_spec().len() == 0
                && final(self).next_id_spec() == old(self).next_id_spec() + 1,
    {
        if self.pending.len() == 0 {
            return None;
        }
        Some(self.flush())
    }

    /// The ID the next batch will carry.
    pub fn next_batch_id(&self) -> (r: u64)
        ensures
            r == self.next_id_spec(),
    {
        self.next_batch_id
    }

    /// Number of events in the open batch.
    pub fn pending_count(&self) -> (r: usize)
        ensures
            r == self.pending_spec().len(),
    {
        self.pending.len()
    }
}

} // verus!
