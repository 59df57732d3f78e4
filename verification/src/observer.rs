//! Host-side observability: lifecycle events, the built-in counters they
//! feed, and bounded latency histograms with fixed microsecond buckets.
//!
//! Events carry database names, modes, counts, durations and byte totals
//! only; key bytes, value bytes and hashes are never recorded.

use std::time::Duration;

use vstd::prelude::*;

use crate::error::{classify_error, ErrorClass, IdbError};
use crate::proto::TxnMode;

verus! {

/// Upper bounds (inclusive, microseconds) of the latency histogram
/// buckets; the last one is the overflow bucket.
pub const HISTOGRAM_BOUNDS_US: [u64; 9] = [
    1,
    10,
    100,
    1_000,
    10_000,
    100_000,
    1_000_000,
    10_000_000,
    18446744073709551615,
];

/// Number of latency histogram buckets.
pub const HISTOGRAM_BUCKETS: usize = 9;

/// Upper bound of bucket `i`.
pub open spec fn bound(i: int) -> u64 {
    if i == 0 {
        1
    } else if i == 1 {
        10
    } else if i == 2 {
        100
    } else if i == 3 {
        1_000
    } else if i == 4 {
        10_000
    } else if i == 5 {
        100_000
    } else if i == 6 {
        1_000_000
    } else if i == 7 {
        10_000_000
    } else {
        u64::MAX
    }
}

/// The bucket of a sample of `micros` microseconds: the first whose bound
/// is not below it.
pub open spec fn bucket_of(micros: u64) -> int {
    if micros <= 1 {
        0
    } else if micros <= 10 {
        1
    } else if micros <= 100 {
        2
    } else if micros <= 1_000 {
        3
    } else if micros <= 10_000 {
        4
    } else if micros <= 100_000 {
        5
    } else if micros <= 1_000_000 {
        6
    } else if micros <= 10_000_000 {
        7
    } else {
        8
    }
}

/// The bucket bounds are strictly increasing and each bucket holds exactly
/// the samples above the previous bound and up to its own.
pub proof fn lemma_buckets_partition(micros: u64)
    ensures
        forall|i: int, j: int| 0 <= i < j < 9 ==> bound(i) < bound(j),
        0 <= bucket_of(micros) < 9,
        micros <= bound(bucket_of(micros)),
        bucket_of(micros) > 0 ==> bound(bucket_of(micros) - 1) < micros,
{
}

proof fn lemma_bucket_at(micros: u64, i: int)
    requires
        0 <= i <= 8,
        forall|j: int| 0 <= j < i ==> #[trigger] bound(j) < micros,
        i < 8 ==> micros <= bound(i),
    ensures
        bucket_of(micros) == i,
{
    assert(i > 0 ==> bound(0) < micros);
    assert(i > 1 ==> bound(1) < micros);
    assert(i > 2 ==> bound(2) < micros);
    assert(i > 3 ==> bound(3) < micros);
    assert(i > 4 ==> bound(4) < micros);
    assert(i > 5 ==> bound(5) < micros);
    assert(i > 6 ==> bound(6) < micros);
    assert(i > 7 ==> bound(7) < micros);
}

/// What `Duration::as_micros` gives for `d`: the total number of whole
/// microseconds in it, a function of the duration alone.
pub uninterp spec fn duration_micros(d: Duration) -> u128;

/// Calls `Duration::as_micros`. Claimed: the result is the value
/// `duration_micros` names for `d`; nothing more is said of it.
#[verifier::external_body]
fn as_micros(d: Duration) -> (r: u128)
    ensures
        r == duration_micros(d),
{
    d.as_micros()
}

/// Calls `Duration::as_millis`. Claimed: the whole milliseconds of `d`
/// are the whole thousands of its whole microseconds (both methods count
/// whole units of the same total), so the result is `duration_micros(d)`
/// divided by 1000, rounded down.
#[verifier::external_body]
fn as_millis(d: Duration) -> (r: u128)
    ensures
        r == duration_micros(d) / 1000,
{
    d.as_millis()
}

/// Gives `Duration::clone` a contract. Claimed: `Duration` is `Copy`, so
/// the clone is the same value.
pub assume_specification[ <std::time::Duration as std::clone::Clone>::clone ](d: &Duration) -> (r: Duration)
    ensures
        r == *d,
;

/// A count saturated to `u64`.
pub open spec fn saturate(n: int) -> u64 {
    if n > u64::MAX {
        u64::MAX
    } else {
        n as u64
    }
}

/// Whole microseconds of a duration, saturating.
pub fn micros(duration: Duration) -> (r: u64)
    ensures
        r == saturate(duration_micros(duration) as int),
{
    let m = as_micros(duration);
    if m > 18446744073709551615u128 {
        u64::MAX
    } else {
        m as u64
    }
}

/// Whole milliseconds of a duration, saturating.
pub fn millis(duration: Duration) -> (r: u64)
    ensures
        r == saturate((duration_micros(duration) / 1000) as int),
{
    let m = as_millis(duration);
    if m > 18446744073709551615u128 {
        u64::MAX
    } else {
        m as u64
    }
}

/// The bucket a sample falls in.
pub fn bucket_index(micros: u64) -> (r: usize)
    ensures
        r == bucket_of(micros),
        r < HISTOGRAM_BUCKETS,
{
    let mut i: usize = 0;
    while i < 8
        invariant
            i <= 8,
            forall|j: int| 0 <= j < i ==> #[trigger] bound(j) < micros,
        decreases 8 - i,
    {
        assert(HISTOGRAM_BOUNDS_US@[i as int] == bound(i as int));
        if micros <= HISTOGRAM_BOUNDS_US[i] {
            proof {
                lemma_bucket_at(micros, i as int);
            }
            return i;
        }
        i = i + 1;
    }
    proof {
        lemma_bucket_at(micros, 8);
    }
    8
}

/// Sum of the first `n` counters.
pub open spec fn sum_prefix(s: Seq<u64>, n: int) -> int
    decreases n,
{
    if n <= 0 {
        0
    } else {
        sum_prefix(s, n - 1) + s[n - 1]
    }
}

/// Bounded latency histogram with fixed microsecond buckets.
#[derive(Debug, Clone)]
pub struct LatencyHistogram {
    buckets: [u64; 9],
}

impl View for LatencyHistogram {
    type V = Seq<u64>;

    closed spec fn view(&self) -> Seq<u64> {
        self.buckets@
    }
}

/// The counter sequence after one sample of `micros` microseconds.
pub open spec fn recorded(h: Seq<u64>, micros: u64) -> Seq<u64> {
    let i = bucket_of(micros);
    h.update(i, saturate(h[i] + 1))
}

impl LatencyHistogram {
    /// An empty histogram.
    pub fn new() -> (r: Self)
        ensures
            r@ == Seq::new(9, |_i: int| 0u64),
    {
        let r = LatencyHistogram { buckets: [0, 0, 0, 0, 0, 0, 0, 0, 0] };
        assert(r@ =~= Seq::new(9, |_i: int| 0u64));
        r
    }

    /// There are always exactly as many counters as buckets.
    pub proof fn lemma_len(&self)
        ensures
            self@.len() == HISTOGRAM_BUCKETS,
    {
    }

    /// Records one sample: the counter of its bucket goes up by one,
    /// saturating.
    pub fn record(&mut self, duration: Duration)
        ensures
            final(self)@ == recorded(old(self)@, micros_of(duration)),
    {
        let m = micros(duration);
        let idx = bucket_index(m);
        let c = self.buckets[idx];
        let n = if c == u64::MAX {
            u64::MAX
        } else {
            c + 1
        };
        self.buckets[idx] = n;
        assert(self@ =~= recorded(old(self)@, m));
    }

    /// The bucket counters, aligned with `HISTOGRAM_BOUNDS_US`.
    pub fn buckets(&self) -> (r: [u64; 9])
        ensures
            r@ == self@,
    {
        self.buckets
    }

    /// Total number of recorded samples (the sum of the counters, which
    /// must fit in `u64`).
    pub fn total(&self) -> (r: u64)
        requires
            sum_prefix(self@, 9) <= u64::MAX,
        ensures
            r == sum_prefix(self@, 9),
    {
        let mut sum: u64 = 0;
        let mut i: usize = 0;
        while i < 9
            invariant
                i <= 9,
                self.buckets@.len() == 9,
                sum == sum_prefix(self.buckets@, i as int),
                sum_prefix(self.buckets@, 9) <= u64::MAX,
            decreases 9 - i,
        {
            proof {
                lemma_sum_prefix_mono(self.buckets@, i + 1, 9);
            }
            sum = sum + self.buckets[i];
            i = i + 1;
        }
        sum
    }
}

/// Saturated microseconds of a duration, as `record` buckets it.
pub open spec fn micros_of(d: Duration) -> u64 {
    saturate(duration_micros(d) as int)
}

proof fn lemma_sum_prefix_mono(s: Seq<u64>, a: int, b: int)
    requires
        0 <= a <= b,
    ensures
        sum_prefix(s, a) <= sum_prefix(s, b),
    decreases b - a,
{
    if a < b {
        lemma_sum_prefix_mono(s, a, b - 1);
    }
}

impl Default for LatencyHistogram {
    fn default() -> (r: Self)
        ensures
            r@ == Seq::new(9, |_i: int| 0u64),
    {
        LatencyHistogram::new()
    }
}

/// Host-visible lifecycle event; all variants carry plain data only.
#[derive(Debug, Clone, PartialEq, Eq)]
#[non_exhaustive]
pub enum IdbEvent {
    /// A database connection finished opening.
    DatabaseOpened { database: String, version: u64 },
    /// A backend transaction started executing.
    TransactionBegun { txn: u64, database: String, mode: TxnMode, scope_len: usize },
    /// A backend transaction committed.
    TransactionCommitted {
        txn: u64,
        database: String,
        duration: Duration,
        bytes_read: u64,
        bytes_written: u64,
    },
    /// A backend transaction aborted.
    TransactionAborted { txn: u64, database: String },
    /// One queued request finished executing (success or failure).
    RequestCompleted {
        txn: u64,
        request: u64,
        duration: Duration,
        bytes_read: u64,
        bytes_written: u64,
        failed: bool,
    },
    /// A quota check rejected an operation.
    QuotaExceeded { database: String },
    /// Stored data failed integrity validation on read.
    Corruption { database: String },
}

/// The dedicated event of a request error, if its class has one.
pub fn error_event(database: &str, error: &IdbError) -> (r: Option<IdbEvent>)
    ensures
        match *error {
            IdbError::QuotaExceeded { .. } => r matches Some(IdbEvent::QuotaExceeded { database: d }) && d@ == database@,
            IdbError::NotReadable(_) => r matches Some(IdbEvent::Corruption { database: d }) && d@ == database@,
            _ => r is None,
        },
{
    match classify_error(error) {
        Some(ErrorClass::Quota) => Some(IdbEvent::QuotaExceeded { database: database.to_owned() }),
        Some(ErrorClass::Corruption) => Some(IdbEvent::Corruption { database: database.to_owned() }),
        None => None,
    }
}

/// Snapshot of the built-in counters and histograms.
#[derive(Debug, Clone)]
#[non_exhaustive]
pub struct IdbStats {
    /// Backend transactions started.
    pub txns_begun: u64,
    /// Backend transactions committed.
    pub txns_committed: u64,
    /// Backend transactions aborted.
    pub txns_aborted: u64,
    /// Executed requests completed (success).
    pub requests_completed: u64,
    /// Executed requests failed, plus queued requests dropped by aborts.
    pub requests_failed: u64,
    /// Payload bytes read, summed over executed requests.
    pub bytes_read: u64,
    /// Payload bytes written, summed over executed requests.
    pub bytes_written: u64,
    /// Executed-request latency distribution.
    pub request_latency: [u64; 9],
    /// Backend-transaction latency distribution.
    pub txn_latency: [u64; 9],
    /// Registered host observers.
    pub observers: usize,
}

/// Observer and statistics state: the registered observers (of the host's
/// observer type `O`) and the counters the events feed.
pub struct ObserverState<O> {
    observers: Vec<O>,
    txns_begun: u64,
    txns_committed: u64,
    txns_aborted: u64,
    requests_completed: u64,
    requests_failed: u64,
    bytes_read: u64,
    bytes_written: u64,
    request_latency: LatencyHistogram,
    txn_latency: LatencyHistogram,
}

/// Abstract counters of an observer state.
pub struct Counters {
    pub txns_begun: u64,
    pub txns_committed: u64,
    pub txns_aborted: u64,
    pub requests_completed: u64,
    pub requests_failed: u64,
    pub bytes_read: u64,
    pub bytes_written: u64,
    pub request_latency: Seq<u64>,
    pub txn_latency: Seq<u64>,
}

/// The counters of a fresh state: all zero.
pub open spec fn zero_counters() -> Counters {
    Counters {
        txns_begun: 0,
        txns_committed: 0,
        txns_aborted: 0,
        requests_completed: 0,
        requests_failed: 0,
        bytes_read: 0,
        bytes_written: 0,
        request_latency: Seq::new(9, |_i: int| 0u64),
        txn_latency: Seq::new(9, |_i: int| 0u64),
    }
}

/// Saturating `a + b`.
pub open spec fn sat_add(a: u64, b: u64) -> u64 {
    saturate(a + b)
}

/// The counters after one event.
pub open spec fn counted(c: Counters, e: IdbEvent) -> Counters {
    match e {
        IdbEvent::TransactionBegun { .. } => Counters { txns_begun: sat_add(c.txns_begun, 1), ..c },
        IdbEvent::TransactionCommitted { duration, .. } => Counters {
            txns_committed: sat_add(c.txns_committed, 1),
            txn_latency: recorded(c.txn_latency, micros_of(duration)),
            ..c
        },
        IdbEvent::TransactionAborted { .. } => Counters { txns_aborted: sat_add(c.txns_aborted, 1), ..c },
        IdbEvent::RequestCompleted { duration, bytes_read, bytes_written, failed, .. } => Counters {
            requests_completed: if failed { c.requests_completed } else { sat_add(c.requests_completed, 1) },
            requests_failed: if failed { sat_add(c.requests_failed, 1) } else { c.requests_failed },
            request_latency: recorded(c.request_latency, micros_of(duration)),
            bytes_read: sat_add(c.bytes_read, bytes_read),
            bytes_written: sat_add(c.bytes_written, bytes_written),
            ..c
        },
        _ => c,
    }
}

fn sat_inc(a: u64, b: u64) -> (r: u64)
    ensures
        r == sat_add(a, b),
{
    if a > u64::MAX - b {
        u64::MAX
    } else {
        a + b
    }
}

impl<O: Clone> ObserverState<O> {
    /// The counters, abstractly.
    pub closed spec fn counters(&self) -> Counters {
        Counters {
            txns_begun: self.txns_begun,
            txns_committed: self.txns_committed,
            txns_aborted: self.txns_aborted,
            requests_completed: self.requests_completed,
            requests_failed: self.requests_failed,
            bytes_read: self.bytes_read,
            bytes_written: self.bytes_written,
            request_latency: self.request_latency@,
            txn_latency: self.txn_latency@,
        }
    }

    /// The registered observers.
    pub closed spec fn observer_list(&self) -> Seq<O> {
        self.observers@
    }

    /// Empty state without host observers.
    pub fn new() -> (r: Self)
        ensures
            r.observer_list().len() == 0,
            r.counters() == zero_counters(),
    {
        ObserverState {
            observers: Vec::new(),
            txns_begun: 0,
            txns_committed: 0,
            txns_aborted: 0,
            requests_completed: 0,
            requests_failed: 0,
            bytes_read: 0,
            bytes_written: 0,
            request_latency: LatencyHistogram::new(),
            txn_latency: LatencyHistogram::new(),
        }
    }

    /// Registers a host observer.
    pub fn add_observer(&mut self, observer: O)
        ensures
            final(self).observer_list() == old(self).observer_list().push(observer),
            final(self).counters() == old(self).counters(),
    {
        self.observers.push(observer);
    }

    /// Records an event into the counters and returns the observers, for
    /// the caller to notify with no lock held.
    pub fn record(&mut self, event: &IdbEvent) -> (r: Vec<O>)
        ensures
            final(self).counters() == counted(old(self).counters(), *event),
            final(self).observer_list() == old(self).observer_list(),
            r@.len() == old(self).observer_list().len(),
            forall|i: int| 0 <= i < r@.len() ==> vstd::pervasive::cloned::<O>(old(self).observer_list()[i], #[trigger] r@[i]),
    {
        match event {
            IdbEvent::DatabaseOpened { .. } => {},
            IdbEvent::TransactionBegun { .. } => {
                self.txns_begun = sat_inc(self.txns_begun, 1);
            },
            IdbEvent::TransactionCommitted { duration, .. } => {
                self.txns_committed = sat_inc(self.txns_committed, 1);
                self.txn_latency.record(*duration);
            },
            IdbEvent::TransactionAborted { .. } => {
                self.txns_aborted = sat_inc(self.txns_aborted, 1);
            },
            IdbEvent::RequestCompleted { duration, bytes_read, bytes_written, failed, .. } => {
                if *failed {
                    self.requests_failed = sat_inc(self.requests_failed, 1);
                } else {
                    self.requests_completed = sat_inc(self.requests_completed, 1);
                }
                self.request_latency.record(*duration);
                self.bytes_read = sat_inc(self.bytes_read, *bytes_read);
                self.bytes_written = sat_inc(self.bytes_written, *bytes_written);
            },
            IdbEvent::QuotaExceeded { .. } | IdbEvent::Corruption { .. } => {},
        }
        self.observers.clone()
    }

    /// Counts queued requests dropped without executing.
    pub fn record_dropped_requests(&mut self, count: usize)
        ensures
            final(self).counters() == (Counters {
                requests_failed: sat_add(old(self).counters().requests_failed, count as u64),
                ..old(self).counters()
            }),
            final(self).observer_list() == old(self).observer_list(),
    {
        self.requests_failed = sat_inc(self.requests_failed, count as u64);
    }

    /// Snapshots the counters and histograms.
    pub fn stats(&self) -> (r: IdbStats)
        ensures
            r.txns_begun == self.counters().txns_begun,
            r.txns_committed == self.counters().txns_committed,
            r.txns_aborted == self.counters().txns_aborted,
            r.requests_completed == self.counters().requests_completed,
            r.requests_failed == self.counters().requests_failed,
            r.bytes_read == self.counters().bytes_read,
            r.bytes_written == self.counters().bytes_written,
            r.request_latency@ == self.counters().request_latency,
            r.txn_latency@ == self.counters().txn_latency,
            r.observers == self.observer_list().len(),
    {
        IdbStats {
            txns_begun: self.txns_begun,
            txns_committed: self.txns_committed,
            txns_aborted: self.txns_aborted,
            requests_completed: self.requests_completed,
            requests_failed: self.requests_failed,
            bytes_read: self.bytes_read,
            bytes_written: self.bytes_written,
            request_latency: self.request_latency.buckets(),
            txn_latency: self.txn_latency.buckets(),
            observers: self.observers.len(),
        }
    }
}

impl<O: Clone> Default for ObserverState<O> {
    fn default() -> (r: Self)
        ensures
            r.observer_list().len() == 0,
    {
        ObserverState::new()
    }
}

proof fn lemma_sum_update(s: Seq<u64>, i: int, v: u64, n: int)
    requires
        0 <= i < s.len(),
        0 <= n <= s.len(),
    ensures
        sum_prefix(s.update(i, v), n) == sum_prefix(s, n) + (if i < n { v - s[i] } else { 0 }),
    decreases n,
{
    if n > 0 {
        lemma_sum_update(s, i, v, n - 1);
    }
}

/// Recording a sample adds exactly one to the histogram's total, unless
/// the counter of its bucket is already saturated.
pub proof fn lemma_record_counts_one(h: Seq<u64>, micros: u64)
    requires
        h.len() == HISTOGRAM_BUCKETS,
        h[bucket_of(micros)] < u64::MAX,
    ensures
        sum_prefix(recorded(h, micros), 9) == sum_prefix(h, 9) + 1,
        recorded(h, micros).len() == HISTOGRAM_BUCKETS,
{
    lemma_sum_update(h, bucket_of(micros), (h[bucket_of(micros)] + 1) as u64, 9);
}

/// Byte totals are fed by `RequestCompleted` alone: any other event leaves
/// them unchanged, so the totals a committed transaction carries are not
/// counted a second time.
pub proof fn lemma_bytes_counted_once(c: Counters, e: IdbEvent)
    ensures
        !(e is RequestCompleted) ==> counted(c, e).bytes_read == c.bytes_read && counted(c, e).bytes_written == c.bytes_written,
        e matches IdbEvent::RequestCompleted { bytes_read, bytes_written, .. } ==> {
            &&& counted(c, e).bytes_read == sat_add(c.bytes_read, bytes_read)
            &&& counted(c, e).bytes_written == sat_add(c.bytes_written, bytes_written)
        },
{
}

/// Every executed request is counted once, as completed or as failed.
pub proof fn lemma_request_counted_once(c: Counters, e: IdbEvent)
    requires
        c.requests_completed < u64::MAX,
        c.requests_failed < u64::MAX,
    ensures
        e is RequestCompleted ==> counted(c, e).requests_completed + counted(c, e).requests_failed
            == c.requests_completed + c.requests_failed + 1,
        !(e is RequestCompleted) ==> counted(c, e).requests_completed == c.requests_completed
            && counted(c, e).requests_failed == c.requests_failed,
{
}

/// The counters after a sequence of events, in order.
pub open spec fn counted_all(c: Counters, events: Seq<IdbEvent>) -> Counters
    decreases events.len(),
{
    if events.len() == 0 {
        c
    } else {
        counted(counted_all(c, events.drop_last()), events.last())
    }
}

/// Each latency histogram holds exactly one sample per event it counts:
/// the request histogram one per completed or failed request, the
/// transaction histogram one per commit.
pub open spec fn latency_matches_counts(c: Counters) -> bool {
    &&& c.request_latency.len() == HISTOGRAM_BUCKETS
    &&& c.txn_latency.len() == HISTOGRAM_BUCKETS
    &&& sum_prefix(c.request_latency, 9) == c.requests_completed + c.requests_failed
    &&& sum_prefix(c.txn_latency, 9) == c.txns_committed
}

proof fn lemma_elem_le_sum(s: Seq<u64>, i: int, n: int)
    requires
        0 <= i < n <= s.len(),
    ensures
        s[i] <= sum_prefix(s, n),
    decreases n,
{
    if i < n - 1 {
        lemma_elem_le_sum(s, i, n - 1);
    } else {
        lemma_sum_prefix_mono(s, 0, n - 1);
    }
}

proof fn lemma_zero_sum(n: int)
    requires
        0 <= n <= 9,
    ensures
        sum_prefix(Seq::new(9, |_i: int| 0u64), n) == 0,
    decreases n,
{
    if n > 0 {
        lemma_zero_sum(n - 1);
    }
}

/// One event keeps the latency histograms in step with the counts, as long
/// as the counts it raises are below the saturation limit.
pub proof fn lemma_event_keeps_latency_counts(c: Counters, e: IdbEvent)
    requires
        latency_matches_counts(c),
        c.requests_completed + c.requests_failed < u64::MAX,
        c.txns_committed < u64::MAX,
    ensures
        latency_matches_counts(counted(c, e)),
{
    match e {
        IdbEvent::TransactionCommitted { duration, .. } => {
            let m = micros_of(duration);
            lemma_buckets_partition(m);
            lemma_elem_le_sum(c.txn_latency, bucket_of(m), 9);
            lemma_record_counts_one(c.txn_latency, m);
        },
        IdbEvent::RequestCompleted { duration, .. } => {
            let m = micros_of(duration);
            lemma_buckets_partition(m);
            lemma_elem_le_sum(c.request_latency, bucket_of(m), 9);
            lemma_record_counts_one(c.request_latency, m);
        },
        _ => {},
    }
}

/// From a fresh state, after any sequence of fewer than `u64::MAX` events
/// (so that no counter or bucket saturates), the request latency histogram
/// holds as many samples as requests completed plus requests failed, and
/// the transaction latency histogram as many as transactions committed.
pub proof fn lemma_latency_totals_match_counts(events: Seq<IdbEvent>)
    requires
        events.len() < u64::MAX,
    ensures
        latency_matches_counts(counted_all(zero_counters(), events)),
        counted_all(zero_counters(), events).requests_completed
            + counted_all(zero_counters(), events).requests_failed <= events.len(),
        counted_all(zero_counters(), events).txns_committed <= events.len(),
    decreases events.len(),
{
    if events.len() == 0 {
        lemma_zero_sum(9);
    } else {
        let prev = events.drop_last();
        lemma_latency_totals_match_counts(prev);
        let c = counted_all(zero_counters(), prev);
        lemma_event_keeps_latency_counts(c, events.last());
    }
}

} // verus!
