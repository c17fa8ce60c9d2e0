//! The aggregation of one run's reports into an archive.
//!
//! A `ReportBuilder` owns every statistic of a run. It takes the run's reports
//! one at a time, in the order they were sent, and is finally turned into a
//! `ReportArchive`. Receiving the reports (and waiting for them) is left to the
//! caller, which feeds them in and stops once a report ends the run.
use vstd::prelude::*;

use crate::percentile::{calculate_percentiles, percentile_table};
use crate::report::{
    ExternalReport, OperationsReport, PubSubReport, Report, ReportArchive, Timestamp,
};
use crate::tags::Tags;

verus! {

/// Nanoseconds in a second.
pub const NANOS_PER_SEC: u64 = 1_000_000_000;

/// Shortest duration a `SecondPassed` may report.
pub const TICK_MIN_NANOS: u64 = 1_000_000_000;

/// Bound (exclusive) on the duration a `SecondPassed` may report.
pub const TICK_MAX_NANOS: u64 = 1_050_000_000;

/// Number of distinct error messages that are kept verbatim.
pub const MAX_UNIQUE_ERRORS: usize = 5;

/// Message stored in place of every distinct error message past the first five.
pub const TOO_MANY_ERRORS: &'static str = "more than 5 unique error messages encountered, most likely they are actually small variants of the the same error. Only the first 5 error messages have been logged";

/// Number of reports one builder can take; every counter stays below it.
pub const EVENT_LIMIT: u64 = 0x7fff_ffff_ffff_ffff;

/// A broken contract between the benchmark and the aggregation: the run's
/// results cannot be trusted and the run must be aborted.
#[derive(Clone, Copy, Debug, PartialEq, Eq, Structural)]
pub enum ProtocolViolation {
    /// A `SecondPassed` reported a duration outside `[1.000 s, 1.050 s)`.
    TickOutOfRange(u64),
    /// `FinishedIn` arrived before `Start`.
    FinishedBeforeStart,
    /// The reports ended without `FinishedIn` or `ExternalBenchmark`.
    NeverFinished,
}

/// What the caller does after feeding a report.
#[derive(Clone, Copy, Debug, PartialEq, Eq, Structural)]
pub enum Flow {
    /// Keep feeding reports.
    Continue,
    /// The run is over: stop receiving and finish the builder.
    Done,
}

/// The views of a list of strings.
pub open spec fn string_views(v: Seq<String>) -> Seq<Seq<char>> {
    v.map_values(|s: String| s@)
}

/// The stored error messages after `m` is reported: a message already stored
/// is not stored again; the first five distinct messages are kept, the sixth
/// is replaced by `TOO_MANY_ERRORS`, and later ones are dropped.
pub open spec fn with_message(ms: Seq<Seq<char>>, m: Seq<char>) -> Seq<Seq<char>> {
    if ms.contains(m) {
        ms
    } else if ms.len() < MAX_UNIQUE_ERRORS {
        ms.push(m)
    } else if ms.len() == MAX_UNIQUE_ERRORS {
        ms.push(TOO_MANY_ERRORS@)
    } else {
        ms
    }
}

/// Records an error message, deduplicated and capped as `with_message` says.
pub fn error_message_insertion(messages: &mut Vec<String>, new_message: String)
    ensures
        string_views(final(messages)@) == with_message(string_views(old(messages)@), new_message@),
{
    let ghost views = string_views(messages@);
    let mut i: usize = 0;
    while i < messages.len()
        invariant
            i <= messages@.len(),
            views == string_views(messages@),
            forall|j: int| 0 <= j < i ==> views[j] != new_message@,
        decreases messages@.len() - i,
    {
        if messages[i].eq(&new_message) {
            assert(views.contains(new_message@)) by {
                assert(views[i as int] == new_message@);
            }
            return;
        }
        i = i + 1;
    }
    assert(!views.contains(new_message@));
    if messages.len() < MAX_UNIQUE_ERRORS {
        messages.push(new_message);
        assert(string_views(messages@) =~= views.push(new_message@));
    } else if messages.len() == MAX_UNIQUE_ERRORS {
        messages.push(TOO_MANY_ERRORS.to_owned());
        assert(string_views(messages@) =~= views.push(TOO_MANY_ERRORS@));
    }
}

/// Mean latency: the accumulated time divided by the number of samples;
/// absent when there are no samples.
pub open spec fn mean_of(count: nat, total_time: int) -> Option<u128> {
    if count == 0 {
        None
    } else {
        Some((total_time / (count as int)) as u128)
    }
}

/// Mean latency of a run, from its samples and the time accumulated over them.
pub fn mean_time(times: &Vec<u64>, total_time: u128) -> (r: Option<u128>)
    ensures
        r == mean_of(times@.len(), total_time as int),
{
    if times.len() > 0 {
        Some(total_time / (times.len() as u128))
    } else {
        None
    }
}

/// Operations per second over a run of `finished_in` nanoseconds: the total
/// divided by the whole seconds of the run, rounded down (a run of 3.9 s
/// counts as 3 s).
pub open spec fn rate(total: u64, finished_in: u64) -> u32 {
    (total / (finished_in / NANOS_PER_SEC)) as u32
}

/// Operations per second over a run of `finished_in` nanoseconds.
pub fn calculate_ops(total: u64, finished_in: u64) -> (r: u32)
    requires
        finished_in >= NANOS_PER_SEC,
    ensures
        r == rate(total, finished_in),
{
    (total / (finished_in / NANOS_PER_SEC)) as u32
}

/// The counts of an operations report while its run is aggregated.
pub struct OperationsTally {
    pub total: u64,
    pub total_errors: u64,
    pub each_second: Seq<u64>,
}

/// The counts of a pub/sub report while its run is aggregated.
pub struct PubSubTally {
    pub total_produce: u64,
    pub total_produce_error: u64,
    pub total_consume: u64,
    pub total_consume_error: u64,
    pub total_backlog: i64,
    pub produce_each_second: Seq<u64>,
    pub consume_each_second: Seq<u64>,
    pub backlog_each_second: Seq<i64>,
}

/// The state of an aggregation, as values.
pub struct BuilderView {
    pub requested_ops: Option<u64>,
    pub started_at: Option<Timestamp>,
    pub finished_in: Option<u64>,
    pub external: Option<ExternalReport>,
    pub operations: Option<OperationsTally>,
    pub pubsub: Option<PubSubTally>,
    pub operation_times: Seq<u64>,
    pub produce_times: Seq<u64>,
    pub consume_times: Seq<u64>,
    pub total_operation_time: int,
    pub total_produce_time: int,
    pub total_consume_time: int,
    pub error_messages: Seq<Seq<char>>,
    pub info_messages: Seq<Seq<char>>,
    pub events_seen: int,
}

pub open spec fn operations_tally(r: OperationsReport) -> OperationsTally {
    OperationsTally {
        total: r.total,
        total_errors: r.total_errors,
        each_second: r.total_each_second@,
    }
}

pub open spec fn pubsub_tally(r: PubSubReport) -> PubSubTally {
    PubSubTally {
        total_produce: r.total_produce,
        total_produce_error: r.total_produce_error,
        total_consume: r.total_consume,
        total_consume_error: r.total_consume_error,
        total_backlog: r.total_backlog,
        produce_each_second: r.produce_each_second@,
        consume_each_second: r.consume_each_second@,
        backlog_each_second: r.backlog_each_second@,
    }
}

pub open spec fn empty_operations() -> OperationsTally {
    OperationsTally { total: 0, total_errors: 0, each_second: Seq::empty() }
}

pub open spec fn empty_pubsub() -> PubSubTally {
    PubSubTally {
        total_produce: 0,
        total_produce_error: 0,
        total_consume: 0,
        total_consume_error: 0,
        total_backlog: 0,
        produce_each_second: Seq::empty(),
        consume_each_second: Seq::empty(),
        backlog_each_second: Seq::empty(),
    }
}

pub open spec fn operations_or_empty(o: Option<OperationsTally>) -> OperationsTally {
    match o {
        Some(t) => t,
        None => empty_operations(),
    }
}

pub open spec fn pubsub_or_empty(p: Option<PubSubTally>) -> PubSubTally {
    match p {
        Some(t) => t,
        None => empty_pubsub(),
    }
}

/// Counts one completion in the current second: the last bucket grows by
/// one, or, when there is none yet, a first (zero) bucket is opened.
pub open spec fn bump(buckets: Seq<u64>) -> Seq<u64> {
    if buckets.len() > 0 {
        buckets.update(buckets.len() - 1, (buckets.last() + 1) as u64)
    } else {
        buckets.push(0)
    }
}

/// The per-second buckets kept at the end of a run: the last one, which does
/// not cover a whole second, is dropped.
pub open spec fn without_last(buckets: Seq<u64>) -> Seq<u64> {
    if buckets.len() > 0 {
        buckets.drop_last()
    } else {
        buckets
    }
}

/// Whether the report is a completion or an error of an operation.
pub open spec fn is_measurement(r: Report) -> bool {
    match r {
        Report::QueryCompletedIn(_) | Report::QueryErrored { .. } | Report::ProduceCompletedIn(_)
        | Report::ProduceErrored { .. } | Report::ConsumeCompletedIn(_) | Report::ConsumeErrored {
            ..
        } => true,
        _ => false,
    }
}

/// Whether the report ends the run.
pub open spec fn ends_run(r: Report) -> bool {
    r is FinishedIn || r is ExternalBenchmark
}

/// The broken contract that a report shows in a given state, if any.
pub open spec fn violation(v: BuilderView, r: Report) -> Option<ProtocolViolation> {
    match r {
        Report::SecondPassed(d) => if TICK_MIN_NANOS <= d && d < TICK_MAX_NANOS {
            None
        } else {
            Some(ProtocolViolation::TickOutOfRange(d))
        },
        Report::FinishedIn(_) => if v.started_at is Some {
            None
        } else {
            Some(ProtocolViolation::FinishedBeforeStart)
        },
        _ => None,
    }
}

/// The state after a report that shows no violation; `now` is the time a
/// `Start` is received at.
pub open spec fn next(v: BuilderView, r: Report, now: Timestamp) -> BuilderView {
    let started = v.started_at is Some;
    let w = BuilderView { events_seen: v.events_seen + 1, ..v };
    match r {
        Report::Start => BuilderView { started_at: Some(now), ..w },
        Report::AddInfoMessage(m) => BuilderView { info_messages: w.info_messages.push(m@), ..w },
        Report::QueryCompletedIn(d) => {
            let o = operations_or_empty(w.operations);
            if started {
                BuilderView {
                    operations: Some(
                        OperationsTally {
                            total: (o.total + 1) as u64,
                            each_second: bump(o.each_second),
                            ..o
                        },
                    ),
                    operation_times: w.operation_times.push(d),
                    total_operation_time: w.total_operation_time + d,
                    ..w
                }
            } else {
                w
            }
        },
        Report::QueryErrored { completed_in, message } => {
            let o = operations_or_empty(w.operations);
            if started {
                BuilderView {
                    operations: Some(
                        OperationsTally { total_errors: (o.total_errors + 1) as u64, ..o },
                    ),
                    total_operation_time: w.total_operation_time + completed_in,
                    error_messages: with_message(w.error_messages, message@),
                    ..w
                }
            } else {
                w
            }
        },
        Report::ProduceCompletedIn(d) => {
            let p = pubsub_or_empty(w.pubsub);
            if started {
                BuilderView {
                    pubsub: Some(
                        PubSubTally {
                            total_backlog: (p.total_backlog + 1) as i64,
                            total_produce: (p.total_produce + 1) as u64,
                            produce_each_second: bump(p.produce_each_second),
                            ..p
                        },
                    ),
                    produce_times: w.produce_times.push(d),
                    total_produce_time: w.total_produce_time + d,
                    ..w
                }
            } else {
                w
            }
        },
        Report::ProduceErrored { completed_in, message } => {
            let p = pubsub_or_empty(w.pubsub);
            if started {
                BuilderView {
                    pubsub: Some(
                        PubSubTally {
                            total_produce_error: (p.total_produce_error + 1) as u64,
                            ..p
                        },
                    ),
                    total_produce_time: w.total_produce_time + completed_in,
                    error_messages: with_message(w.error_messages, message@),
                    ..w
                }
            } else {
                w
            }
        },
        Report::ConsumeCompletedIn(od) => {
            let p = pubsub_or_empty(w.pubsub);
            if started {
                let p2 = PubSubTally {
                    total_backlog: (p.total_backlog - 1) as i64,
                    total_consume: (p.total_consume + 1) as u64,
                    consume_each_second: bump(p.consume_each_second),
                    ..p
                };
                match od {
                    Some(d) => BuilderView {
                        pubsub: Some(p2),
                        consume_times: w.consume_times.push(d),
                        total_consume_time: w.total_consume_time + d,
                        ..w
                    },
                    None => BuilderView { pubsub: Some(p2), ..w },
                }
            } else {
                w
            }
        },
        Report::ConsumeErrored { message } => {
            let p = pubsub_or_empty(w.pubsub);
            if started {
                BuilderView {
                    pubsub: Some(
                        PubSubTally {
                            total_consume_error: (p.total_consume_error + 1) as u64,
                            ..p
                        },
                    ),
                    error_messages: with_message(w.error_messages, message@),
                    ..w
                }
            } else {
                w
            }
        },
        Report::SecondPassed(_) => BuilderView {
            operations: match w.operations {
                Some(o) => Some(OperationsTally { each_second: o.each_second.push(0), ..o }),
                None => None,
            },
            pubsub: match w.pubsub {
                Some(p) => Some(
                    PubSubTally {
                        produce_each_second: p.produce_each_second.push(0),
                        consume_each_second: p.consume_each_second.push(0),
                        backlog_each_second: p.backlog_each_second.push(p.total_backlog),
                        ..p
                    },
                ),
                None => None,
            },
            ..w
        },
        Report::FinishedIn(d) => BuilderView { finished_in: Some(d), ..w },
        Report::ExternalBenchmark(e) => BuilderView { external: Some(*e), ..w },
    }
}

/// Whether the run is over.
pub open spec fn is_done(v: BuilderView) -> bool {
    v.finished_in is Some || v.external is Some
}

/// Every bucket is at most `bound`.
pub open spec fn buckets_within(s: Seq<u64>, bound: int) -> bool {
    forall|i: int| 0 <= i < s.len() ==> #[trigger] s[i] <= bound
}

/// The bounds that keep every counter of an aggregation from overflowing:
/// no count exceeds the number of reports taken, and no accumulated time
/// exceeds that number of largest samples.
pub open spec fn bounded(v: BuilderView) -> bool {
    let n = v.events_seen;
    &&& 0 <= n <= EVENT_LIMIT
    &&& v.finished_in is Some ==> v.started_at is Some
    &&& 0 <= v.total_operation_time <= n * (u64::MAX as int)
    &&& 0 <= v.total_produce_time <= n * (u64::MAX as int)
    &&& 0 <= v.total_consume_time <= n * (u64::MAX as int)
    &&& v.operation_times.len() <= n
    &&& v.produce_times.len() <= n
    &&& v.consume_times.len() <= n
    &&& match v.operations {
        Some(o) => o.total <= n && o.total_errors <= n && buckets_within(o.each_second, n),
        None => true,
    }
    &&& match v.pubsub {
        Some(p) => p.total_produce <= n && p.total_produce_error <= n && p.total_consume <= n
            && p.total_consume_error <= n && -n <= p.total_backlog <= n && buckets_within(
            p.produce_each_second,
            n,
        ) && buckets_within(p.consume_each_second, n),
        None => true,
    }
}

/// The aggregation of one benchmark run.
pub struct ReportBuilder {
    requested_ops: Option<u64>,
    started: Option<Timestamp>,
    finished_in: Option<u64>,
    external: Option<ExternalReport>,
    operations_report: Option<OperationsReport>,
    pubsub_report: Option<PubSubReport>,
    operation_times: Vec<u64>,
    produce_times: Vec<u64>,
    consume_times: Vec<u64>,
    total_operation_time: u128,
    total_produce_time: u128,
    total_consume_time: u128,
    error_messages: Vec<String>,
    info_messages: Vec<String>,
    events_seen: u64,
}

/// Relies on `time::OffsetDateTime::now_utc` and `unix_timestamp_nanos`:
/// the current time in UTC. Nothing is known of its value.
#[verifier::external_body]
fn now_utc() -> (r: Timestamp) {
    Timestamp { unix_nanos: time::OffsetDateTime::now_utc().unix_timestamp_nanos() }
}

fn empty_operations_report() -> (r: OperationsReport)
    ensures
        operations_tally(r) == empty_operations(),
{
    OperationsReport {
        total: 0,
        total_errors: 0,
        requested_operations_per_second: None,
        total_operations_per_second: 0,
        total_errors_per_second: 0,
        mean_time: None,
        time_percentiles: [0u64; 15],
        total_each_second: Vec::new(),
    }
}

fn empty_pubsub_report() -> (r: PubSubReport)
    ensures
        pubsub_tally(r) == empty_pubsub(),
{
    PubSubReport {
        total_produce: 0,
        total_produce_error: 0,
        total_consume: 0,
        total_consume_error: 0,
        total_backlog: 0,
        requested_produce_per_second: None,
        produce_per_second: 0,
        produce_errors_per_second: 0,
        consume_mean_time: None,
        consume_time_percentiles: [0u64; 15],
        consume_per_second: 0,
        consume_errors_per_second: 0,
        produce_mean_time: None,
        produce_time_percentiles: [0u64; 15],
        produce_each_second: Vec::new(),
        consume_each_second: Vec::new(),
        backlog_each_second: Vec::new(),
    }
}

fn bump_last(buckets: &mut Vec<u64>)
    requires
        old(buckets)@.len() > 0 ==> old(buckets)@.last() < u64::MAX,
    ensures
        final(buckets)@ == bump(old(buckets)@),
{
    let n = buckets.len();
    if n > 0 {
        let last = buckets[n - 1];
        buckets.set(n - 1, last + 1);
    } else {
        buckets.push(0);
    }
}


/// The state of a builder that has taken no report yet.
pub open spec fn initial(requested_ops: Option<u64>) -> BuilderView {
    BuilderView {
        requested_ops,
        started_at: None,
        finished_in: None,
        external: None,
        operations: None,
        pubsub: None,
        operation_times: Seq::empty(),
        produce_times: Seq::empty(),
        consume_times: Seq::empty(),
        total_operation_time: 0,
        total_produce_time: 0,
        total_consume_time: 0,
        error_messages: Seq::empty(),
        info_messages: Seq::empty(),
        events_seen: 0,
    }
}

/// What feeding `r` in state `v` returns when no violation is found.
pub open spec fn flow_after(r: Report) -> Flow {
    if ends_run(r) {
        Flow::Done
    } else {
        Flow::Continue
    }
}

/// A finished operations report: the tallies of the run, its rates over
/// `finished_in`, the mean and percentiles of its samples, and its
/// per-second buckets without the last, partial, one.
pub open spec fn operations_finalized(
    o: OperationsReport,
    t: OperationsTally,
    times: Seq<u64>,
    total_time: int,
    requested_ops: Option<u64>,
    finished_in: u64,
) -> bool {
    &&& o.total == t.total
    &&& o.total_errors == t.total_errors
    &&& o.requested_operations_per_second == requested_ops
    &&& o.total_operations_per_second == rate(t.total, finished_in)
    &&& o.total_errors_per_second == rate(t.total_errors, finished_in)
    &&& o.mean_time == mean_of(times.len(), total_time)
    &&& o.time_percentiles@ == percentile_table(times)
    &&& o.total_each_second@ == without_last(t.each_second)
}

/// A finished pub/sub report, as `operations_finalized` says for each side;
/// the backlog of every whole second is kept.
pub open spec fn pubsub_finalized(p: PubSubReport, t: PubSubTally, v: BuilderView, finished_in: u64) -> bool {
    &&& p.total_produce == t.total_produce
    &&& p.total_produce_error == t.total_produce_error
    &&& p.total_consume == t.total_consume
    &&& p.total_consume_error == t.total_consume_error
    &&& p.total_backlog == t.total_backlog
    &&& p.requested_produce_per_second == v.requested_ops
    &&& p.produce_per_second == rate(t.total_produce, finished_in)
    &&& p.produce_errors_per_second == rate(t.total_produce_error, finished_in)
    &&& p.consume_per_second == rate(t.total_consume, finished_in)
    &&& p.consume_errors_per_second == rate(t.total_consume_error, finished_in)
    &&& p.produce_mean_time == mean_of(v.produce_times.len(), v.total_produce_time)
    &&& p.consume_mean_time == mean_of(v.consume_times.len(), v.total_consume_time)
    &&& p.produce_time_percentiles@ == percentile_table(v.produce_times)
    &&& p.consume_time_percentiles@ == percentile_table(v.consume_times)
    &&& p.produce_each_second@ == without_last(t.produce_each_second)
    &&& p.consume_each_second@ == without_last(t.consume_each_second)
    &&& p.backlog_each_second@ == t.backlog_each_second
}

/// The archive of a run that ended with `FinishedIn(finished_in)`.
pub open spec fn finalized(
    a: ReportArchive,
    v: BuilderView,
    finished_in: u64,
    tags: Tags,
    running_in_release: bool,
) -> bool {
    &&& a.running_in_release == running_in_release
    &&& a.tags == tags
    &&& v.started_at == Some(a.bench_started_at)
    &&& string_views(a.error_messages@) == v.error_messages
    &&& string_views(a.info_messages@) == v.info_messages
    &&& match (a.operations_report, v.operations) {
        (Some(o), Some(t)) => operations_finalized(
            o,
            t,
            v.operation_times,
            v.total_operation_time,
            v.requested_ops,
            finished_in,
        ),
        (None, None) => true,
        _ => false,
    }
    &&& match (a.pubsub_report, v.pubsub) {
        (Some(p), Some(t)) => pubsub_finalized(p, t, v, finished_in),
        (None, None) => true,
        _ => false,
    }
}

/// The archive of a run that ended with an outside benchmarker's report:
/// start time, reports and error messages are all the outside report's.
pub open spec fn external_archive(
    a: ReportArchive,
    e: ExternalReport,
    tags: Tags,
    running_in_release: bool,
    info_messages: Seq<Seq<char>>,
) -> bool {
    &&& a.running_in_release == running_in_release
    &&& a.tags == tags
    &&& a.bench_started_at == e.bench_started_at
    &&& a.operations_report == e.operations_report
    &&& a.pubsub_report == e.pubsub_report
    &&& a.error_messages@ == e.error_messages@
    &&& string_views(a.info_messages@) == info_messages
}

proof fn lemma_time_step(t: int, n: int, d: int)
    requires
        0 <= t <= n * (u64::MAX as int),
        0 <= d <= u64::MAX,
        0 <= n < EVENT_LIMIT,
    ensures
        t + d <= (n + 1) * (u64::MAX as int),
        (n + 1) * (u64::MAX as int) <= u128::MAX,
{
    assert((n + 1) * (u64::MAX as int) == n * (u64::MAX as int) + u64::MAX) by (nonlinear_arith);
    assert((n + 1) * (u64::MAX as int) <= (EVENT_LIMIT as int) * (u64::MAX as int))
        by (nonlinear_arith)
        requires
            n + 1 <= EVENT_LIMIT,
    ;
}

proof fn lemma_time_grows(t: int, n: int)
    requires
        0 <= t <= n * (u64::MAX as int),
        0 <= n,
    ensures
        t <= (n + 1) * (u64::MAX as int),
{
    assert(n * (u64::MAX as int) <= (n + 1) * (u64::MAX as int)) by (nonlinear_arith);
}

proof fn lemma_buckets_grow(s: Seq<u64>, n: int)
    requires
        buckets_within(s, n),
        n >= 0,
    ensures
        buckets_within(s, n + 1),
        buckets_within(s.push(0), n + 1),
        n + 1 >= 0 ==> buckets_within(bump(s), n + 1),
{
    assert forall|i: int| 0 <= i < s.push(0).len() implies #[trigger] s.push(0)[i] <= n + 1 by {
        if i < s.len() {
            assert(s[i] <= n);
        }
    }
    if n + 1 >= 0 {
        assert forall|i: int| 0 <= i < bump(s).len() implies #[trigger] bump(s)[i] <= n + 1 by {
            if i < s.len() {
                assert(s[i] <= n);
            }
        }
    }
}

impl View for ReportBuilder {
    type V = BuilderView;

    closed spec fn view(&self) -> BuilderView {
        BuilderView {
            requested_ops: self.requested_ops,
            started_at: self.started,
            finished_in: self.finished_in,
            external: self.external,
            operations: match self.operations_report {
                Some(r) => Some(operations_tally(r)),
                None => None,
            },
            pubsub: match self.pubsub_report {
                Some(r) => Some(pubsub_tally(r)),
                None => None,
            },
            operation_times: self.operation_times@,
            produce_times: self.produce_times@,
            consume_times: self.consume_times@,
            total_operation_time: self.total_operation_time as int,
            total_produce_time: self.total_produce_time as int,
            total_consume_time: self.total_consume_time as int,
            error_messages: string_views(self.error_messages@),
            info_messages: string_views(self.info_messages@),
            events_seen: self.events_seen as int,
        }
    }
}

impl ReportBuilder {
    /// A builder for a run that asked for `requested_ops` operations per
    /// second (none: as fast as possible).
    pub fn new(requested_ops: Option<u64>) -> (r: ReportBuilder)
        ensures
            r@ == initial(requested_ops),
            bounded(r@),
    {
        let r = ReportBuilder {
            requested_ops,
            started: None,
            finished_in: None,
            external: None,
            operations_report: None,
            pubsub_report: None,
            operation_times: Vec::new(),
            produce_times: Vec::new(),
            consume_times: Vec::new(),
            total_operation_time: 0,
            total_produce_time: 0,
            total_consume_time: 0,
            error_messages: Vec::new(),
            info_messages: Vec::new(),
            events_seen: 0,
        };
        assert(string_views(r.error_messages@) =~= Seq::empty());
        assert(string_views(r.info_messages@) =~= Seq::empty());
        r
    }

    /// Whether the builder takes another report: the run is not over and the
    /// report limit is not reached.
    pub fn can_accept(&self) -> (r: bool)
        ensures
            r == (!is_done(self@) && self@.events_seen < EVENT_LIMIT),
    {
        self.finished_in.is_none() && self.external.is_none() && self.events_seen < EVENT_LIMIT
    }

    /// How long the run took, once `FinishedIn` was taken.
    pub fn finished_in(&self) -> (r: Option<u64>)
        ensures
            r == self@.finished_in,
    {
        self.finished_in
    }

    /// Whether a measured report opened an operations or a pub/sub report;
    /// only then does `finish` divide by the run's duration.
    pub fn has_reports(&self) -> (r: bool)
        ensures
            r == (self@.operations is Some || self@.pubsub is Some),
    {
        self.operations_report.is_some() || self.pubsub_report.is_some()
    }

    /// Takes the next report of the run; a `Start` is stamped with `now`.
    ///
    /// A report that shows a broken contract is refused with the violation
    /// and leaves the builder unchanged. `Done` is returned once the run is
    /// over.
    pub fn feed_at(&mut self, report: Report, now: Timestamp) -> (r: Result<Flow, ProtocolViolation>)
        requires
            bounded(old(self)@),
            !is_done(old(self)@),
            old(self)@.events_seen < EVENT_LIMIT,
        ensures
            bounded(final(self)@),
            match violation(old(self)@, report) {
                Some(e) => r == Err::<Flow, ProtocolViolation>(e) && final(self)@ == old(self)@,
                None => r == Ok::<Flow, ProtocolViolation>(flow_after(report)) && final(self)@
                    == next(old(self)@, report, now),
            },
    {
        let ghost v = self@;
        let ghost n = v.events_seen;
        let mut flow = Flow::Continue;
        proof {
            lemma_time_grows(v.total_operation_time, n);
            lemma_time_grows(v.total_produce_time, n);
            lemma_time_grows(v.total_consume_time, n);
        }
        match report {
            Report::Start => {
                self.started = Some(now);
            },
            Report::AddInfoMessage(message) => {
                self.info_messages.push(message);
                assert(string_views(self.info_messages@) =~= v.info_messages.push(message@));
            },
            Report::QueryCompletedIn(d) => {
                if self.started.is_some() {
                    let mut rep = match self.operations_report.take() {
                        Some(rep) => rep,
                        None => empty_operations_report(),
                    };
                    proof {
                        lemma_time_step(v.total_operation_time, n, d as int);
                        lemma_buckets_grow(rep.total_each_second@, n);
                    }
                    rep.total = rep.total + 1;
                    bump_last(&mut rep.total_each_second);
                    self.total_operation_time = self.total_operation_time + d as u128;
                    self.operation_times.push(d);
                    self.operations_report = Some(rep);
                }
            },
            Report::QueryErrored { completed_in, message } => {
                if self.started.is_some() {
                    let mut rep = match self.operations_report.take() {
                        Some(rep) => rep,
                        None => empty_operations_report(),
                    };
                    proof {
                        lemma_buckets_grow(rep.total_each_second@, n);
                        lemma_time_step(v.total_operation_time, n, completed_in as int);
                    }
                    error_message_insertion(&mut self.error_messages, message);
                    rep.total_errors = rep.total_errors + 1;
                    self.total_operation_time = self.total_operation_time + completed_in as u128;
                    self.operations_report = Some(rep);
                }
            },
            Report::ProduceCompletedIn(d) => {
                if self.started.is_some() {
                    let mut rep = match self.pubsub_report.take() {
                        Some(rep) => rep,
                        None => empty_pubsub_report(),
                    };
                    proof {
                        lemma_buckets_grow(rep.produce_each_second@, n);
                        lemma_buckets_grow(rep.consume_each_second@, n);
                        lemma_time_step(v.total_produce_time, n, d as int);
                    }
                    rep.total_backlog = rep.total_backlog + 1;
                    rep.total_produce = rep.total_produce + 1;
                    bump_last(&mut rep.produce_each_second);
                    self.total_produce_time = self.total_produce_time + d as u128;
                    self.produce_times.push(d);
                    self.pubsub_report = Some(rep);
                }
            },
            Report::ProduceErrored { completed_in, message } => {
                if self.started.is_some() {
                    let mut rep = match self.pubsub_report.take() {
                        Some(rep) => rep,
                        None => empty_pubsub_report(),
                    };
                    proof {
                        lemma_buckets_grow(rep.produce_each_second@, n);
                        lemma_buckets_grow(rep.consume_each_second@, n);
                        lemma_time_step(v.total_produce_time, n, completed_in as int);
                    }
                    error_message_insertion(&mut self.error_messages, message);
                    rep.total_produce_error = rep.total_produce_error + 1;
                    self.total_produce_time = self.total_produce_time + completed_in as u128;
                    self.pubsub_report = Some(rep);
                }
            },
            Report::ConsumeCompletedIn(od) => {
                if self.started.is_some() {
                    let mut rep = match self.pubsub_report.take() {
                        Some(rep) => rep,
                        None => empty_pubsub_report(),
                    };
                    proof {
                        lemma_buckets_grow(rep.produce_each_second@, n);
                        lemma_buckets_grow(rep.consume_each_second@, n);
                    }
                    rep.total_backlog = rep.total_backlog - 1;
                    rep.total_consume = rep.total_consume + 1;
                    match od {
                        Some(d) => {
                            proof {
                                lemma_time_step(v.total_consume_time, n, d as int);
                            }
                            self.total_consume_time = self.total_consume_time + d as u128;
                            self.consume_times.push(d);
                        },
                        None => {},
                    }
                    bump_last(&mut rep.consume_each_second);
                    self.pubsub_report = Some(rep);
                }
            },
            Report::ConsumeErrored { message } => {
                if self.started.is_some() {
                    let mut rep = match self.pubsub_report.take() {
                        Some(rep) => rep,
                        None => empty_pubsub_report(),
                    };
                    proof {
                        lemma_buckets_grow(rep.produce_each_second@, n);
                        lemma_buckets_grow(rep.consume_each_second@, n);
                    }
                    error_message_insertion(&mut self.error_messages, message);
                    rep.total_consume_error = rep.total_consume_error + 1;
                    self.pubsub_report = Some(rep);
                }
            },
            Report::SecondPassed(d) => {
                if !(TICK_MIN_NANOS <= d && d < TICK_MAX_NANOS) {
                    return Err(ProtocolViolation::TickOutOfRange(d));
                }
                match self.operations_report.take() {
                    Some(mut rep) => {
                        proof {
                            lemma_buckets_grow(rep.total_each_second@, n);
                        }
                        rep.total_each_second.push(0);
                        self.operations_report = Some(rep);
                    },
                    None => {},
                }
                match self.pubsub_report.take() {
                    Some(mut rep) => {
                        proof {
                            lemma_buckets_grow(rep.produce_each_second@, n);
                            lemma_buckets_grow(rep.consume_each_second@, n);
                        }
                        rep.produce_each_second.push(0);
                        rep.consume_each_second.push(0);
                        let backlog = rep.total_backlog;
                        rep.backlog_each_second.push(backlog);
                        self.pubsub_report = Some(rep);
                    },
                    None => {},
                }
            },
            Report::FinishedIn(d) => {
                if self.started.is_none() {
                    return Err(ProtocolViolation::FinishedBeforeStart);
                }
                self.finished_in = Some(d);
                flow = Flow::Done;
            },
            Report::ExternalBenchmark(e) => {
                self.external = Some(*e);
                flow = Flow::Done;
            },
        }
        self.events_seen = self.events_seen + 1;
        Ok(flow)
    }

    /// Takes the next report of the run, as `feed_at` does; a `Start` is
    /// stamped with the current time.
    pub fn feed(&mut self, report: Report) -> (r: Result<Flow, ProtocolViolation>)
        requires
            bounded(old(self)@),
            !is_done(old(self)@),
            old(self)@.events_seen < EVENT_LIMIT,
        ensures
            bounded(final(self)@),
            match violation(old(self)@, report) {
                Some(e) => r == Err::<Flow, ProtocolViolation>(e) && final(self)@ == old(self)@,
                None => r == Ok::<Flow, ProtocolViolation>(flow_after(report)) && exists|
                    now: Timestamp,
                | #[trigger] next(old(self)@, report, now) == final(self)@,
            },
    {
        let now = match &report {
            Report::Start => now_utc(),
            _ => Timestamp { unix_nanos: 0 },
        };
        let r = self.feed_at(report, now);
        assert(violation(old(self)@, report) is None ==> next(old(self)@, report, now) == self@);
        r
    }

    /// Turns the builder into the archive of its run.
    ///
    /// A run that ended with an outside benchmarker's report takes its start
    /// time, reports and error messages from that report alone. A run that
    /// ended with `FinishedIn` gets its rates, means and percentile tables
    /// computed and the last per-second bucket of each report dropped. A run
    /// that did neither is refused with `NeverFinished`.
    pub fn finish(self, tags: Tags, running_in_release: bool) -> (r: Result<
        ReportArchive,
        ProtocolViolation,
    >)
        requires
            bounded(self@),
            self@.external is None && self@.finished_in is Some && (self@.operations is Some
                || self@.pubsub is Some) ==> self@.finished_in->0 >= NANOS_PER_SEC,
        ensures
            match self@.external {
                Some(e) => r is Ok && external_archive(
                    r->Ok_0,
                    e,
                    tags,
                    running_in_release,
                    self@.info_messages,
                ),
                None => match self@.finished_in {
                    None => r == Err::<ReportArchive, ProtocolViolation>(
                        ProtocolViolation::NeverFinished,
                    ),
                    Some(d) => r is Ok && finalized(r->Ok_0, self@, d, tags, running_in_release),
                },
            },
    {
        let ghost v = self@;
        let ReportBuilder {
            requested_ops,
            started,
            finished_in,
            external,
            operations_report,
            pubsub_report,
            operation_times,
            produce_times,
            consume_times,
            total_operation_time,
            total_produce_time,
            total_consume_time,
            error_messages,
            info_messages,
            events_seen: _,
        } = self;
        match external {
            Some(e) => {
                return Ok(
                    ReportArchive {
                        running_in_release,
                        tags,
                        bench_started_at: e.bench_started_at,
                        operations_report: e.operations_report,
                        pubsub_report: e.pubsub_report,
                        error_messages: e.error_messages,
                        info_messages,
                    },
                );
            },
            None => {},
        }
        let finished_in = match finished_in {
            Some(d) => d,
            None => {
                return Err(ProtocolViolation::NeverFinished);
            },
        };
        let bench_started_at = match started {
            Some(t) => t,
            None => Timestamp { unix_nanos: 0 },
        };
        let operations_report = match operations_report {
            Some(mut report) => {
                let ghost t = operations_tally(report);
                report.requested_operations_per_second = requested_ops;
                report.mean_time = mean_time(&operation_times, total_operation_time);
                report.total_operations_per_second = calculate_ops(report.total, finished_in);
                report.total_errors_per_second = calculate_ops(report.total_errors, finished_in);
                report.time_percentiles = calculate_percentiles(operation_times);
                report.total_each_second.pop();
                assert(report.total_each_second@ =~= without_last(t.each_second));
                Some(report)
            },
            None => None,
        };
        let pubsub_report = match pubsub_report {
            Some(mut report) => {
                let ghost t = pubsub_tally(report);
                report.requested_produce_per_second = requested_ops;
                report.produce_mean_time = mean_time(&produce_times, total_produce_time);
                report.consume_mean_time = mean_time(&consume_times, total_consume_time);
                report.produce_per_second = calculate_ops(report.total_produce, finished_in);
                report.produce_errors_per_second = calculate_ops(
                    report.total_produce_error,
                    finished_in,
                );
                report.consume_per_second = calculate_ops(report.total_consume, finished_in);
                report.consume_errors_per_second = calculate_ops(
                    report.total_consume_error,
                    finished_in,
                );
                report.produce_time_percentiles = calculate_percentiles(produce_times);
                report.consume_time_percentiles = calculate_percentiles(consume_times);
                report.produce_each_second.pop();
                report.consume_each_second.pop();
                assert(report.produce_each_second@ =~= without_last(t.produce_each_second));
                assert(report.consume_each_second@ =~= without_last(t.consume_each_second));
                Some(report)
            },
            None => None,
        };
        Ok(
            ReportArchive {
                running_in_release,
                tags,
                bench_started_at,
                operations_report,
                pubsub_report,
                error_messages,
                info_messages,
            },
        )
    }
}

} // verus!
