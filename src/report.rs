//! The events a benchmark reports and the summaries a run is reduced to.
use vstd::prelude::*;

use crate::percentile::Percentiles;
use crate::tags::Tags;

verus! {

/// A point in time, as nanoseconds since the Unix epoch (UTC).
#[derive(Clone, Copy, Debug, PartialEq, Eq, Structural)]
pub struct Timestamp {
    pub unix_nanos: i128,
}

/// Whether a smaller or a larger value of a metric is the better one.
#[derive(Clone, Copy, Debug, PartialEq, Eq, Structural)]
pub enum Goal {
    BiggerIsBetter,
    SmallerIsBetter,
}

/// An individual measurement reported by a benchmark; durations are in
/// nanoseconds.
///
/// The measurements of a run are collected by a `ReportBuilder` and turned
/// into a `ReportArchive` when the run ends.
#[derive(Clone, Debug)]
pub enum Report {
    /// The warm-up is over and the benchmark has begun. Completions and errors
    /// received before this are warm-up noise and are discarded.
    Start,
    /// A response came back from the service, this long after the request.
    QueryCompletedIn(u64),
    /// An error came back from the service, or communicating with it failed.
    QueryErrored { completed_in: u64, message: String },
    /// A pub/sub produce was acknowledged.
    ProduceCompletedIn(u64),
    /// A pub/sub produce failed.
    ProduceErrored { completed_in: u64, message: String },
    /// A pub/sub message was consumed; the end-to-end latency is absent when
    /// the payload could not carry a timestamp. A run never mixes the two.
    ConsumeCompletedIn(Option<u64>),
    /// A pub/sub consume failed.
    ConsumeErrored { message: String },
    /// A second of the run has passed, as measured by the benchmark.
    SecondPassed(u64),
    /// The run is over and took this long.
    FinishedIn(u64),
    /// A note shown to the user next to the results.
    AddInfoMessage(String),
    /// Discard every other report and use this one, measured by an outside
    /// benchmarker, as the only source of results.
    ExternalBenchmark(Box<ExternalReport>),
}

/// Bench results that were measured entirely outside of this library.
#[derive(Clone, Debug, PartialEq, Eq)]
pub struct ExternalReport {
    pub bench_started_at: Timestamp,
    pub operations_report: Option<OperationsReport>,
    pub pubsub_report: Option<PubSubReport>,
    pub error_messages: Vec<String>,
}

/// The operation results of a benchmark run; latencies in nanoseconds.
#[derive(Clone, Debug, PartialEq, Eq)]
pub struct OperationsReport {
    pub total: u64,
    pub total_errors: u64,
    pub requested_operations_per_second: Option<u64>,
    pub total_operations_per_second: u32,
    pub total_errors_per_second: u32,
    pub mean_time: Option<u128>,
    pub time_percentiles: Percentiles,
    pub total_each_second: Vec<u64>,
}

/// The pub/sub results of a benchmark run; latencies in nanoseconds.
#[derive(Clone, Debug, PartialEq, Eq)]
pub struct PubSubReport {
    pub total_produce: u64,
    pub total_produce_error: u64,
    pub total_consume: u64,
    pub total_consume_error: u64,
    pub total_backlog: i64,
    pub requested_produce_per_second: Option<u64>,
    pub produce_per_second: u32,
    pub produce_errors_per_second: u32,
    pub consume_mean_time: Option<u128>,
    pub consume_time_percentiles: Percentiles,
    pub consume_per_second: u32,
    pub consume_errors_per_second: u32,
    pub produce_mean_time: Option<u128>,
    pub produce_time_percentiles: Percentiles,
    pub produce_each_second: Vec<u64>,
    pub consume_each_second: Vec<u64>,
    pub backlog_each_second: Vec<i64>,
}

/// The entire results of a single benchmark run.
#[derive(Clone, Debug, PartialEq, Eq)]
pub struct ReportArchive {
    pub running_in_release: bool,
    pub tags: Tags,
    pub bench_started_at: Timestamp,
    pub operations_report: Option<OperationsReport>,
    pub pubsub_report: Option<PubSubReport>,
    pub error_messages: Vec<String>,
    pub info_messages: Vec<String>,
}

/// The identity of a supplementary metric: its name and its kind. A metric is
/// compared with the baseline's metric of the same identity.
#[derive(Clone, Debug)]
pub enum MetricIdentifier {
    Total { name: String },
    EachSecond { name: String },
    LatencyPercentiles { name: String },
}

impl PartialEq for MetricIdentifier {
    fn eq(&self, other: &MetricIdentifier) -> (r: bool)
        ensures
            r == self.same_as(*other),
    {
        match self {
            MetricIdentifier::Total { name: a } => match other {
                MetricIdentifier::Total { name: b } => a.eq(b),
                _ => false,
            },
            MetricIdentifier::EachSecond { name: a } => match other {
                MetricIdentifier::EachSecond { name: b } => a.eq(b),
                _ => false,
            },
            MetricIdentifier::LatencyPercentiles { name: a } => match other {
                MetricIdentifier::LatencyPercentiles { name: b } => a.eq(b),
                _ => false,
            },
        }
    }
}

impl vstd::std_specs::cmp::PartialEqSpecImpl for MetricIdentifier {
    open spec fn obeys_eq_spec() -> bool {
        true
    }

    open spec fn eq_spec(&self, other: &MetricIdentifier) -> bool {
        self.same_as(*other)
    }
}

impl MetricIdentifier {
    /// Same kind and same name.
    pub open spec fn same_as(self, other: MetricIdentifier) -> bool {
        match (self, other) {
            (MetricIdentifier::Total { name: a }, MetricIdentifier::Total { name: b }) => a@ == b@,
            (MetricIdentifier::EachSecond { name: a }, MetricIdentifier::EachSecond { name: b }) => a@
                == b@,
            (
                MetricIdentifier::LatencyPercentiles { name: a },
                MetricIdentifier::LatencyPercentiles { name: b },
            ) => a@ == b@,
            _ => false,
        }
    }
}

} // verus!
