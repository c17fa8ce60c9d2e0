use windsock::builder::{
    error_message_insertion, Flow, ProtocolViolation, ReportBuilder, TOO_MANY_ERRORS,
};
use windsock::report::{ExternalReport, OperationsReport, Report, ReportArchive, Timestamp};
use windsock::tags::Tags;

const SEC: u64 = 1_000_000_000;
const AT: Timestamp = Timestamp { unix_nanos: 1_700_000_000_000_000_000 };

fn tags() -> Tags {
    Tags::new(vec![("name".to_owned(), "cassandra".to_owned())]).unwrap()
}

fn feed_all(builder: &mut ReportBuilder, reports: Vec<Report>) -> Result<Flow, ProtocolViolation> {
    let mut last = Ok(Flow::Continue);
    for report in reports {
        last = builder.feed_at(report, AT);
        if last.is_err() {
            return last;
        }
    }
    last
}

fn run(reports: Vec<Report>) -> Result<ReportArchive, ProtocolViolation> {
    let mut builder = ReportBuilder::new(Some(1000));
    feed_all(&mut builder, reports)?;
    builder.finish(tags(), true)
}

#[test]
fn seven_distinct_errors_keep_five_and_the_cap() {
    let mut messages = vec![];
    for i in 0..7 {
        error_message_insertion(&mut messages, format!("error {i}"));
    }
    assert_eq!(messages.len(), 6);
    for i in 0..5 {
        assert_eq!(messages[i], format!("error {i}"));
    }
    assert_eq!(messages[5], TOO_MANY_ERRORS);
}

#[test]
fn repeated_error_is_stored_once() {
    let mut messages = vec![];
    error_message_insertion(&mut messages, "timeout".to_owned());
    error_message_insertion(&mut messages, "refused".to_owned());
    error_message_insertion(&mut messages, "timeout".to_owned());
    assert_eq!(messages, vec!["timeout".to_owned(), "refused".to_owned()]);
}

#[test]
fn buckets_drop_the_partial_second() {
    let archive = run(vec![
        Report::QueryCompletedIn(5),
        Report::Start,
        Report::SecondPassed(SEC),
        Report::QueryCompletedIn(10),
        Report::QueryCompletedIn(20),
        Report::SecondPassed(SEC + 10),
        Report::QueryCompletedIn(30),
        Report::SecondPassed(SEC),
        Report::QueryCompletedIn(40),
        Report::FinishedIn(3 * SEC + SEC / 2),
    ])
    .unwrap();
    let ops = archive.operations_report.unwrap();
    // The warm-up completion opens no report, so the first tick opens no
    // bucket; the first measured completion opens it.
    assert_eq!(ops.total_each_second, vec![1, 1]);
    assert_eq!(ops.total, 4);
    assert_eq!(ops.total_operations_per_second, 1);
    assert_eq!(ops.mean_time, Some(25));
    assert_eq!(ops.requested_operations_per_second, Some(1000));
    assert_eq!(archive.bench_started_at, AT);
    assert!(archive.pubsub_report.is_none());
}

#[test]
fn warm_up_reports_are_discarded() {
    let archive = run(vec![
        Report::QueryCompletedIn(1_000_000),
        Report::QueryErrored { completed_in: 7, message: "warm-up".to_owned() },
        Report::Start,
        Report::QueryCompletedIn(10),
        Report::QueryCompletedIn(30),
        Report::FinishedIn(2 * SEC),
    ])
    .unwrap();
    let ops = archive.operations_report.unwrap();
    assert_eq!(ops.total, 2);
    assert_eq!(ops.total_errors, 0);
    assert_eq!(ops.time_percentiles[14], 30);
    assert_eq!(ops.time_percentiles[0], 10);
    assert_eq!(ops.mean_time, Some(20));
    assert!(archive.error_messages.is_empty());
}

#[test]
fn errors_count_toward_latency_and_messages() {
    let archive = run(vec![
        Report::Start,
        Report::QueryCompletedIn(10),
        Report::QueryErrored { completed_in: 50, message: "boom".to_owned() },
        Report::QueryErrored { completed_in: 60, message: "boom".to_owned() },
        Report::FinishedIn(SEC),
    ])
    .unwrap();
    let ops = archive.operations_report.unwrap();
    assert_eq!(ops.total, 1);
    assert_eq!(ops.total_errors, 2);
    assert_eq!(ops.total_errors_per_second, 2);
    assert_eq!(ops.mean_time, Some(120));
    assert_eq!(archive.error_messages, vec!["boom".to_owned()]);
}

#[test]
fn pubsub_backlog_and_buckets() {
    let archive = run(vec![
        Report::Start,
        Report::ProduceCompletedIn(10),
        Report::ProduceCompletedIn(20),
        Report::ProduceCompletedIn(30),
        Report::ConsumeCompletedIn(Some(100)),
        Report::SecondPassed(SEC),
        Report::ProduceCompletedIn(40),
        Report::ConsumeCompletedIn(Some(300)),
        Report::ConsumeErrored { message: "lost".to_owned() },
        Report::ProduceErrored { completed_in: 50, message: "full".to_owned() },
        Report::SecondPassed(SEC),
        Report::FinishedIn(2 * SEC),
    ])
    .unwrap();
    let ps = archive.pubsub_report.unwrap();
    assert_eq!(ps.total_produce, 4);
    assert_eq!(ps.total_consume, 2);
    assert_eq!(ps.total_consume_error, 1);
    assert_eq!(ps.total_produce_error, 1);
    assert_eq!(ps.total_backlog, 2);
    assert_eq!(ps.produce_each_second, vec![2, 1]);
    assert_eq!(ps.consume_each_second, vec![0, 1]);
    assert_eq!(ps.backlog_each_second, vec![2, 2]);
    assert_eq!(ps.produce_per_second, 2);
    assert_eq!(ps.consume_per_second, 1);
    assert_eq!(ps.produce_mean_time, Some(37));
    assert_eq!(ps.consume_mean_time, Some(200));
    assert_eq!(ps.consume_time_percentiles[0], 100);
    assert_eq!(ps.consume_time_percentiles[14], 300);
    assert_eq!(archive.error_messages, vec!["lost".to_owned(), "full".to_owned()]);
    assert!(archive.operations_report.is_none());
}

#[test]
fn consume_without_latency_keeps_no_sample() {
    let archive = run(vec![
        Report::Start,
        Report::ConsumeCompletedIn(None),
        Report::ConsumeCompletedIn(None),
        Report::FinishedIn(SEC),
    ])
    .unwrap();
    let ps = archive.pubsub_report.unwrap();
    assert_eq!(ps.total_consume, 2);
    assert_eq!(ps.total_backlog, -2);
    assert_eq!(ps.consume_mean_time, None);
    assert_eq!(ps.consume_time_percentiles, [0u64; 15]);
}

#[test]
fn info_messages_are_kept() {
    let archive = run(vec![
        Report::AddInfoMessage("before".to_owned()),
        Report::Start,
        Report::AddInfoMessage("after".to_owned()),
        Report::FinishedIn(SEC),
    ])
    .unwrap();
    assert_eq!(archive.info_messages, vec!["before".to_owned(), "after".to_owned()]);
    assert!(archive.operations_report.is_none());
    assert!(archive.pubsub_report.is_none());
    assert!(archive.running_in_release);
    assert_eq!(archive.tags, tags());
}

#[test]
fn finished_before_start_is_fatal() {
    let mut builder = ReportBuilder::new(None);
    assert_eq!(builder.feed_at(Report::QueryCompletedIn(3), AT), Ok(Flow::Continue));
    assert_eq!(
        builder.feed_at(Report::FinishedIn(SEC), AT),
        Err(ProtocolViolation::FinishedBeforeStart)
    );
}

#[test]
fn stream_without_finish_is_fatal() {
    let result = run(vec![Report::Start, Report::QueryCompletedIn(3)]);
    assert_eq!(result, Err(ProtocolViolation::NeverFinished));
}

#[test]
fn tick_out_of_range_is_fatal() {
    let mut builder = ReportBuilder::new(None);
    assert_eq!(
        builder.feed_at(Report::SecondPassed(SEC - 1), AT),
        Err(ProtocolViolation::TickOutOfRange(SEC - 1))
    );
    assert_eq!(
        builder.feed_at(Report::SecondPassed(1_050_000_000), AT),
        Err(ProtocolViolation::TickOutOfRange(1_050_000_000))
    );
    assert_eq!(builder.feed_at(Report::SecondPassed(1_049_999_999), AT), Ok(Flow::Continue));
}

#[test]
fn finish_and_external_end_the_run() {
    let mut builder = ReportBuilder::new(None);
    assert_eq!(builder.feed_at(Report::Start, AT), Ok(Flow::Continue));
    assert!(builder.can_accept());
    assert_eq!(builder.feed_at(Report::FinishedIn(SEC), AT), Ok(Flow::Done));
    assert!(!builder.can_accept());
}

#[test]
fn external_report_overrides_everything() {
    let external = ExternalReport {
        bench_started_at: Timestamp { unix_nanos: 42 },
        operations_report: Some(OperationsReport {
            total: 9,
            total_errors: 1,
            requested_operations_per_second: None,
            total_operations_per_second: 3,
            total_errors_per_second: 0,
            mean_time: Some(77),
            time_percentiles: [5u64; 15],
            total_each_second: vec![3, 3, 3],
        }),
        pubsub_report: None,
        error_messages: vec!["outside".to_owned()],
    };
    let archive = run(vec![
        Report::Start,
        Report::QueryCompletedIn(10),
        Report::QueryErrored { completed_in: 50, message: "inside".to_owned() },
        Report::ProduceCompletedIn(10),
        Report::SecondPassed(SEC),
        Report::ExternalBenchmark(Box::new(external.clone())),
    ])
    .unwrap();
    assert_eq!(archive.bench_started_at, Timestamp { unix_nanos: 42 });
    assert_eq!(archive.operations_report, external.operations_report);
    assert_eq!(archive.pubsub_report, None);
    assert_eq!(archive.error_messages, vec!["outside".to_owned()]);
}

#[test]
fn start_is_stamped_with_the_clock() {
    let mut builder = ReportBuilder::new(None);
    assert_eq!(builder.feed(Report::Start), Ok(Flow::Continue));
    assert_eq!(builder.feed(Report::FinishedIn(SEC)), Ok(Flow::Done));
    let archive = builder.finish(tags(), false).unwrap();
    // Any clock of this century is well past 2020-01-01.
    assert!(archive.bench_started_at.unix_nanos > 1_577_836_800_000_000_000);
}

#[test]
fn warm_up_completion_does_not_open_a_bucket() {
    let with_warm_up = run(vec![
        Report::QueryCompletedIn(9),
        Report::Start,
        Report::SecondPassed(SEC),
        Report::QueryCompletedIn(10),
        Report::SecondPassed(SEC),
        Report::FinishedIn(2 * SEC),
    ])
    .unwrap();
    let without = run(vec![
        Report::Start,
        Report::SecondPassed(SEC),
        Report::QueryCompletedIn(10),
        Report::SecondPassed(SEC),
        Report::FinishedIn(2 * SEC),
    ])
    .unwrap();
    assert_eq!(with_warm_up.operations_report, without.operations_report);
    assert_eq!(with_warm_up.operations_report.unwrap().total_each_second, vec![0]);
}

#[test]
fn warm_up_only_run_has_no_report() {
    let archive = run(vec![
        Report::ProduceCompletedIn(4),
        Report::QueryErrored { completed_in: 3, message: "warm-up".to_owned() },
        Report::Start,
        Report::FinishedIn(SEC / 2),
    ])
    .unwrap();
    assert!(archive.operations_report.is_none());
    assert!(archive.pubsub_report.is_none());
    assert!(archive.error_messages.is_empty());
}
