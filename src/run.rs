//! A whole run as a sequence of reports, and what holds of every run.
use vstd::prelude::*;

use crate::builder::{
    bump, initial, is_measurement, next, violation,
    with_message, without_last, BuilderView, ProtocolViolation, MAX_UNIQUE_ERRORS,
    TOO_MANY_ERRORS,
};
use crate::report::{ExternalReport, Report, Timestamp};

verus! {

/// The state after the builder in state `v` took every report of `reports`,
/// in order, each accepted (a `Start` is stamped with `now`).
pub open spec fn run(v: BuilderView, reports: Seq<Report>, now: Timestamp) -> BuilderView
    decreases reports.len(),
{
    if reports.len() == 0 {
        v
    } else {
        run(next(v, reports[0], now), reports.drop_first(), now)
    }
}

/// Number of `SecondPassed` reports in a sequence.
pub open spec fn ticks(reports: Seq<Report>) -> nat
    decreases reports.len(),
{
    if reports.len() == 0 {
        0
    } else {
        (if reports[0] is SecondPassed {
            1nat
        } else {
            0nat
        }) + ticks(reports.drop_first())
    }
}

/// The stored error messages after each of `messages` was reported, in order.
pub open spec fn messages_after(stored: Seq<Seq<char>>, messages: Seq<Seq<char>>) -> Seq<Seq<char>>
    decreases messages.len(),
{
    if messages.len() == 0 {
        stored
    } else {
        messages_after(with_message(stored, messages[0]), messages.drop_first())
    }
}

/// Once an operations report exists with at least one bucket, every tick
/// adds one bucket and nothing else adds any.
pub proof fn lemma_buckets_follow_ticks(v: BuilderView, reports: Seq<Report>, now: Timestamp)
    requires
        v.operations is Some,
        v.operations->0.each_second.len() > 0,
    ensures
        run(v, reports, now).operations is Some,
        run(v, reports, now).operations->0.each_second.len() == v.operations->0.each_second.len()
            + ticks(reports),
    decreases reports.len(),
{
    if reports.len() > 0 {
        let w = next(v, reports[0], now);
        let s = v.operations->0.each_second;
        assert(bump(s).len() == s.len());
        assert(w.operations is Some);
        assert(w.operations->0.each_second.len() == s.len() + (if reports[0] is SecondPassed {
            1nat
        } else {
            0nat
        }));
        lemma_buckets_follow_ticks(w, reports.drop_first(), now);
    }
}

/// Bucket completeness: in a started run with no operations report yet,
/// when a `SecondPassed` is followed by the first completion, a run with `k`
/// ticks ends with `k` buckets, of which the `k - 1` whole seconds are kept.
pub proof fn lemma_whole_seconds_kept(v: BuilderView, reports: Seq<Report>, now: Timestamp)
    requires
        v.started_at is Some,
        v.operations is None,
        reports.len() > 1,
        reports[0] is SecondPassed,
        reports[1] is QueryCompletedIn,
    ensures
        run(v, reports, now).operations is Some,
        run(v, reports, now).operations->0.each_second.len() == ticks(reports),
        without_last(run(v, reports, now).operations->0.each_second).len() == ticks(reports) - 1,
{
    let w = next(v, reports[0], now);
    assert(w.operations is None);
    assert(w.started_at is Some);
    let rest = reports.drop_first();
    assert(rest[0] == reports[1]);
    let x = next(w, rest[0], now);
    assert(bump(Seq::<u64>::empty()).len() == 1);
    assert(x.operations->0.each_second.len() == 1);
    lemma_buckets_follow_ticks(x, rest.drop_first(), now);
    assert(run(v, reports, now) == run(w, rest, now));
    assert(run(w, rest, now) == run(x, rest.drop_first(), now));
    assert(ticks(reports) == 1 + ticks(rest));
    assert(ticks(rest) == ticks(rest.drop_first()));
}

/// Warm-up discard: completions and errors taken before `Start` leave every
/// report (and so every count and bucket), sample, accumulated time and
/// error message as it was; they do not even open a report.
pub proof fn lemma_warm_up_discarded(v: BuilderView, reports: Seq<Report>, now: Timestamp)
    requires
        v.started_at is None,
        forall|i: int| 0 <= i < reports.len() ==> is_measurement(#[trigger] reports[i]),
    ensures
        ({
            let w = run(v, reports, now);
            &&& w.started_at is None
            &&& w.operations == v.operations
            &&& w.pubsub == v.pubsub
            &&& w.operation_times == v.operation_times
            &&& w.produce_times == v.produce_times
            &&& w.consume_times == v.consume_times
            &&& w.total_operation_time == v.total_operation_time
            &&& w.total_produce_time == v.total_produce_time
            &&& w.total_consume_time == v.total_consume_time
            &&& w.error_messages == v.error_messages
        }),
    decreases reports.len(),
{
    if reports.len() > 0 {
        assert(is_measurement(reports[0]));
        let w = next(v, reports[0], now);
        assert forall|i: int| 0 <= i < reports.drop_first().len() implies is_measurement(
            #[trigger] reports.drop_first()[i],
        ) by {
            assert(is_measurement(reports[i + 1]));
        }
        lemma_warm_up_discarded(w, reports.drop_first(), now);
    }
}

/// A `FinishedIn` after reports none of which is a `Start` is refused as
/// arriving before `Start`.
pub proof fn lemma_finish_needs_start(
    requested_ops: Option<u64>,
    reports: Seq<Report>,
    now: Timestamp,
    finished_in: u64,
)
    requires
        forall|i: int| 0 <= i < reports.len() ==> !(#[trigger] reports[i] is Start),
    ensures
        violation(run(initial(requested_ops), reports, now), Report::FinishedIn(finished_in))
            == Some(ProtocolViolation::FinishedBeforeStart),
{
    lemma_never_started(initial(requested_ops), reports, now);
}

proof fn lemma_never_started(v: BuilderView, reports: Seq<Report>, now: Timestamp)
    requires
        v.started_at is None,
        forall|i: int| 0 <= i < reports.len() ==> !(#[trigger] reports[i] is Start),
    ensures
        run(v, reports, now).started_at is None,
    decreases reports.len(),
{
    if reports.len() > 0 {
        assert(!(reports[0] is Start));
        assert forall|i: int| 0 <= i < reports.drop_first().len() implies !(
        #[trigger] reports.drop_first()[i] is Start) by {
            assert(!(reports[i + 1] is Start));
        }
        lemma_never_started(next(v, reports[0], now), reports.drop_first(), now);
    }
}

/// External override: whatever was taken before it, an outside benchmarker's
/// report is the one a run ends with, and `finish` builds the archive from it.
pub proof fn lemma_external_overrides(
    v: BuilderView,
    reports: Seq<Report>,
    external: ExternalReport,
    now: Timestamp,
)
    requires
        forall|i: int| 0 <= i < reports.len() ==> !(#[trigger] reports[i] is ExternalBenchmark),
    ensures
        run(v, reports.push(Report::ExternalBenchmark(Box::new(external))), now).external == Some(
            external,
        ),
    decreases reports.len(),
{
    let e = Report::ExternalBenchmark(Box::new(external));
    if reports.len() == 0 {
        assert(reports.push(e).drop_first() =~= Seq::<Report>::empty());
        assert(reports.push(e)[0] == e);
        assert(next(v, e, now).external == Some(external));
        assert(run(next(v, e, now), Seq::<Report>::empty(), now) == next(v, e, now));
    } else {
        assert(reports.push(e).drop_first() =~= reports.drop_first().push(e));
        assert(reports.push(e)[0] == reports[0]);
        assert(!(reports[0] is ExternalBenchmark));
        assert forall|i: int| 0 <= i < reports.drop_first().len() implies !(
        #[trigger] reports.drop_first()[i] is ExternalBenchmark) by {
            assert(!(reports[i + 1] is ExternalBenchmark));
        }
        lemma_external_overrides(next(v, reports[0], now), reports.drop_first(), external, now);
        assert(run(v, reports.push(e), now) == run(
            next(v, reports[0], now),
            reports.drop_first().push(e),
            now,
        ));
    }
}

/// Error message cap: reporting distinct messages (none of them the cap's
/// own message), the first five are stored and, from the sixth on, the cap's
/// message alone follows them.
pub proof fn lemma_error_messages_capped(messages: Seq<Seq<char>>)
    requires
        messages.len() > MAX_UNIQUE_ERRORS,
        forall|i: int, j: int|
            0 <= i < j < messages.len() ==> #[trigger] messages[i] != #[trigger] messages[j],
        forall|i: int| 0 <= i < messages.len() ==> #[trigger] messages[i] != TOO_MANY_ERRORS@,
    ensures
        messages_after(Seq::empty(), messages) == messages.take(MAX_UNIQUE_ERRORS as int).push(
            TOO_MANY_ERRORS@,
        ),
{
    lemma_messages_prefix(messages, messages.len() as int);
    assert(messages.subrange(messages.len() as int, messages.len() as int) =~= Seq::<Seq<char>>::empty());
}

proof fn lemma_messages_prefix(messages: Seq<Seq<char>>, k: int)
    requires
        0 <= k <= messages.len(),
        messages.len() > MAX_UNIQUE_ERRORS,
        forall|i: int, j: int|
            0 <= i < j < messages.len() ==> #[trigger] messages[i] != #[trigger] messages[j],
        forall|i: int| 0 <= i < messages.len() ==> #[trigger] messages[i] != TOO_MANY_ERRORS@,
    ensures
        messages_after(Seq::empty(), messages) == messages_after(
            stored_after(messages, k),
            messages.subrange(k, messages.len() as int),
        ),
    decreases k,
{
    if k > 0 {
        lemma_messages_prefix(messages, k - 1);
        let rest = messages.subrange(k - 1, messages.len() as int);
        assert(rest.drop_first() =~= messages.subrange(k, messages.len() as int));
        assert(rest[0] == messages[k - 1]);
        let stored = stored_after(messages, k - 1);
        assert(messages_after(stored, rest) == messages_after(
            with_message(stored, messages[k - 1]),
            messages.subrange(k, messages.len() as int),
        ));
        if k - 1 < MAX_UNIQUE_ERRORS {
            assert(stored == messages.take(k - 1));
            assert(!stored.contains(messages[k - 1])) by {
                if stored.contains(messages[k - 1]) {
                    let j = choose|j: int| 0 <= j < stored.len() && stored[j] == messages[k - 1];
                    assert(messages[j] == messages[k - 1]);
                }
            }
            assert(with_message(stored, messages[k - 1]) =~= messages.take(k));
            assert(with_message(stored, messages[k - 1]) == stored_after(messages, k));
        } else {
            let capped = messages.take(MAX_UNIQUE_ERRORS as int).push(TOO_MANY_ERRORS@);
            if k - 1 == MAX_UNIQUE_ERRORS {
                assert(stored == messages.take(MAX_UNIQUE_ERRORS as int));
                assert(!stored.contains(messages[k - 1])) by {
                    if stored.contains(messages[k - 1]) {
                        let j = choose|j: int| 0 <= j < stored.len() && stored[j] == messages[k - 1];
                        assert(messages[j] == messages[k - 1]);
                    }
                }
                assert(with_message(stored, messages[k - 1]) == capped);
            } else {
                assert(stored == capped);
                assert(with_message(stored, messages[k - 1]) == capped);
            }
            assert(with_message(stored, messages[k - 1]) == stored_after(messages, k));
        }
    } else {
        assert(messages.subrange(0, messages.len() as int) =~= messages);
        assert(messages.take(0) =~= Seq::<Seq<char>>::empty());
    }
}

/// The stored messages after the first `k` of `messages` when they are
/// pairwise distinct: all of them up to five, then the first five and the
/// cap's message.
spec fn stored_after(messages: Seq<Seq<char>>, k: int) -> Seq<Seq<char>> {
    if k <= MAX_UNIQUE_ERRORS {
        messages.take(k)
    } else {
        messages.take(MAX_UNIQUE_ERRORS as int).push(TOO_MANY_ERRORS@)
    }
}

} // verus!
