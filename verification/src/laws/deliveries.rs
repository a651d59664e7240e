//! When a delivery is sent, kept, tried again and given up.

use crate::db::{header_in, ClaimedJob};
use crate::delivery::{
    base_delay, content_type, delivery_step, is_retry_delay, next_phase, varied, ActionView,
    DeliveryEvent, DeliveryPhase, DeliveryReport, LogLevel, WorkerEvent, WorkerPhase,
};
use crate::json::json_of;
use crate::number::{int_value, written_int_reads_back, IntError};
use vstd::prelude::*;

verus! {

/// The pauses grow from a quarter of a minute over 1, 5, 15 and 30 minutes to an hour, and stay
/// there.
pub proof fn pauses_follow_the_schedule(attempt: int)
    ensures
        attempt <= 1 ==> base_delay(attempt) == 15,
        attempt == 2 ==> base_delay(attempt) == 60,
        attempt == 3 ==> base_delay(attempt) == 5 * 60,
        attempt == 4 ==> base_delay(attempt) == 15 * 60,
        attempt == 5 ==> base_delay(attempt) == 30 * 60,
        attempt >= 6 ==> base_delay(attempt) == 60 * 60,
{
}

/// A pause is varied second by second, from a fifth below the base pause to a fifth above it, and
/// is cut only at a second and at an hour.
pub proof fn pause_moves_with_the_draw(base: u64, random: u64)
    requires
        base <= 3600,
        random <= 2 * (base / 5),
    ensures
        ({
            let moved = base - base / 5 + random;
            &&& 1 <= moved <= 3600 ==> varied(base, random) == moved
            &&& moved < 1 ==> varied(base, random) == 1
            &&& moved > 3600 ==> varied(base, random) == 3600
        }),
{
}

/// The pauses that may follow an attempt are all from a fifth below the base pause to a fifth
/// above it, up to an hour, and no others.
pub proof fn pauses_are_those_around_the_base(attempt: int, delay: u64)
    ensures
        is_retry_delay(attempt, delay) <==> 5 * delay >= 4 * base_delay(attempt) && 5 * delay <= 6
            * base_delay(attempt) && delay <= 3600,
{
    let base = base_delay(attempt);
    if 5 * delay >= 4 * base && 5 * delay <= 6 * base && delay <= 3600 {
        let random = (delay - (base - base / 5)) as u64;
        assert(varied(base, random) == delay);
    }
}

/// Whether the answer says that the webhook was taken: a status from 200 to 299.
pub open spec fn is_taken(result: Result<u16, String>) -> bool {
    match result {
        Ok(status) => 200 <= status && status <= 299,
        Err(_) => false,
    }
}

/// Whether the words are those for the answer: the error's own, or the status in decimal notation
/// after a few fixed words.
pub open spec fn tells(words: Option<Seq<char>>, result: Result<u16, String>) -> bool {
    match result {
        Err(own) => words == Some(own@),
        Ok(status) => {
            let start = "destination returned HTTP "@;
            &&& words is Some
            &&& words->Some_0.len() > start.len()
            &&& words->Some_0.take(start.len() as int) == start
            &&& int_value(words->Some_0.skip(start.len() as int), 0, u16::MAX as int) == Ok::<
                int,
                IntError,
            >(status as int)
        },
    }
}

/// An answer is kept as it came: as a success where its status is from 200 to 299; else as a
/// failure with its status and its words, for good from the deadline on. Before it the next
/// attempt is due just the pause after the present, or at the deadline where that comes first.
pub proof fn answer_is_kept_as_it_came(
    job: ClaimedJob,
    warn_after_attempts: i32,
    phase: DeliveryPhase,
    result: Result<u16, String>,
    duration_ms: i64,
    now: i128,
    delay: u64,
)
    ensures
        ({
            let (next, action) = delivery_step(
                job,
                warn_after_attempts,
                phase,
                DeliveryEvent::Responded { result, duration_ms, now },
                delay,
            );
            let status = match result {
                Ok(status) => Some(status),
                Err(_) => None,
            };
            &&& is_taken(result) ==> next is RecordingSuccess && action
                == (ActionView::RecordSuccess { status_code: result->Ok_0, duration_ms })
            &&& !is_taken(result) && now >= job.deadline_at ==> {
                &&& next is RecordingFailure
                &&& action matches ActionView::RecordFinalFailure {
                    status_code,
                    error,
                    duration_ms: taken_ms,
                }
                &&& status_code == status
                &&& tells(error, result)
                &&& taken_ms == duration_ms
            }
            &&& !is_taken(result) && now < job.deadline_at ==> {
                &&& next is RecordingRetry
                &&& action matches ActionView::RecordRetry {
                    status_code,
                    error,
                    duration_ms: taken_ms,
                    next_attempt_at,
                }
                &&& status_code == status
                &&& tells(error, result)
                &&& taken_ms == duration_ms
                &&& now + delay * 1_000_000_000 <= job.deadline_at ==> next_attempt_at == now
                    + delay * 1_000_000_000
                &&& now + delay * 1_000_000_000 > job.deadline_at ==> next_attempt_at
                    == job.deadline_at
            }
        }),
{
    match result {
        Ok(status) => {
            let start = "destination returned HTTP "@;
            let tail = crate::number::nat_text(status as nat);
            let words = start + tail;
            crate::number::lemma_nat_text(status as nat);
            written_int_reads_back(status as int, 0, u16::MAX as int);
            assert(words.take(start.len() as int) =~= start);
            assert(words.skip(start.len() as int) =~= tail);
        },
        Err(_) => {},
    }
}

/// A failed attempt is tried again after at least four fifths of the base pause of that attempt
/// and at most an hour, as far as the deadline leaves time.
pub proof fn next_attempt_keeps_the_pause(
    job: ClaimedJob,
    warn_after_attempts: i32,
    result: Result<u16, String>,
    duration_ms: i64,
    now: i128,
    delay: u64,
)
    requires
        !is_taken(result),
        now < job.deadline_at,
        is_retry_delay(job.attempt_count + 1, delay),
    ensures
        ({
            let action = delivery_step(
                job,
                warn_after_attempts,
                DeliveryPhase::Sending,
                DeliveryEvent::Responded { result, duration_ms, now },
                delay,
            ).1;
            let due = action->next_attempt_at;
            &&& due == job.deadline_at || 5 * (due - now) >= 4 * base_delay(job.attempt_count + 1)
                * 1_000_000_000
            &&& now < due <= job.deadline_at
            &&& due - now <= 3600 * 1_000_000_000
        }),
{
    answer_is_kept_as_it_came(
        job,
        warn_after_attempts,
        DeliveryPhase::Sending,
        result,
        duration_ms,
        now,
        delay,
    );
    pauses_are_those_around_the_base(job.attempt_count + 1, delay);
    pauses_follow_the_schedule(job.attempt_count + 1);
}

/// A delivery whose time is over is kept as failed with words that say so; else it is sent under
/// the number after that of the last attempt.
pub proof fn start_depends_on_the_deadline(
    job: ClaimedJob,
    warn_after_attempts: i32,
    now: i128,
    delay: u64,
)
    ensures
        ({
            let (next, action) = delivery_step(
                job,
                warn_after_attempts,
                DeliveryPhase::Claimed,
                DeliveryEvent::Started { now },
                delay,
            );
            &&& now < job.deadline_at ==> next is Sending && action == (ActionView::Send {
                attempt: job.attempt_count + 1,
            })
            &&& now >= job.deadline_at ==> next is RecordingExpiry && action == (
            ActionView::RecordFinalFailure {
                status_code: None,
                error: Some("retry window expired before delivery attempt"@),
                duration_ms: 0,
            })
        }),
{
}

/// What was kept is reported under the number of its attempt: a retry as a warning from the set
/// number of attempts on, and what another worker holds as lost.
pub proof fn kept_outcome_is_reported(
    job: ClaimedJob,
    warn_after_attempts: i32,
    phase: DeliveryPhase,
    attempt: i32,
    delay: u64,
)
    requires
        phase is RecordingExpiry || phase is RecordingSuccess || phase is RecordingRetry
            || phase is RecordingFailure,
    ensures
        ({
            let (next, action) = delivery_step(
                job,
                warn_after_attempts,
                phase,
                DeliveryEvent::Recorded { attempt: Some(attempt) },
                delay,
            );
            let lost = delivery_step(
                job,
                warn_after_attempts,
                phase,
                DeliveryEvent::Recorded { attempt: None },
                delay,
            );
            &&& next is Finished && action is Report
            &&& lost == (
                DeliveryPhase::Finished,
                ActionView::Report(DeliveryReport::LostLock { phase }),
            )
            &&& phase is RecordingSuccess ==> action->Report_0 == (DeliveryReport::Succeeded {
                attempt,
            })
            &&& phase is RecordingRetry && attempt >= warn_after_attempts ==> action->Report_0 == (
            DeliveryReport::StillFailing { attempt })
            &&& phase is RecordingRetry && attempt < warn_after_attempts ==> action->Report_0 == (
            DeliveryReport::RetryScheduled { attempt })
            &&& phase is RecordingExpiry || phase is RecordingFailure ==> action->Report_0 == (
            DeliveryReport::FailedForGood { attempt })
        }),
{
}

/// A worker claims unless it is to stop, delivers what it has claimed, and waits where there is
/// nothing or the database does not answer; then it looks again.
pub proof fn worker_goes_round(stop: bool, sender_gone: bool, count: usize)
    ensures
        next_phase(WorkerEvent::Looked { stop }) == (if stop {
            WorkerPhase::Stopped
        } else {
            WorkerPhase::Claiming
        }),
        next_phase(WorkerEvent::Interrupted { sender_gone, stop }) == (if sender_gone || stop {
            WorkerPhase::Stopped
        } else {
            WorkerPhase::Checking
        }),
        next_phase(WorkerEvent::Claimed { count }) == (if count == 0 {
            WorkerPhase::Idling
        } else {
            WorkerPhase::Processing
        }),
        next_phase(WorkerEvent::ClaimFailed) == WorkerPhase::Idling,
        next_phase(WorkerEvent::Processed) == WorkerPhase::Checking,
        next_phase(WorkerEvent::Waited) == WorkerPhase::Checking,
{
}

/// A delivery has the type under which its webhook was kept, in full; JSON, where there is none.
pub proof fn delivered_type_is_the_kept_one(job: ClaimedJob)
    ensures
        header_in(json_of(job.headers), "content-type"@) is Some ==> content_type(job)
            == header_in(json_of(job.headers), "content-type"@)->Some_0,
        header_in(json_of(job.headers), "content-type"@) is None ==> content_type(job)
            == "application/json"@,
{
}

/// Only a failure for good is an error; one that lasts and a lost lock are warnings.
pub proof fn reports_matter_as_they_should(attempt: i32, phase: DeliveryPhase)
    ensures
        (DeliveryReport::Succeeded { attempt }).importance() == LogLevel::Info,
        (DeliveryReport::RetryScheduled { attempt }).importance() == LogLevel::Info,
        (DeliveryReport::StillFailing { attempt }).importance() == LogLevel::Warn,
        (DeliveryReport::LostLock { phase }).importance() == LogLevel::Warn,
        (DeliveryReport::FailedForGood { attempt }).importance() == LogLevel::Error,
{
}

} // verus!
