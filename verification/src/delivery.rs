//! Delivering webhooks: when to send, when to send again and when to give up.

use crate::db::{
    first_kept, header_in, header_value_from_json, kept_header_reads_back, kept_members,
    AttemptRecord, ClaimedJob,
};
use crate::identifier::{identifier_text, written_identifier};
use crate::instant::{after_secs, is_instant, later};
use crate::json::{json_of, JsonTree};
use crate::number::{int_text, nat_text, written_int, written_nat};
use crate::signing::{delivery_content, delivery_signature, sign_delivery};
use crate::text::text_option;
use vstd::prelude::*;
use vstd::string::StringExecFns;

verus! {

/// How long a worker that has found nothing to do waits, in seconds.
pub const IDLE_SLEEP_SECS: u64 = 1;

/// The longest pause between two attempts, in seconds.
pub const MAX_RETRY_DELAY_SECS: u64 = 3600;

/// The pause before the attempt that follows the given one, in seconds, before it is varied.
pub open spec fn base_delay(attempt: int) -> u64 {
    if attempt <= 1 {
        15
    } else if attempt == 2 {
        60
    } else if attempt == 3 {
        300
    } else if attempt == 4 {
        900
    } else if attempt == 5 {
        1800
    } else {
        MAX_RETRY_DELAY_SECS
    }
}

/// The pause before the attempt that follows the given one, in seconds, before it is varied.
pub fn base_retry_delay_secs(attempt_after_failure: i32) -> (r: u64)
    ensures
        r == base_delay(attempt_after_failure as int),
{
    if attempt_after_failure <= 1 {
        return 15;
    }
    match attempt_after_failure {
        2 => 60,
        3 => 5 * 60,
        4 => 15 * 60,
        5 => 30 * 60,
        _ => MAX_RETRY_DELAY_SECS,
    }
}

/// The pause, in seconds, that a number of up to twice a fifth of the base pause makes of it: up
/// to a fifth less or more, but at least a second and at most the longest pause.
pub open spec fn varied(base: u64, random: u64) -> u64 {
    let moved = base - base / 5 + random;
    if moved < 1 {
        1
    } else if moved > MAX_RETRY_DELAY_SECS {
        MAX_RETRY_DELAY_SECS
    } else {
        moved as u64
    }
}

/// Varies a pause by a number of up to twice a fifth of it.
pub fn jittered_delay(base: u64, random: u64) -> (r: u64)
    requires
        base <= MAX_RETRY_DELAY_SECS,
        random <= 2 * (base / 5),
    ensures
        r == varied(base, random),
{
    let moved: u64 = base - base / 5 + random;
    if moved < 1 {
        1
    } else if moved > MAX_RETRY_DELAY_SECS {
        MAX_RETRY_DELAY_SECS
    } else {
        moved
    }
}

/// Draws a number with `fastrand::u64` from zero up to and with the highest. Nothing else is
/// claimed of it.
#[verifier::external_body]
fn random_up_to(highest: u64) -> (r: u64)
    ensures
        r <= highest,
{
    fastrand::u64(0..=highest)
}

/// Whether the pause, in seconds, is one that may follow the attempt.
pub open spec fn is_retry_delay(attempt: int, delay: u64) -> bool {
    exists|random: u64|
        random <= 2 * (base_delay(attempt) / 5) && delay == #[trigger] varied(
            base_delay(attempt),
            random,
        )
}

/// The pause, in seconds, before the attempt that follows the given one. It varies by chance.
pub fn retry_delay(attempt_after_failure: i32) -> (r: u64)
    ensures
        is_retry_delay(attempt_after_failure as int, r),
{
    let base: u64 = base_retry_delay_secs(attempt_after_failure);
    let random: u64 = random_up_to(2 * (base / 5));
    jittered_delay(base, random)
}

/// A pause differs from the base pause by a fifth of it at most, and is between a second and an
/// hour.
pub proof fn retry_delay_is_near_base(attempt: int, delay: u64)
    requires
        is_retry_delay(attempt, delay),
    ensures
        4 * base_delay(attempt) <= 5 * delay <= 6 * base_delay(attempt),
        12 <= delay <= MAX_RETRY_DELAY_SECS,
{
}

/// Later attempts have no shorter base pause.
pub proof fn base_delay_grows(earlier: int, attempt: int)
    requires
        earlier <= attempt,
    ensures
        base_delay(earlier) <= base_delay(attempt) <= MAX_RETRY_DELAY_SECS,
{
}

/// A time span in whole milliseconds, as far as it fits.
pub fn elapsed_millis(millis: u128) -> (r: i64)
    ensures
        r == (if millis <= i64::MAX {
            millis as int
        } else {
            i64::MAX as int
        }),
{
    if millis <= i64::MAX as u128 {
        millis as i64
    } else {
        i64::MAX
    }
}

/// A request to a destination.
#[derive(Debug)]
pub struct DeliveryRequest {
    pub url: String,
    pub headers: Vec<(String, String)>,
    pub body: Vec<u8>,
}

/// What the headers of a request say.
pub open spec fn header_views(headers: Seq<(String, String)>) -> Seq<(Seq<char>, Seq<char>)> {
    Seq::new(headers.len(), |i: int| (headers[i].0@, headers[i].1@))
}

/// The type of the body: that of the webhook as it came, or JSON.
pub open spec fn content_type(job: ClaimedJob) -> Seq<char> {
    match header_in(json_of(job.headers), "content-type"@) {
        Some(text) => text,
        None => "application/json"@,
    }
}

/// The headers of a delivery: its type, what it is, and the signature of it all.
pub open spec fn delivery_headers(
    secret: Seq<char>,
    job: ClaimedJob,
    attempt: i32,
    now: i64,
) -> Seq<(Seq<char>, Seq<char>)> {
    seq![
        ("content-type"@, content_type(job)),
        ("x-resend-router-delivery-id"@, identifier_text(job.id)),
        ("x-resend-router-event-id"@, identifier_text(job.event_id)),
        ("x-resend-router-attempt"@, int_text(attempt as int)),
        ("x-resend-router-destination"@, job.destination_name@),
        ("x-resend-router-timestamp"@, int_text(now as int)),
        (
            "x-resend-router-signature"@,
            delivery_signature(
                secret,
                delivery_content(
                    int_text(now as int),
                    identifier_text(job.id),
                    identifier_text(job.event_id),
                    job.destination_name@,
                    attempt as int,
                    job.raw_body@,
                ),
            ),
        ),
    ]
}

/// The request that delivers the webhook, at the given second since 1970. Its body is the body
/// that came in.
pub fn delivery_request(secret: &str, job: &ClaimedJob, attempt: i32, now: i64) -> (r:
    DeliveryRequest)
    ensures
        r.url == job.destination_url,
        header_views(r.headers@) == delivery_headers(secret@, *job, attempt, now),
        r.body@ == job.raw_body@,
{
    let timestamp: String = written_int(now);
    let delivery_id: String = written_identifier(job.id);
    let event_id: String = written_identifier(job.event_id);
    let signature: String = sign_delivery(
        secret,
        timestamp.as_str(),
        delivery_id.as_str(),
        event_id.as_str(),
        job.destination_name.as_str(),
        attempt,
        job.raw_body.as_slice(),
    );
    let kind: String = match header_value_from_json(&job.headers, "content-type") {
        Some(text) => text,
        None => "application/json".to_owned(),
    };
    let mut headers: Vec<(String, String)> = Vec::new();
    headers.push(("content-type".to_owned(), kind));
    headers.push(("x-resend-router-delivery-id".to_owned(), delivery_id));
    headers.push(("x-resend-router-event-id".to_owned(), event_id));
    headers.push(("x-resend-router-attempt".to_owned(), written_int(attempt as i64)));
    headers.push(("x-resend-router-destination".to_owned(), job.destination_name.clone()));
    headers.push(("x-resend-router-timestamp".to_owned(), timestamp));
    headers.push(("x-resend-router-signature".to_owned(), signature));
    assert(header_views(headers@) =~= delivery_headers(secret@, *job, attempt, now));
    let mut body: Vec<u8> = Vec::new();
    body.extend_from_slice(job.raw_body.as_slice());
    assert(body@ =~= job.raw_body@);
    DeliveryRequest { url: job.destination_url.clone(), headers, body }
}

/// How far the delivery of a claimed job is.
#[derive(Debug, Clone, Copy, PartialEq, Eq)]
pub enum DeliveryPhase {
    /// Nothing has been done yet.
    Claimed,
    /// The request is under way.
    Sending,
    /// A delivery that came too late is being kept as failed.
    RecordingExpiry,
    /// A success is being kept.
    RecordingSuccess,
    /// A failure to be retried is being kept.
    RecordingRetry,
    /// A failure for good is being kept.
    RecordingFailure,
    /// There is nothing left to do.
    Finished,
}

/// What has happened to a delivery.
#[derive(Debug)]
pub enum DeliveryEvent {
    /// The clock was read before the delivery.
    Started { now: i128 },
    /// The request came to its end: with a status, or with the words of an error.
    Responded { result: Result<u16, String>, duration_ms: i64, now: i128 },
    /// The outcome was kept under the number of the attempt; under none, where another worker
    /// holds the delivery.
    Recorded { attempt: Option<i32> },
}

/// What is to be said of a delivery that is over for this time.
#[derive(Debug, Clone, Copy, PartialEq, Eq)]
pub enum DeliveryReport {
    /// The destination took the webhook.
    Succeeded { attempt: i32 },
    /// The destination will be asked again.
    RetryScheduled { attempt: i32 },
    /// The destination will be asked again, as it has been many times.
    StillFailing { attempt: i32 },
    /// The destination will not be asked again.
    FailedForGood { attempt: i32 },
    /// Another worker holds the delivery.
    LostLock { phase: DeliveryPhase },
}

/// What to do next for a delivery.
#[derive(Debug)]
pub enum DeliveryAction {
    /// Send the request.
    Send { attempt: i32 },
    /// Keep that the destination took the webhook.
    RecordSuccess { status_code: u16, duration_ms: i64 },
    /// Keep that the attempt failed, and when the next one is due.
    RecordRetry {
        status_code: Option<u16>,
        error: Option<String>,
        duration_ms: i64,
        next_attempt_at: i128,
    },
    /// Keep that the delivery failed for good.
    RecordFinalFailure { status_code: Option<u16>, error: Option<String>, duration_ms: i64 },
    /// Say what has become of it.
    Report(DeliveryReport),
}

/// An action as mathematics sees it.
pub enum ActionView {
    Send { attempt: int },
    RecordSuccess { status_code: u16, duration_ms: i64 },
    RecordRetry {
        status_code: Option<u16>,
        error: Option<Seq<char>>,
        duration_ms: i64,
        next_attempt_at: int,
    },
    RecordFinalFailure { status_code: Option<u16>, error: Option<Seq<char>>, duration_ms: i64 },
    Report(DeliveryReport),
}

impl View for DeliveryAction {
    type V = ActionView;

    open spec fn view(&self) -> ActionView {
        match self {
            DeliveryAction::Send { attempt } => ActionView::Send { attempt: *attempt as int },
            DeliveryAction::RecordSuccess { status_code, duration_ms } => {
                ActionView::RecordSuccess { status_code: *status_code, duration_ms: *duration_ms }
            },
            DeliveryAction::RecordRetry { status_code, error, duration_ms, next_attempt_at } => {
                ActionView::RecordRetry {
                    status_code: *status_code,
                    error: text_option(*error),
                    duration_ms: *duration_ms,
                    next_attempt_at: *next_attempt_at as int,
                }
            },
            DeliveryAction::RecordFinalFailure { status_code, error, duration_ms } => {
                ActionView::RecordFinalFailure {
                    status_code: *status_code,
                    error: text_option(*error),
                    duration_ms: *duration_ms,
                }
            },
            DeliveryAction::Report(report) => ActionView::Report(*report),
        }
    }
}

/// Whether the event may come in that phase.
pub open spec fn may_come(phase: DeliveryPhase, event: DeliveryEvent) -> bool {
    match phase {
        DeliveryPhase::Claimed => event is Started,
        DeliveryPhase::Sending => event is Responded,
        DeliveryPhase::Finished => false,
        _ => event is Recorded,
    }
}

/// Whether an HTTP status says that the request was taken.
pub open spec fn is_success(status: u16) -> bool {
    200 <= status < 300
}

/// The status of a failed attempt, where there was an answer.
pub open spec fn failure_status(result: Result<u16, String>) -> Option<u16> {
    match result {
        Ok(status) => Some(status),
        Err(_) => None,
    }
}

/// The words for a failed attempt.
pub open spec fn failure_words(result: Result<u16, String>) -> Seq<char> {
    match result {
        Ok(status) => "destination returned HTTP "@ + nat_text(status as nat),
        Err(words) => words@,
    }
}

/// When the next attempt is due: after the pause, but not after the deadline.
pub open spec fn next_attempt(now: i128, delay: u64, deadline_at: i128) -> int {
    if later(now as int, delay as int) > deadline_at {
        deadline_at as int
    } else {
        later(now as int, delay as int)
    }
}

/// What to do about an attempt that has failed: give up where the deadline has passed, else try
/// again after the pause.
pub open spec fn after_failure(
    job: ClaimedJob,
    status_code: Option<u16>,
    error: Seq<char>,
    duration_ms: i64,
    now: i128,
    delay: u64,
) -> (DeliveryPhase, ActionView) {
    if now >= job.deadline_at {
        (
            DeliveryPhase::RecordingFailure,
            ActionView::RecordFinalFailure { status_code, error: Some(error), duration_ms },
        )
    } else {
        (
            DeliveryPhase::RecordingRetry,
            ActionView::RecordRetry {
                status_code,
                error: Some(error),
                duration_ms,
                next_attempt_at: next_attempt(now, delay, job.deadline_at),
            },
        )
    }
}

/// What to say once the outcome is kept.
pub open spec fn report(
    phase: DeliveryPhase,
    attempt: Option<i32>,
    warn_after_attempts: i32,
) -> DeliveryReport {
    match attempt {
        None => DeliveryReport::LostLock { phase },
        Some(attempt) => match phase {
            DeliveryPhase::RecordingSuccess => DeliveryReport::Succeeded { attempt },
            DeliveryPhase::RecordingRetry => if attempt >= warn_after_attempts {
                DeliveryReport::StillFailing { attempt }
            } else {
                DeliveryReport::RetryScheduled { attempt }
            },
            _ => DeliveryReport::FailedForGood { attempt },
        },
    }
}

/// What comes of an event: the next phase, and what to do. The pause is that before the next
/// attempt, should there be one.
pub open spec fn delivery_step(
    job: ClaimedJob,
    warn_after_attempts: i32,
    phase: DeliveryPhase,
    event: DeliveryEvent,
    delay: u64,
) -> (DeliveryPhase, ActionView) {
    match event {
        DeliveryEvent::Started { now } => if now >= job.deadline_at {
            (
                DeliveryPhase::RecordingExpiry,
                ActionView::RecordFinalFailure {
                    status_code: None,
                    error: Some("retry window expired before delivery attempt"@),
                    duration_ms: 0,
                },
            )
        } else {
            (DeliveryPhase::Sending, ActionView::Send { attempt: job.attempt_count + 1 })
        },
        DeliveryEvent::Responded { result, duration_ms, now } => match result {
            Ok(status) if is_success(status) => (
                DeliveryPhase::RecordingSuccess,
                ActionView::RecordSuccess { status_code: status, duration_ms },
            ),
            _ => after_failure(
                job,
                failure_status(result),
                failure_words(result),
                duration_ms,
                now,
                delay,
            ),
        },
        DeliveryEvent::Recorded { attempt } => (
            DeliveryPhase::Finished,
            ActionView::Report(report(phase, attempt, warn_after_attempts)),
        ),
    }
}

/// The instant that the event reports, where it does, is one of the calendar.
pub open spec fn is_timed(event: DeliveryEvent) -> bool {
    match event {
        DeliveryEvent::Started { now } => is_instant(now as int),
        DeliveryEvent::Responded { now, .. } => is_instant(now as int),
        DeliveryEvent::Recorded { .. } => true,
    }
}

/// Takes note of an event and says what to do next. The pause before a next attempt varies by
/// chance.
pub fn step(
    job: &ClaimedJob,
    warn_after_attempts: i32,
    phase: DeliveryPhase,
    event: DeliveryEvent,
) -> (r: (DeliveryPhase, DeliveryAction))
    requires
        job.attempt_count < i32::MAX,
        may_come(phase, event),
        is_timed(event),
    ensures
        exists|delay: u64|
            is_retry_delay(job.attempt_count + 1, delay) && (r.0, r.1@) == #[trigger] delivery_step(
                *job,
                warn_after_attempts,
                phase,
                event,
                delay,
            ),
        event is Responded && r.1@ is RecordRetry ==> r.1@->next_attempt_at == job.deadline_at || 5
            * (r.1@->next_attempt_at - event->Responded_now) >= 4 * base_delay(
            job.attempt_count + 1,
        ) * 1_000_000_000,
{
    let delay: u64 = retry_delay(job.attempt_count + 1);
    proof {
        retry_delay_is_near_base(job.attempt_count + 1, delay);
    }
    step_with(job, warn_after_attempts, phase, event, delay)
}

/// Takes note of an event and says what to do next, with the given pause before a next attempt.
pub fn step_with(
    job: &ClaimedJob,
    warn_after_attempts: i32,
    phase: DeliveryPhase,
    event: DeliveryEvent,
    delay: u64,
) -> (r: (DeliveryPhase, DeliveryAction))
    requires
        job.attempt_count < i32::MAX,
        may_come(phase, event),
        is_timed(event),
        delay <= MAX_RETRY_DELAY_SECS,
    ensures
        (r.0, r.1@) == delivery_step(*job, warn_after_attempts, phase, event, delay),
        event is Responded && r.1@ is RecordRetry && event->Responded_now + delay * 1_000_000_000
            <= job.deadline_at ==> r.1@->next_attempt_at == event->Responded_now + delay
            * 1_000_000_000,
{
    match event {
        DeliveryEvent::Started { now } => {
            if now >= job.deadline_at {
                (
                    DeliveryPhase::RecordingExpiry,
                    DeliveryAction::RecordFinalFailure {
                        status_code: None,
                        error: Some("retry window expired before delivery attempt".to_owned()),
                        duration_ms: 0,
                    },
                )
            } else {
                (DeliveryPhase::Sending, DeliveryAction::Send { attempt: job.attempt_count + 1 })
            }
        },
        DeliveryEvent::Responded { result, duration_ms, now } => match result {
            Ok(status) => {
                if 200 <= status && status < 300 {
                    (
                        DeliveryPhase::RecordingSuccess,
                        DeliveryAction::RecordSuccess { status_code: status, duration_ms },
                    )
                } else {
                    let words = "destination returned HTTP ".to_owned().concat(
                        written_nat(status as u64).as_str(),
                    );
                    record_failure(job, Some(status), words, duration_ms, now, delay)
                }
            },
            Err(words) => record_failure(job, None, words, duration_ms, now, delay),
        },
        DeliveryEvent::Recorded { attempt } => (
            DeliveryPhase::Finished,
            DeliveryAction::Report(recorded_report(phase, attempt, warn_after_attempts)),
        ),
    }
}

fn record_failure(
    job: &ClaimedJob,
    status_code: Option<u16>,
    error: String,
    duration_ms: i64,
    now: i128,
    delay: u64,
) -> (r: (DeliveryPhase, DeliveryAction))
    requires
        is_instant(now as int),
        delay <= MAX_RETRY_DELAY_SECS,
    ensures
        (r.0, r.1@) == after_failure(*job, status_code, error@, duration_ms, now, delay),
{
    if now >= job.deadline_at {
        return (
            DeliveryPhase::RecordingFailure,
            DeliveryAction::RecordFinalFailure { status_code, error: Some(error), duration_ms },
        );
    }
    let mut next_attempt_at: i128 = after_secs(now, delay as i64);
    if next_attempt_at > job.deadline_at {
        next_attempt_at = job.deadline_at;
    }
    (
        DeliveryPhase::RecordingRetry,
        DeliveryAction::RecordRetry {
            status_code,
            error: Some(error),
            duration_ms,
            next_attempt_at,
        },
    )
}

fn recorded_report(phase: DeliveryPhase, attempt: Option<i32>, warn_after_attempts: i32) -> (r:
    DeliveryReport)
    ensures
        r == report(phase, attempt, warn_after_attempts),
{
    match attempt {
        None => DeliveryReport::LostLock { phase },
        Some(attempt) => match phase {
            DeliveryPhase::RecordingSuccess => DeliveryReport::Succeeded { attempt },
            DeliveryPhase::RecordingRetry => {
                if attempt >= warn_after_attempts {
                    DeliveryReport::StillFailing { attempt }
                } else {
                    DeliveryReport::RetryScheduled { attempt }
                }
            },
            _ => DeliveryReport::FailedForGood { attempt },
        },
    }
}

/// How much a report matters.
#[derive(Debug, Clone, Copy, PartialEq, Eq)]
pub enum LogLevel {
    Info,
    Warn,
    Error,
}

impl DeliveryReport {
    /// How much the report matters: a delivery that failed for good is an error, one that keeps
    /// failing or that another worker holds is a warning.
    pub open spec fn importance(self) -> LogLevel {
        match self {
            DeliveryReport::Succeeded { .. } => LogLevel::Info,
            DeliveryReport::RetryScheduled { .. } => LogLevel::Info,
            DeliveryReport::StillFailing { .. } => LogLevel::Warn,
            DeliveryReport::FailedForGood { .. } => LogLevel::Error,
            DeliveryReport::LostLock { .. } => LogLevel::Warn,
        }
    }

    /// How much the report matters.
    pub fn level(self) -> (r: LogLevel)
        ensures
            r == self.importance(),
    {
        match self {
            DeliveryReport::Succeeded { .. } => LogLevel::Info,
            DeliveryReport::RetryScheduled { .. } => LogLevel::Info,
            DeliveryReport::StillFailing { .. } => LogLevel::Warn,
            DeliveryReport::FailedForGood { .. } => LogLevel::Error,
            DeliveryReport::LostLock { .. } => LogLevel::Warn,
        }
    }
}

/// A delivery has the type that the webhook came with, whatever letters of the header's name were
/// capital; JSON, where it came without one.
pub proof fn delivered_type_is_the_received_one(
    job: ClaimedJob,
    entries: Seq<(Seq<char>, Seq<u8>)>,
)
    requires
        json_of(job.headers) == JsonTree::Object(kept_members(entries)),
    ensures
        content_type(job) == (match first_kept(entries, "content-type"@) {
            Some(text) => text,
            None => "application/json"@,
        }),
{
    kept_header_reads_back(entries, "content-type"@);
}

/// The answer to a request is kept as a success where, and only where, its status says so. Any
/// other end of a request is retried before the deadline, at a time after the present and not
/// after the deadline, and is a failure for good from the deadline on.
pub proof fn response_is_kept_or_retried(
    job: ClaimedJob,
    warn_after_attempts: i32,
    phase: DeliveryPhase,
    result: Result<u16, String>,
    duration_ms: i64,
    now: i128,
    delay: u64,
)
    requires
        is_retry_delay(job.attempt_count + 1, delay),
    ensures
        ({
            let action = delivery_step(
                job,
                warn_after_attempts,
                phase,
                DeliveryEvent::Responded { result, duration_ms, now },
                delay,
            ).1;
            let taken = result is Ok && is_success(result->Ok_0);
            &&& action is RecordSuccess <==> taken
            &&& action is RecordRetry <==> !taken && now < job.deadline_at
            &&& action is RecordFinalFailure <==> !taken && now >= job.deadline_at
            &&& action is RecordRetry ==> now < action->next_attempt_at <= job.deadline_at
        }),
{
    retry_delay_is_near_base(job.attempt_count + 1, delay);
}

/// A delivery is sent where, and only where, its deadline has not come; else it is kept as failed
/// without being sent.
pub proof fn nothing_is_sent_after_the_deadline(
    job: ClaimedJob,
    warn_after_attempts: i32,
    now: i128,
    delay: u64,
)
    ensures
        ({
            let action = delivery_step(
                job,
                warn_after_attempts,
                DeliveryPhase::Claimed,
                DeliveryEvent::Started { now },
                delay,
            ).1;
            &&& action is Send <==> now < job.deadline_at
            &&& action is RecordFinalFailure <==> now >= job.deadline_at
        }),
{
}

/// The number of the attempt that is sent, and signed, is the number under which it is kept.
pub proof fn sent_attempt_is_kept(
    job: ClaimedJob,
    warn_after_attempts: i32,
    now: i128,
    delay: u64,
    record: AttemptRecord,
    status_code: Option<u16>,
    error: Option<String>,
    duration_ms: i64,
    kept_at: i128,
)
    requires
        now < job.deadline_at,
        record.records(job, status_code, error, duration_ms, kept_at),
    ensures
        delivery_step(
            job,
            warn_after_attempts,
            DeliveryPhase::Claimed,
            DeliveryEvent::Started { now },
            delay,
        ).1 == (ActionView::Send { attempt: record.attempt.attempt_number as int }),
        record.update.attempt_count == record.attempt.attempt_number,
{
}

/// How many events a delivery can still see at most.
pub open spec fn steps_left(phase: DeliveryPhase) -> nat {
    match phase {
        DeliveryPhase::Claimed => 3,
        DeliveryPhase::Sending => 2,
        DeliveryPhase::Finished => 0,
        _ => 1,
    }
}

/// Every event brings a delivery nearer to its end, and it is reported where, and only where, it
/// is there.
pub proof fn every_delivery_ends(
    job: ClaimedJob,
    warn_after_attempts: i32,
    phase: DeliveryPhase,
    event: DeliveryEvent,
    delay: u64,
)
    requires
        may_come(phase, event),
    ensures
        ({
            let next = delivery_step(job, warn_after_attempts, phase, event, delay);
            &&& steps_left(next.0) < steps_left(phase)
            &&& next.1 is Report <==> next.0 is Finished
        }),
{
}

/// The phase that a claimed delivery is in after the events, each with the pause drawn for it.
pub open spec fn phase_after(
    job: ClaimedJob,
    warn_after_attempts: i32,
    events: Seq<(DeliveryEvent, u64)>,
) -> DeliveryPhase
    decreases events.len(),
{
    if events.len() == 0 {
        DeliveryPhase::Claimed
    } else {
        delivery_step(
            job,
            warn_after_attempts,
            phase_after(job, warn_after_attempts, events.drop_last()),
            events.last().0,
            events.last().1,
        ).0
    }
}

/// Whether the events may come to a claimed delivery in that order.
pub open spec fn is_run(
    job: ClaimedJob,
    warn_after_attempts: i32,
    events: Seq<(DeliveryEvent, u64)>,
) -> bool
    decreases events.len(),
{
    events.len() == 0 || (is_run(job, warn_after_attempts, events.drop_last()) && may_come(
        phase_after(job, warn_after_attempts, events.drop_last()),
        events.last().0,
    ))
}

/// Whether the event shows that the deadline has come.
pub open spec fn shows_deadline(job: ClaimedJob, event: DeliveryEvent) -> bool {
    match event {
        DeliveryEvent::Started { now } => now >= job.deadline_at,
        DeliveryEvent::Responded { now, .. } => now >= job.deadline_at,
        DeliveryEvent::Recorded { .. } => false,
    }
}

/// A delivery is reported as an error only where the clock has shown, in the course of it, that
/// its deadline has come.
pub proof fn errors_come_after_the_deadline(
    job: ClaimedJob,
    warn_after_attempts: i32,
    events: Seq<(DeliveryEvent, u64)>,
)
    requires
        events.len() > 0,
        is_run(job, warn_after_attempts, events),
        ({
            let action = delivery_step(
                job,
                warn_after_attempts,
                phase_after(job, warn_after_attempts, events.drop_last()),
                events.last().0,
                events.last().1,
            ).1;
            action is Report && action->Report_0.importance() == LogLevel::Error
        }),
    ensures
        exists|i: int| 0 <= i < events.len() && shows_deadline(job, (#[trigger] events[i]).0),
{
    let front = events.drop_last();
    let phase = phase_after(job, warn_after_attempts, front);
    assert(events.last().0 is Recorded);
    assert(phase is RecordingExpiry || phase is RecordingFailure);
    assert(front.len() > 0);
    assert(shows_deadline(job, front.last().0));
    assert(events[front.len() - 1] == front.last());
}

/// What a worker is at.
#[derive(Debug, Clone, Copy, PartialEq, Eq)]
pub enum WorkerPhase {
    /// It looks whether it is to stop.
    Checking,
    /// It claims deliveries that are due.
    Claiming,
    /// It delivers what it has claimed.
    Processing,
    /// It waits a while.
    Idling,
    /// It has stopped.
    Stopped,
}

/// What has happened to a worker.
#[derive(Debug, Clone, Copy, PartialEq, Eq)]
pub enum WorkerEvent {
    /// It has looked whether it is to stop.
    Looked { stop: bool },
    /// While it claimed or waited, word of a change came: the sender is gone, or says whether to
    /// stop.
    Interrupted { sender_gone: bool, stop: bool },
    /// It has claimed that many deliveries.
    Claimed { count: usize },
    /// The database did not answer.
    ClaimFailed,
    /// All that it had claimed is done.
    Processed,
    /// It has waited long enough.
    Waited,
}

/// Whether the event may come in that phase.
pub open spec fn may_happen(phase: WorkerPhase, event: WorkerEvent) -> bool {
    match phase {
        WorkerPhase::Checking => event is Looked,
        WorkerPhase::Claiming => event is Interrupted || event is Claimed || event is ClaimFailed,
        WorkerPhase::Processing => event is Processed,
        WorkerPhase::Idling => event is Interrupted || event is Waited,
        WorkerPhase::Stopped => false,
    }
}

/// Whether the event tells the worker to stop.
pub open spec fn says_stop(event: WorkerEvent) -> bool {
    match event {
        WorkerEvent::Looked { stop } => stop,
        WorkerEvent::Interrupted { sender_gone, stop } => sender_gone || stop,
        _ => false,
    }
}

/// What a worker is at after the event.
pub open spec fn next_phase(event: WorkerEvent) -> WorkerPhase {
    if says_stop(event) {
        WorkerPhase::Stopped
    } else {
        match event {
            WorkerEvent::Looked { .. } => WorkerPhase::Claiming,
            WorkerEvent::Claimed { count } => if count == 0 {
                WorkerPhase::Idling
            } else {
                WorkerPhase::Processing
            },
            WorkerEvent::ClaimFailed => WorkerPhase::Idling,
            _ => WorkerPhase::Checking,
        }
    }
}

/// What a worker is to do next.
pub fn worker_step(phase: WorkerPhase, event: WorkerEvent) -> (r: WorkerPhase)
    requires
        may_happen(phase, event),
    ensures
        r == next_phase(event),
{
    match event {
        WorkerEvent::Looked { stop } => {
            if stop {
                WorkerPhase::Stopped
            } else {
                WorkerPhase::Claiming
            }
        },
        WorkerEvent::Interrupted { sender_gone, stop } => {
            if sender_gone || stop {
                WorkerPhase::Stopped
            } else {
                WorkerPhase::Checking
            }
        },
        WorkerEvent::Claimed { count } => {
            if count == 0 {
                WorkerPhase::Idling
            } else {
                WorkerPhase::Processing
            }
        },
        WorkerEvent::ClaimFailed => WorkerPhase::Idling,
        WorkerEvent::Processed => WorkerPhase::Checking,
        WorkerEvent::Waited => WorkerPhase::Checking,
    }
}

/// A worker stops where, and only where, it is told to; never between claiming deliveries and
/// delivering them, and never while it delivers.
pub proof fn worker_stops_only_when_told(phase: WorkerPhase, event: WorkerEvent)
    requires
        may_happen(phase, event),
    ensures
        next_phase(event) is Stopped <==> says_stop(event),
        phase is Processing ==> next_phase(event) is Checking,
        event is Claimed && event->count > 0 ==> next_phase(event) is Processing,
{
}

/// The name under which a worker claims deliveries.
pub open spec fn worker_name(worker_index: nat, id: u128) -> Seq<char> {
    "delivery-worker-"@ + nat_text(worker_index) + "-"@ + identifier_text(id)
}

/// The name under which a worker claims deliveries.
pub fn worker_id(worker_index: usize, id: u128) -> (r: String)
    ensures
        r@ == worker_name(worker_index as nat, id),
{
    "delivery-worker-".to_owned().concat(written_nat(worker_index as u64).as_str()).concat(
        "-",
    ).concat(written_identifier(id).as_str())
}

} // verus!
