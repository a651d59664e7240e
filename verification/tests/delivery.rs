use axum::http::{HeaderMap, HeaderValue};
use resend_router::db::{headers_to_json, ClaimedJob};
use resend_router::delivery::{
    base_retry_delay_secs, delivery_request, elapsed_millis, jittered_delay, retry_delay, step,
    step_with, worker_id, worker_step, DeliveryAction, DeliveryEvent, DeliveryPhase,
    DeliveryReport, LogLevel, WorkerEvent, WorkerPhase,
};
use resend_router::signing::sign_delivery;
use serde_json::Value;
use uuid::Uuid;

#[test]
fn retry_schedule_caps_at_one_hour() {
    assert_eq!(base_retry_delay_secs(1), 15);
    assert_eq!(base_retry_delay_secs(2), 60);
    assert_eq!(base_retry_delay_secs(3), 300);
    assert_eq!(base_retry_delay_secs(99), 3600);
}

#[test]
fn retry_schedule_in_full() {
    let bases: Vec<u64> = (-1..8).map(base_retry_delay_secs).collect();
    assert_eq!(bases, [15, 15, 15, 60, 300, 900, 1800, 3600, 3600]);
    assert_eq!(base_retry_delay_secs(i32::MIN), 15);
    assert_eq!(base_retry_delay_secs(i32::MAX), 3600);
}

#[test]
fn pauses_vary_by_a_fifth() {
    assert_eq!(jittered_delay(15, 0), 12);
    assert_eq!(jittered_delay(15, 3), 15);
    assert_eq!(jittered_delay(15, 6), 18);
    assert_eq!(jittered_delay(3600, 1440), 3600);
    assert_eq!(jittered_delay(3600, 0), 2880);
    assert_eq!(jittered_delay(0, 0), 1);
    for attempt in 0..9 {
        let base = base_retry_delay_secs(attempt);
        for _ in 0..200 {
            let pause = retry_delay(attempt);
            assert!(4 * base <= 5 * pause && 5 * pause <= 6 * base && pause <= 3600);
        }
    }
}

#[test]
fn pauses_are_drawn_by_chance() {
    let first = retry_delay(6);
    assert!((0..200).any(|_| retry_delay(6) != first));
}

#[test]
fn time_spans_fit() {
    assert_eq!(elapsed_millis(0), 0);
    assert_eq!(elapsed_millis(1234), 1234);
    assert_eq!(elapsed_millis(u128::MAX), i64::MAX);
    assert_eq!(elapsed_millis(i64::MAX as u128 + 1), i64::MAX);
}

const SECOND: i128 = 1_000_000_000;
const NOW: i128 = 1_700_000_000 * SECOND;

fn job() -> ClaimedJob {
    ClaimedJob {
        id: 0x0123_4567_89ab_cdef_0123_4567_89ab_cdef,
        event_id: 7,
        destination_name: "app".to_string(),
        destination_url: "https://app.example.com/hook".to_string(),
        attempt_count: 1,
        deadline_at: NOW + 100 * SECOND,
        locked_by: "worker".to_string(),
        raw_body: b"{\"raw\": true}".to_vec(),
        headers: Value::Null,
    }
}

fn responded(result: Result<u16, String>, now: i128) -> DeliveryEvent {
    DeliveryEvent::Responded { result, duration_ms: 5, now }
}

#[test]
fn requests_carry_the_raw_body_and_its_signature() {
    let own = job();
    let request = delivery_request("secret", &own, 2, 1_700_000_000);
    assert_eq!(request.url, own.destination_url);
    assert_eq!(request.body, own.raw_body);
    let id = "01234567-89ab-cdef-0123-456789abcdef";
    let event_id = "00000000-0000-0000-0000-000000000007";
    let signature =
        sign_delivery("secret", "1700000000", id, event_id, "app", 2, b"{\"raw\": true}");
    let headers: Vec<(&str, &str)> =
        request.headers.iter().map(|(name, value)| (name.as_str(), value.as_str())).collect();
    assert_eq!(
        headers,
        [
            ("content-type", "application/json"),
            ("x-resend-router-delivery-id", id),
            ("x-resend-router-event-id", event_id),
            ("x-resend-router-attempt", "2"),
            ("x-resend-router-destination", "app"),
            ("x-resend-router-timestamp", "1700000000"),
            ("x-resend-router-signature", signature.as_str()),
        ]
    );
}

#[test]
fn requests_keep_the_type_of_the_webhook() {
    let mut headers = HeaderMap::new();
    headers.insert("Content-Type", HeaderValue::from_static("text/plain"));
    let mut own = job();
    own.headers = headers_to_json(&headers);
    let request = delivery_request("secret", &own, 1, 0);
    assert_eq!(request.headers[0].1, "text/plain");
}

#[test]
fn identifiers_are_written_as_uuids() {
    for id in [0, 1, u128::MAX, 0x1234_5678_9abc_def0_0fed_cba9_8765_4321] {
        let mut own = job();
        own.id = id;
        let request = delivery_request("s", &own, 1, 0);
        assert_eq!(request.headers[1].1, Uuid::from_u128(id).to_string());
    }
    assert_eq!(worker_id(3, 1), "delivery-worker-3-00000000-0000-0000-0000-000000000001");
}

#[test]
fn deliveries_are_sent_before_the_deadline() {
    let own = job();
    let (phase, action) = step(
        &own,
        10,
        DeliveryPhase::Claimed,
        DeliveryEvent::Started { now: own.deadline_at - 1 },
    );
    assert_eq!(phase, DeliveryPhase::Sending);
    assert!(matches!(action, DeliveryAction::Send { attempt: 2 }));
}

#[test]
fn deliveries_expire_at_the_deadline() {
    let own = job();
    let (phase, action) =
        step(&own, 10, DeliveryPhase::Claimed, DeliveryEvent::Started { now: own.deadline_at });
    assert_eq!(phase, DeliveryPhase::RecordingExpiry);
    match action {
        DeliveryAction::RecordFinalFailure { status_code, error, duration_ms } => {
            assert_eq!(status_code, None);
            assert_eq!(
                error.as_deref(),
                Some("retry window expired before delivery attempt")
            );
            assert_eq!(duration_ms, 0);
        }
        other => panic!("not a final failure: {other:?}"),
    }
}

#[test]
fn every_status_of_two_hundred_is_a_success() {
    let own = job();
    for status in 100..600u16 {
        let (phase, action) =
            step_with(&own, 10, DeliveryPhase::Sending, responded(Ok(status), NOW), 60);
        let taken = reqwest::StatusCode::from_u16(status).unwrap().is_success();
        assert_eq!(phase == DeliveryPhase::RecordingSuccess, taken);
        match action {
            DeliveryAction::RecordSuccess { status_code, duration_ms } => {
                assert!(taken);
                assert_eq!(status_code, status);
                assert_eq!(duration_ms, 5);
            }
            DeliveryAction::RecordRetry { status_code, error, duration_ms, next_attempt_at } => {
                assert!(!taken);
                assert_eq!(status_code, Some(status));
                assert_eq!(error, Some(format!("destination returned HTTP {status}")));
                assert_eq!(duration_ms, 5);
                assert_eq!(next_attempt_at, NOW + 60 * SECOND);
            }
            other => panic!("not kept: {other:?}"),
        }
    }
}

#[test]
fn network_errors_are_retried() {
    let own = job();
    let (phase, action) =
        step_with(&own, 10, DeliveryPhase::Sending, responded(Err("gone".to_string()), NOW), 60);
    assert_eq!(phase, DeliveryPhase::RecordingRetry);
    match action {
        DeliveryAction::RecordRetry { status_code, error, .. } => {
            assert_eq!(status_code, None);
            assert_eq!(error.as_deref(), Some("gone"));
        }
        other => panic!("not a retry: {other:?}"),
    }
}

#[test]
fn retries_do_not_pass_the_deadline() {
    let own = job();
    for (pause, wanted) in [(99, NOW + 99 * SECOND), (100, own.deadline_at), (3600, own.deadline_at)] {
        let (_, action) =
            step_with(&own, 10, DeliveryPhase::Sending, responded(Ok(500), NOW), pause);
        match action {
            DeliveryAction::RecordRetry { next_attempt_at, .. } => {
                assert_eq!(next_attempt_at, wanted)
            }
            other => panic!("not a retry: {other:?}"),
        }
    }
}

#[test]
fn failures_after_the_deadline_are_final() {
    let own = job();
    let (phase, action) =
        step(&own, 10, DeliveryPhase::Sending, responded(Ok(503), own.deadline_at));
    assert_eq!(phase, DeliveryPhase::RecordingFailure);
    match action {
        DeliveryAction::RecordFinalFailure { status_code, error, duration_ms } => {
            assert_eq!(status_code, Some(503));
            assert_eq!(error.as_deref(), Some("destination returned HTTP 503"));
            assert_eq!(duration_ms, 5);
        }
        other => panic!("not a final failure: {other:?}"),
    }
    let (phase, _) = step(&own, 10, DeliveryPhase::Sending, responded(Ok(200), own.deadline_at));
    assert_eq!(phase, DeliveryPhase::RecordingSuccess);
}

#[test]
fn pauses_of_a_step_follow_the_schedule() {
    let own = job();
    for _ in 0..100 {
        let (_, action) = step(&own, 10, DeliveryPhase::Sending, responded(Ok(500), NOW));
        match action {
            DeliveryAction::RecordRetry { next_attempt_at, .. } => {
                assert!(NOW + 48 * SECOND <= next_attempt_at);
                assert!(next_attempt_at <= NOW + 72 * SECOND);
            }
            other => panic!("not a retry: {other:?}"),
        }
    }
}

fn reported(phase: DeliveryPhase, attempt: Option<i32>) -> DeliveryReport {
    let (end, action) = step(&job(), 10, phase, DeliveryEvent::Recorded { attempt });
    assert_eq!(end, DeliveryPhase::Finished);
    match action {
        DeliveryAction::Report(report) => report,
        other => panic!("not a report: {other:?}"),
    }
}

#[test]
fn outcomes_are_reported() {
    assert_eq!(
        reported(DeliveryPhase::RecordingSuccess, Some(2)),
        DeliveryReport::Succeeded { attempt: 2 }
    );
    assert_eq!(
        reported(DeliveryPhase::RecordingRetry, Some(9)),
        DeliveryReport::RetryScheduled { attempt: 9 }
    );
    assert_eq!(
        reported(DeliveryPhase::RecordingRetry, Some(10)),
        DeliveryReport::StillFailing { attempt: 10 }
    );
    for phase in [DeliveryPhase::RecordingFailure, DeliveryPhase::RecordingExpiry] {
        assert_eq!(reported(phase, Some(2)), DeliveryReport::FailedForGood { attempt: 2 });
    }
    for phase in [
        DeliveryPhase::RecordingSuccess,
        DeliveryPhase::RecordingRetry,
        DeliveryPhase::RecordingFailure,
        DeliveryPhase::RecordingExpiry,
    ] {
        assert_eq!(reported(phase, None), DeliveryReport::LostLock { phase });
    }
}

#[test]
fn only_failures_for_good_are_errors() {
    let phase = DeliveryPhase::RecordingRetry;
    assert_eq!(DeliveryReport::Succeeded { attempt: 1 }.level(), LogLevel::Info);
    assert_eq!(DeliveryReport::RetryScheduled { attempt: 1 }.level(), LogLevel::Info);
    assert_eq!(DeliveryReport::StillFailing { attempt: 1 }.level(), LogLevel::Warn);
    assert_eq!(DeliveryReport::LostLock { phase }.level(), LogLevel::Warn);
    assert_eq!(DeliveryReport::FailedForGood { attempt: 1 }.level(), LogLevel::Error);
}

#[test]
fn workers_stop_when_told() {
    let looking = WorkerPhase::Checking;
    assert_eq!(worker_step(looking, WorkerEvent::Looked { stop: true }), WorkerPhase::Stopped);
    assert_eq!(worker_step(looking, WorkerEvent::Looked { stop: false }), WorkerPhase::Claiming);
    for phase in [WorkerPhase::Claiming, WorkerPhase::Idling] {
        for (sender_gone, stop) in [(true, false), (false, true), (true, true)] {
            let event = WorkerEvent::Interrupted { sender_gone, stop };
            assert_eq!(worker_step(phase, event), WorkerPhase::Stopped);
        }
        let event = WorkerEvent::Interrupted { sender_gone: false, stop: false };
        assert_eq!(worker_step(phase, event), WorkerPhase::Checking);
    }
}

#[test]
fn workers_deliver_what_they_claim() {
    let claiming = WorkerPhase::Claiming;
    assert_eq!(worker_step(claiming, WorkerEvent::Claimed { count: 0 }), WorkerPhase::Idling);
    assert_eq!(worker_step(claiming, WorkerEvent::Claimed { count: 3 }), WorkerPhase::Processing);
    assert_eq!(worker_step(claiming, WorkerEvent::ClaimFailed), WorkerPhase::Idling);
    assert_eq!(
        worker_step(WorkerPhase::Processing, WorkerEvent::Processed),
        WorkerPhase::Checking
    );
    assert_eq!(worker_step(WorkerPhase::Idling, WorkerEvent::Waited), WorkerPhase::Checking);
}
