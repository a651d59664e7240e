use axum::http::{HeaderMap, HeaderValue};
use resend_router::config::DestinationConfig;
use resend_router::db::{
    header_value_from_json, headers_to_json, plan_enqueue, record_final_failure, record_retry,
    record_success, recorded_attempt, settle_enqueue, ClaimedJob, EnqueueOutcome, JobStatus,
};
use resend_router::error::AppError;
use resend_router::resend::ResendEventForRouting;
use serde_json::Value;

#[test]
fn serializes_headers_case_insensitively() {
    let mut headers = HeaderMap::new();
    headers.insert("Content-Type", HeaderValue::from_static("application/json"));

    let json = headers_to_json(&headers);

    assert_eq!(
        header_value_from_json(&json, "content-type").as_deref(),
        Some("application/json")
    );
}

#[test]
fn kept_headers_read_back() {
    let mut headers = HeaderMap::new();
    headers.append("X-One", HeaderValue::from_static("1"));
    headers.append("x-two", HeaderValue::from_static("a"));
    headers.append("X-Two", HeaderValue::from_static("b"));
    headers.append("x-two", HeaderValue::from_static("c"));
    headers.append("x-odd", HeaderValue::from_bytes(b"\xff").unwrap());
    let json = headers_to_json(&headers);
    let wanted: Value =
        serde_json::from_str(r#"{"x-one":"1","x-two":["a","b","c"],"x-odd":"<non-utf8>"}"#)
            .unwrap();
    assert_eq!(json, wanted);
    assert_eq!(header_value_from_json(&json, "X-ONE").as_deref(), Some("1"));
    assert_eq!(header_value_from_json(&json, "X-Two").as_deref(), Some("a"));
    assert_eq!(header_value_from_json(&json, "x-odd").as_deref(), Some("<non-utf8>"));
    assert_eq!(header_value_from_json(&json, "x-none"), None);
}

#[test]
fn kept_values_of_other_kinds_are_nothing() {
    let json: Value =
        serde_json::from_str(r#"{"a":1,"b":[],"c":[2,"x"],"d":["y",3],"e":null}"#).unwrap();
    assert_eq!(header_value_from_json(&json, "a"), None);
    assert_eq!(header_value_from_json(&json, "b"), None);
    assert_eq!(header_value_from_json(&json, "c"), None);
    assert_eq!(header_value_from_json(&json, "d").as_deref(), Some("y"));
    assert_eq!(header_value_from_json(&json, "e"), None);
    assert_eq!(header_value_from_json(&Value::Null, "a"), None);
}

const NOW: i128 = 1_700_000_000_123_456_789;

fn event() -> ResendEventForRouting {
    ResendEventForRouting {
        event_id: Some("email_123".to_string()),
        event_type: Some("email.sent".to_string()),
        from_domain: None,
        to_domains: vec![],
    }
}

fn destination(name: &str) -> DestinationConfig {
    DestinationConfig {
        name: name.to_string(),
        url: format!("https://{name}.example.com"),
        from_domains: vec![],
        to_domains: vec![],
        event_types: vec![],
        catch_all: true,
    }
}

fn svix_headers() -> HeaderMap {
    let mut headers = HeaderMap::new();
    headers.insert("svix-id", HeaderValue::from_static("msg_1"));
    headers.insert("svix-timestamp", HeaderValue::from_static("1700000000"));
    headers
}

#[test]
fn webhooks_are_kept_with_a_delivery_for_each_destination() {
    let headers = svix_headers();
    let destinations = vec![destination("a"), destination("b")];
    let plan = plan_enqueue(
        1,
        &vec![10, 11],
        &headers,
        b"raw\xff",
        &event(),
        &destinations,
        259_200,
        NOW,
    )
    .unwrap();
    assert_eq!(plan.event.id, 1);
    assert_eq!(plan.event.source_svix_id, "msg_1");
    assert_eq!(plan.event.source_svix_timestamp, "1700000000");
    assert_eq!(plan.event.received_at, NOW);
    assert_eq!(plan.event.resend_event_id.as_deref(), Some("email_123"));
    assert_eq!(plan.event.resend_event_type.as_deref(), Some("email.sent"));
    assert_eq!(plan.event.raw_body, b"raw\xff");
    assert_eq!(plan.event.headers, headers_to_json(&headers));
    assert_eq!(plan.event.matched_destination_count, 2);
    assert_eq!(plan.jobs.len(), 2);
    for (i, job) in plan.jobs.iter().enumerate() {
        assert_eq!(job.id, 10 + i as u128);
        assert_eq!(job.event_id, 1);
        assert_eq!(job.destination_name, destinations[i].name);
        assert_eq!(job.destination_url, destinations[i].url);
        assert_eq!(job.status.as_str(), "queued");
        assert_eq!(job.attempt_count, 0);
        assert_eq!(job.next_attempt_at, NOW);
        assert_eq!(job.deadline_at, NOW + 259_200_000_000_000);
        assert_eq!(job.created_at, NOW);
        assert_eq!(job.updated_at, NOW);
    }
}

#[test]
fn webhooks_are_kept_only_with_their_origin() {
    let mut headers = svix_headers();
    headers.remove("svix-timestamp");
    match plan_enqueue(1, &vec![], &headers, b"", &event(), &vec![], 1, NOW) {
        Err(AppError::BadRequest(words)) => assert_eq!(words, "missing svix-timestamp"),
        other => panic!("not a bad request: {other:?}"),
    }
    headers.insert("svix-id", HeaderValue::from_bytes(b"\xff").unwrap());
    match plan_enqueue(1, &vec![], &headers, b"", &event(), &vec![], 1, NOW) {
        Err(AppError::BadRequest(words)) => assert_eq!(words, "missing svix-id"),
        other => panic!("not a bad request: {other:?}"),
    }
}

#[test]
fn known_webhooks_get_no_new_deliveries() {
    let plan = || {
        let destinations = vec![destination("a"), destination("b")];
        let ids = vec![10, 11];
        plan_enqueue(1, &ids, &svix_headers(), b"", &event(), &destinations, 60, NOW).unwrap()
    };
    let (jobs, outcome) = settle_enqueue(plan(), None);
    assert!(jobs.is_empty());
    assert_eq!(outcome, EnqueueOutcome::Duplicate);
    let (jobs, outcome) = settle_enqueue(plan(), Some(5));
    assert_eq!(outcome, EnqueueOutcome::Inserted(5));
    assert_eq!(jobs.len(), 2);
    assert!(jobs.iter().all(|job| job.event_id == 5 && job.deadline_at == NOW + 60_000_000_000));
    assert_eq!(jobs[1].destination_name, "b");
}

#[test]
fn statuses_have_their_words() {
    assert_eq!(JobStatus::Queued.as_str(), "queued");
    assert_eq!(JobStatus::Delivering.as_str(), "delivering");
    assert_eq!(JobStatus::Retrying.as_str(), "retrying");
    assert_eq!(JobStatus::Succeeded.as_str(), "succeeded");
    assert_eq!(JobStatus::Failed.as_str(), "failed");
}

fn job() -> ClaimedJob {
    ClaimedJob {
        id: 10,
        event_id: 1,
        destination_name: "a".to_string(),
        destination_url: "https://a.example.com".to_string(),
        attempt_count: 3,
        deadline_at: NOW + 1,
        locked_by: "worker".to_string(),
        raw_body: b"raw".to_vec(),
        headers: Value::Null,
    }
}

#[test]
fn successes_complete_a_delivery() {
    let record = record_success(&job(), 204, 17, NOW);
    assert_eq!(record.attempt.job_id, 10);
    assert_eq!(record.attempt.attempt_number, 4);
    assert_eq!(record.attempt.attempted_at, NOW);
    assert_eq!(record.attempt.status_code, Some(204));
    assert_eq!(record.attempt.error, None);
    assert_eq!(record.attempt.duration_ms, 17);
    assert!(!record.attempt.will_retry);
    assert_eq!(record.attempt.next_attempt_at, None);
    assert_eq!(record.update.job_id, 10);
    assert_eq!(record.update.held_by, "worker");
    assert_eq!(record.update.status, JobStatus::Succeeded);
    assert_eq!(record.update.attempt_count, 4);
    assert_eq!(record.update.next_attempt_at, None);
    assert_eq!(record.update.last_attempt_at, NOW);
    assert_eq!(record.update.last_status_code, Some(204));
    assert_eq!(record.update.last_error, None);
    assert_eq!(record.update.completed_at, Some(NOW));
}

#[test]
fn retries_keep_a_delivery_open() {
    let error = Some("refused".to_string());
    let record = record_retry(&job(), None, &error, i64::MAX, NOW + 9, NOW);
    assert_eq!(record.attempt.status_code, None);
    assert_eq!(record.attempt.error, error);
    assert_eq!(record.attempt.duration_ms, -1);
    assert!(record.attempt.will_retry);
    assert_eq!(record.attempt.next_attempt_at, Some(NOW + 9));
    assert_eq!(record.update.status, JobStatus::Retrying);
    assert_eq!(record.update.next_attempt_at, Some(NOW + 9));
    assert_eq!(record.update.last_error, error);
    assert_eq!(record.update.completed_at, None);
}

#[test]
fn final_failures_complete_a_delivery() {
    let error = Some("HTTP 500".to_string());
    let record = record_final_failure(&job(), Some(500), &error, 2, NOW);
    assert_eq!(record.attempt.status_code, Some(500));
    assert!(!record.attempt.will_retry);
    assert_eq!(record.update.status, JobStatus::Failed);
    assert_eq!(record.update.last_error, error);
    assert_eq!(record.update.completed_at, Some(NOW));
}

#[test]
fn attempts_count_only_for_the_holder() {
    let record = record_success(&job(), 200, 0, NOW);
    assert_eq!(recorded_attempt(&record, 1), Some(4));
    assert_eq!(recorded_attempt(&record, 0), None);
}
