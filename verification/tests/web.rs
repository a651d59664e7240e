use axum::http::{HeaderMap, HeaderValue};
use base64::engine::general_purpose;
use base64::Engine as _;
use hmac::{Hmac, Mac};
use resend_router::config::{Config, DestinationConfig};
use resend_router::db::{plan_enqueue, EnqueueOutcome};
use resend_router::error::AppError;
use resend_router::router::RouteMatcher;
use resend_router::web::{receive_webhook, receive_webhook_at, webhook_status, WebhookDecision};
use sha2::Sha256;
use time::OffsetDateTime;

const KEY: &[u8] = b"webhook key";
const NOW: i64 = 1_700_000_000;

fn destination(name: &str, from: &str) -> DestinationConfig {
    DestinationConfig {
        name: name.to_string(),
        url: "https://app.example.com/hook".to_string(),
        from_domains: vec![from.to_string()],
        to_domains: vec![],
        event_types: vec![],
        catch_all: false,
    }
}

fn config() -> Config {
    Config {
        database_url: "postgres://localhost/router".to_string(),
        database_max_connections: 5,
        server_bind: "0.0.0.0:3000".to_string(),
        resend_webhook_secret: general_purpose::STANDARD.encode(KEY),
        resend_signature_tolerance_secs: 300,
        router_signing_secret: "0123456789abcdef0123456789abcdef".to_string(),
        destinations: vec![destination("a", "@A.com"), destination("b", "b.com")],
        delivery_worker_count: 2,
        delivery_claim_limit: 5,
        delivery_timeout_secs: 20,
        retry_window_secs: 259_200,
        warn_after_attempts: 10,
        stale_delivery_lock_secs: 300,
        worker_drain_timeout_secs: 30,
    }
}

fn signed(now: i64, body: &[u8]) -> HeaderMap {
    let mut mac = Hmac::<Sha256>::new_from_slice(KEY).unwrap();
    mac.update(format!("msg.{now}.").as_bytes());
    mac.update(body);
    let code = general_purpose::STANDARD.encode(mac.finalize().into_bytes());
    let mut headers = HeaderMap::new();
    headers.insert("svix-id", HeaderValue::from_static("msg"));
    headers.insert("svix-timestamp", HeaderValue::from_str(&now.to_string()).unwrap());
    headers.insert("svix-signature", HeaderValue::from_str(&format!("v1,{code}")).unwrap());
    headers
}

fn decide(headers: &HeaderMap, body: &[u8]) -> Result<WebhookDecision, AppError> {
    let config = config();
    let routes = RouteMatcher::new(config.destinations.clone());
    receive_webhook_at(&config, &routes, headers, body, NOW)
}

#[test]
fn wanted_webhooks_are_kept() {
    let body = br#"{"type":"email.sent","data":{"from":"X <x@a.COM>"}}"#;
    let headers = signed(NOW, body);
    match decide(&headers, body).unwrap() {
        WebhookDecision::Enqueue { event, destinations } => {
            assert_eq!(event.event_type.as_deref(), Some("email.sent"));
            assert_eq!(event.from_domain.as_deref(), Some("a.com"));
            assert_eq!(destinations.len(), 1);
            assert_eq!(destinations[0].name, "a");
            let now = NOW as i128 * 1_000_000_000;
            let plan =
                plan_enqueue(1, &vec![2], &headers, body, &event, &destinations, 60, now).unwrap();
            assert_eq!(plan.event.source_svix_id, "msg");
            assert_eq!(plan.event.raw_body, body);
            assert_eq!(plan.jobs[0].destination_name, "a");
        }
        other => panic!("not kept: {other:?}"),
    }
}

#[test]
fn unwanted_webhooks_are_dropped() {
    let body = br#"{"data":{"from":"x@c.com"}}"#;
    match decide(&signed(NOW, body), body).unwrap() {
        WebhookDecision::Drop { event } => {
            assert_eq!(event.from_domain.as_deref(), Some("c.com"))
        }
        other => panic!("not dropped: {other:?}"),
    }
}

#[test]
fn catch_all_destinations_leave_nothing_to_drop() {
    let body = br#"{"data":{}}"#;
    let mut own = config();
    own.destinations[1].catch_all = true;
    let routes = RouteMatcher::new(own.destinations.clone());
    match receive_webhook_at(&own, &routes, &signed(NOW, body), body, NOW).unwrap() {
        WebhookDecision::Enqueue { destinations, .. } => {
            assert_eq!(destinations.len(), 1);
            assert_eq!(destinations[0].name, "b");
        }
        other => panic!("not kept: {other:?}"),
    }
}

#[test]
fn refused_webhooks_are_client_errors() {
    let error = decide(&HeaderMap::new(), b"{}").unwrap_err();
    assert_eq!(error.status_code(), 400);
    assert_eq!(error.public_message(), "invalid webhook signature");
    assert_eq!(
        error.message(),
        "webhook signature verification failed: missing svix-id"
    );
    let error = decide(&signed(NOW, b"no json"), b"no json").unwrap_err();
    assert_eq!(error.status_code(), 400);
    assert_eq!(error.public_message(), "bad request");
    let error = decide(&signed(NOW, b"other"), b"no json").unwrap_err();
    assert_eq!(error.public_message(), "invalid webhook signature");
}

#[test]
fn webhooks_come_in_by_the_clock() {
    let body = br#"{"data":{"from":"x@b.com"}}"#;
    let config = config();
    let routes = RouteMatcher::new(config.destinations.clone());
    let now = OffsetDateTime::now_utc().unix_timestamp();
    assert!(receive_webhook(&config, &routes, &signed(now, body), body).is_ok());
    assert!(receive_webhook(&config, &routes, &signed(now - 4000, body), body).is_err());
}

#[test]
fn statuses_of_webhooks() {
    assert_eq!(webhook_status(None), 204);
    assert_eq!(webhook_status(Some(EnqueueOutcome::Inserted(1))), 202);
    assert_eq!(webhook_status(Some(EnqueueOutcome::Duplicate)), 202);
}

#[test]
fn errors_tell_clients_little() {
    let words = || "words".to_string();
    for (error, message) in [
        (AppError::config(words()), "configuration error: words"),
        (AppError::Database(words()), "database error: words"),
        (AppError::Migration(words()), "database migration error: words"),
        (AppError::HttpClient(words()), "http client error: words"),
        (AppError::Io(words()), "io error: words"),
    ] {
        assert_eq!(error.status_code(), 500);
        assert_eq!(error.public_message(), "internal server error");
        assert_eq!(error.message(), message);
    }
    assert_eq!(AppError::bad_request(words()).message(), "bad request: words");
    assert_eq!(
        AppError::signature(words()).message(),
        "webhook signature verification failed: words"
    );
}
