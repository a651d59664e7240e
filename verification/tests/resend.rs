use axum::http::{HeaderMap, HeaderValue};
use base64::engine::general_purpose;
use base64::Engine as _;
use hmac::{Hmac, Mac};
use resend_router::crypto::decode_base64;
use resend_router::error::AppError;
use resend_router::headers::header_text;
use resend_router::resend::{
    any_signature, event_for_routing, extract_domains_from_value, extract_email_domain,
    parse_event_for_routing, signed_content, verify_timestamp_at, verify_webhook_signature,
    verify_webhook_signature_at,
};
use serde_json::Value;
use sha2::Sha256;
use time::OffsetDateTime;

type HmacSha256 = Hmac<Sha256>;

#[test]
fn extracts_domain_from_resend_from_header() {
    assert_eq!(
        extract_email_domain("Example <hello@mail.example.com>"),
        Some("mail.example.com".to_string())
    );
    assert_eq!(
        extract_email_domain("sender@example.com"),
        Some("example.com".to_string())
    );
}

#[test]
fn parses_routing_fields() {
    let payload = br#"{
            "type": "email.delivered",
            "data": {
                "email_id": "email_123",
                "from": "Example <hello@example.com>",
                "to": ["Person <person@customer.com>"]
            }
        }"#;

    let event = parse_event_for_routing(payload).unwrap();

    assert_eq!(event.event_id.as_deref(), Some("email_123"));
    assert_eq!(event.event_type.as_deref(), Some("email.delivered"));
    assert_eq!(event.from_domain.as_deref(), Some("example.com"));
    assert_eq!(event.to_domains, vec!["customer.com"]);
}

#[test]
fn verifies_svix_signature() {
    let key = b"a very secret webhook key";
    let secret = format!("whsec_{}", general_purpose::STANDARD.encode(key));
    let body = br#"{"test":true}"#;
    let svix_id = "msg_test";
    let timestamp = OffsetDateTime::now_utc().unix_timestamp().to_string();

    let mut signed_content = Vec::new();
    signed_content.extend_from_slice(svix_id.as_bytes());
    signed_content.push(b'.');
    signed_content.extend_from_slice(timestamp.as_bytes());
    signed_content.push(b'.');
    signed_content.extend_from_slice(body);

    let mut mac = HmacSha256::new_from_slice(key).unwrap();
    mac.update(&signed_content);
    let signature = general_purpose::STANDARD.encode(mac.finalize().into_bytes());

    let mut headers = HeaderMap::new();
    headers.insert("svix-id", HeaderValue::from_static(svix_id));
    headers.insert("svix-timestamp", HeaderValue::from_str(&timestamp).unwrap());
    headers.insert(
        "svix-signature",
        HeaderValue::from_str(&format!("v1,{signature}")).unwrap(),
    );

    verify_webhook_signature(&secret, 300, &headers, body).unwrap();
}

const KEY: &[u8] = b"a very secret webhook key";
const NOW: i64 = 1_700_000_000;

fn secret() -> String {
    format!("whsec_{}", general_purpose::STANDARD.encode(KEY))
}

fn digest(content: &[u8]) -> Vec<u8> {
    let mut mac = HmacSha256::new_from_slice(KEY).unwrap();
    mac.update(content);
    mac.finalize().into_bytes().to_vec()
}

fn signed(timestamp: &str, body: &[u8]) -> HeaderMap {
    let mut content = format!("msg.{timestamp}.").into_bytes();
    content.extend_from_slice(body);
    let code = general_purpose::STANDARD.encode(digest(&content));
    headers("msg", timestamp, &format!("v1,{code}"))
}

fn headers(id: &str, timestamp: &str, signature: &str) -> HeaderMap {
    let mut headers = HeaderMap::new();
    headers.insert("svix-id", HeaderValue::from_str(id).unwrap());
    headers.insert("svix-timestamp", HeaderValue::from_str(timestamp).unwrap());
    headers.insert("svix-signature", HeaderValue::from_str(signature).unwrap());
    headers
}

fn refusal(result: Result<(), AppError>) -> String {
    match result {
        Err(AppError::Signature(words)) => words,
        other => panic!("not a signature error: {other:?}"),
    }
}

#[test]
fn domains_of_odd_addresses() {
    let domain = |field: &str| extract_email_domain(field);
    let some = |text: &str| Some(text.to_string());
    assert_eq!(domain(""), None);
    assert_eq!(domain("   "), None);
    assert_eq!(domain("nobody"), None);
    assert_eq!(domain("a@"), None);
    assert_eq!(domain("a@..."), None);
    assert_eq!(domain("a@ ,b"), None);
    assert_eq!(domain("  A@B.Com.  "), some("b.com"));
    assert_eq!(domain("x@y@z.org"), some("z.org"));
    assert_eq!(domain("N <a@b.c"), some("b.c"));
    assert_eq!(domain("N <a@b.c> <d@e.f>"), some("b.c"));
    assert_eq!(domain("\"a@b.c\""), some("b.c"));
    assert_eq!(domain("'a@b.c'"), some("b.c"));
    assert_eq!(domain("a@b.c;"), some("b.c"));
    assert_eq!(domain("a@b.c, d"), some("b.c"));
    assert_eq!(domain("a@b.c d"), some("b.c"));
    assert_eq!(domain("a@b.c>"), some("b.c"));
    assert_eq!(domain("a@\u{c4}B.c"), some("\u{c4}b.c"));
}

#[test]
fn read_domains_are_bare() {
    for field in ["A <x@Y.Z.>", "q@w e", "q@W,e", "a@b@C.d;"] {
        let domain = extract_email_domain(field).unwrap();
        assert!(!domain.is_empty() && !domain.ends_with('.'));
        assert!(domain.chars().all(|c| {
            c != '@' && c != ',' && !c.is_whitespace() && !c.is_ascii_uppercase()
        }));
    }
}

#[test]
fn events_have_the_first_identifier_found() {
    let id = |text: &str| parse_event_for_routing(text.as_bytes()).unwrap().event_id;
    assert_eq!(
        id(r#"{"id":"a","data":{"email_id":"b","id":"c"}}"#).as_deref(),
        Some("a")
    );
    assert_eq!(id(r#"{"id":1,"data":{"email_id":"b","id":"c"}}"#).as_deref(), Some("b"));
    assert_eq!(id(r#"{"data":{"id":"c"}}"#).as_deref(), Some("c"));
    assert_eq!(id(r#"{"data":[]}"#), None);
    assert_eq!(id("[]"), None);
    assert_eq!(id("null"), None);
}

#[test]
fn events_without_routing_fields_are_empty() {
    let event = parse_event_for_routing(br#"{"type":5,"data":{"from":[],"to":{}}}"#).unwrap();
    assert_eq!(event.event_type, None);
    assert_eq!(event.from_domain, None);
    assert!(event.to_domains.is_empty());
    let copy = event.clone();
    assert_eq!(copy, event);
}

#[test]
fn recipients_are_one_address_or_many() {
    let of = |text: &str| {
        let value: Value = serde_json::from_str(text).unwrap();
        extract_domains_from_value(Some(&value))
    };
    assert_eq!(of(r#""a@B.c""#), ["b.c"]);
    assert_eq!(of(r#"["a@b.c", 1, "none", "d@e.f", "g@b.c"]"#), ["b.c", "e.f", "b.c"]);
    assert!(of("[]").is_empty());
    assert!(of("7").is_empty());
    assert!(extract_domains_from_value(None).is_empty());
}

#[test]
fn events_are_read_from_values() {
    let value: Value =
        serde_json::from_str(r#"{"type":"t","data":{"from":"x@Y.z","to":"p@q.r"}}"#).unwrap();
    let event = event_for_routing(&value);
    assert_eq!(event.event_type.as_deref(), Some("t"));
    assert_eq!(event.from_domain.as_deref(), Some("y.z"));
    assert_eq!(event.to_domains, ["q.r"]);
}

#[test]
fn bodies_that_are_no_json_are_bad_requests() {
    let error = parse_event_for_routing(b"{").unwrap_err();
    let words = serde_json::from_slice::<Value>(b"{").unwrap_err().to_string();
    assert_eq!(error.message(), format!("bad request: invalid json payload: {words}"));
    assert!(parse_event_for_routing(b"\"\xff\"").is_err());
}

#[test]
fn signed_webhooks_are_accepted() {
    let body = b"{\"a\":1}";
    let own = signed("1700000000", body);
    assert!(verify_webhook_signature_at(&secret(), 300, &own, body, NOW).is_ok());
    assert!(verify_webhook_signature_at(&secret(), 300, &own, body, NOW + 300).is_ok());
    assert!(verify_webhook_signature_at(&secret(), 300, &own, body, NOW - 300).is_ok());
    let bare = general_purpose::STANDARD.encode(KEY);
    assert!(verify_webhook_signature_at(&bare, 300, &own, body, NOW).is_ok());
}

#[test]
fn changed_webhooks_are_refused() {
    let own = signed("1700000000", b"body");
    let words = refusal(verify_webhook_signature_at(&secret(), 300, &own, b"other", NOW));
    assert_eq!(words, "no matching v1 signature");
    let mut changed = own.clone();
    changed.insert("svix-id", HeaderValue::from_static("msg2"));
    let words = refusal(verify_webhook_signature_at(&secret(), 300, &changed, b"body", NOW));
    assert_eq!(words, "no matching v1 signature");
    let mut changed = own.clone();
    changed.insert("svix-timestamp", HeaderValue::from_static("1700000001"));
    let words = refusal(verify_webhook_signature_at(&secret(), 300, &changed, b"body", NOW));
    assert_eq!(words, "no matching v1 signature");
    let other = general_purpose::STANDARD.encode(b"another key");
    let words = refusal(verify_webhook_signature_at(&other, 300, &own, b"body", NOW));
    assert_eq!(words, "no matching v1 signature");
}

#[test]
fn missing_and_unreadable_headers_are_refused() {
    let own = signed("1700000000", b"body");
    for name in ["svix-id", "svix-timestamp", "svix-signature"] {
        let mut without = own.clone();
        without.remove(name);
        let words = refusal(verify_webhook_signature_at(&secret(), 300, &without, b"body", NOW));
        assert_eq!(words, format!("missing {name}"));
        let mut odd = own.clone();
        odd.insert(name, HeaderValue::from_bytes(b"\xc3\xa9").unwrap());
        let words = refusal(verify_webhook_signature_at(&secret(), 300, &odd, b"body", NOW));
        assert_eq!(words, format!("{name} is not valid utf-8"));
    }
    let words = refusal(verify_webhook_signature_at(&secret(), 0, &HeaderMap::new(), b"", NOW));
    assert_eq!(words, "missing svix-id");
}

#[test]
fn only_the_first_header_of_a_name_counts() {
    let mut own = signed("1700000000", b"body");
    own.append("svix-signature", HeaderValue::from_static("v1,AAAA"));
    assert!(verify_webhook_signature_at(&secret(), 300, &own, b"body", NOW).is_ok());
    let mut late = headers("msg", "1700000000", "v1,AAAA");
    let good = signed("1700000000", b"body");
    late.append("svix-signature", good.get("svix-signature").unwrap().clone());
    assert!(verify_webhook_signature_at(&secret(), 300, &late, b"body", NOW).is_err());
}

#[test]
fn secrets_must_be_base64() {
    let own = signed("1700000000", b"body");
    let words = refusal(verify_webhook_signature_at("whsec_!", 300, &own, b"body", NOW));
    assert_eq!(words, "webhook secret is not valid base64");
}

#[test]
fn timestamps_are_compared_with_the_clock() {
    let words = |t: &str, tolerance: i64, now: i64| refusal(verify_timestamp_at(t, tolerance, now));
    assert_eq!(words("5", 0, 5), "signature tolerance must be positive");
    assert_eq!(words("five", 10, 5), "svix-timestamp is not an integer");
    assert_eq!(words(" 5", 10, 5), "svix-timestamp is not an integer");
    assert_eq!(words("5", 10, 16), "svix-timestamp is outside tolerance");
    assert_eq!(words("16", 10, 5), "svix-timestamp is outside tolerance");
    assert_eq!(
        words("-9223372036854775808", i64::MAX, i64::MAX),
        "svix-timestamp is outside tolerance"
    );
    assert!(verify_timestamp_at("5", 10, 15).is_ok());
    assert!(verify_timestamp_at("+15", 10, 5).is_ok());
    assert!(verify_timestamp_at("-5", 10, 5).is_ok());
}

#[test]
fn clock_is_read_for_signatures() {
    let now = OffsetDateTime::now_utc().unix_timestamp();
    let own = signed(&now.to_string(), b"body");
    assert!(verify_webhook_signature(&secret(), 300, &own, b"body").is_ok());
    let old = signed(&(now - 4000).to_string(), b"body");
    let words = refusal(verify_webhook_signature(&secret(), 300, &old, b"body"));
    assert_eq!(words, "svix-timestamp is outside tolerance");
}

#[test]
fn one_of_many_signatures_is_enough() {
    let wanted = vec![1u8, 2, 3];
    let code = general_purpose::STANDARD.encode(&wanted);
    assert!(any_signature(&format!("v1,{code}"), &wanted));
    assert!(any_signature(&format!("v1,AAAA  v2,x v1,{code}\tv1,!"), &wanted));
    assert!(!any_signature(&format!("v2,{code}"), &wanted));
    assert!(!any_signature(&code, &wanted));
    assert!(!any_signature("", &wanted));
    assert!(!any_signature(&format!("v1,{code}="), &wanted));
}

#[test]
fn signed_content_has_dots_between_its_parts() {
    assert_eq!(signed_content("id", "17", b"a.b"), b"id.17.a.b");
}

#[test]
fn base64_is_read_in_four_kinds() {
    let bytes = vec![0xfb, 0xff, 0xfe, 0x01];
    for code in [
        general_purpose::STANDARD.encode(&bytes),
        general_purpose::STANDARD_NO_PAD.encode(&bytes),
        general_purpose::URL_SAFE.encode(&bytes),
        general_purpose::URL_SAFE_NO_PAD.encode(&bytes),
    ] {
        assert_eq!(decode_base64(&code), Some(bytes.clone()), "{code}");
    }
    assert_eq!(decode_base64(""), Some(vec![]));
    assert_eq!(decode_base64("a b"), None);
}

#[test]
fn header_text_is_that_of_the_http_crate() {
    for b in 0..=255u8 {
        let bytes = vec![b'x', b, b'y'];
        if let Ok(value) = HeaderValue::from_bytes(&bytes) {
            assert_eq!(header_text(&bytes).as_deref(), value.to_str().ok(), "{b}");
        }
    }
    assert_eq!(header_text(&vec![]).as_deref(), Some(""));
}
