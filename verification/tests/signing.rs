use base64::engine::general_purpose;
use base64::Engine as _;
use hmac::{Hmac, Mac};
use resend_router::signing::{content_to_sign, sign_delivery};
use sha2::Sha256;

#[test]
fn signatures_are_deterministic() {
    let first = sign_delivery(
        "secret",
        "1700000000",
        "delivery",
        "event",
        "destination",
        1,
        b"body",
    );
    let second = sign_delivery(
        "secret",
        "1700000000",
        "delivery",
        "event",
        "destination",
        1,
        b"body",
    );

    assert_eq!(first, second);
    assert!(first.starts_with("v1,"));
}

#[test]
fn content_has_dots_between_its_parts() {
    assert_eq!(
        content_to_sign("1700000000", "delivery", "event", "destination", -7, b"bo.dy\xff"),
        b"1700000000.delivery.event.destination.-7.bo.dy\xff"
    );
}

#[test]
fn receivers_can_verify_signatures() {
    let signature = sign_delivery("secret", "1", "d", "e", "n", 2, b"{}");
    let mut mac = Hmac::<Sha256>::new_from_slice(b"secret").unwrap();
    mac.update(b"1.d.e.n.2.{}");
    let digest = mac.finalize().into_bytes();
    assert_eq!(signature, format!("v1,{}", general_purpose::STANDARD.encode(digest)));
    assert_eq!(signature.len(), 47);
    assert!(signature.bytes().all(|b| b.is_ascii_graphic()));
    let code = signature.strip_prefix("v1,").unwrap();
    assert_eq!(general_purpose::STANDARD.decode(code).unwrap(), digest.to_vec());
}

#[test]
fn every_part_counts_in_a_signature() {
    let base = sign_delivery("s", "1", "d", "e", "n", 2, b"x");
    assert_ne!(base, sign_delivery("t", "1", "d", "e", "n", 2, b"x"));
    assert_ne!(base, sign_delivery("s", "2", "d", "e", "n", 2, b"x"));
    assert_ne!(base, sign_delivery("s", "1", "f", "e", "n", 2, b"x"));
    assert_ne!(base, sign_delivery("s", "1", "d", "f", "n", 2, b"x"));
    assert_ne!(base, sign_delivery("s", "1", "d", "e", "m", 2, b"x"));
    assert_ne!(base, sign_delivery("s", "1", "d", "e", "n", 3, b"x"));
    assert_ne!(base, sign_delivery("s", "1", "d", "e", "n", 2, b"y"));
}
