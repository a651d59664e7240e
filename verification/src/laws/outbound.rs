//! What a destination is sent, and how it can make sure of the sender.

use crate::crypto::{base64_standard, hmac_sha256};
use crate::db::ClaimedJob;
use crate::delivery::{content_type, delivery_headers, worker_name};
use crate::identifier::{hex_char, hex_digit, identifier_text};
use crate::laws::inbound::lemma_same_bytes;
use crate::number::{int_text, int_value, nat_text, written_int_reads_back};
use crate::signing::{delivery_content, delivery_signature};
use vstd::arithmetic::div_mod::{lemma_basic_div, lemma_div_denominator, lemma_fundamental_div_mod};
use vstd::arithmetic::power::{lemma_pow0, lemma_pow1, lemma_pow_adds, lemma_pow_positive, pow};
use vstd::prelude::*;
use vstd::utf8::encode_utf8;

verus! {

/// What is signed of a delivery is its timestamp, its identifier, the identifier of the webhook,
/// the name of the destination, the number of the attempt and the whole body, with a dot after
/// each but the last: each byte of them in its place, and none besides.
pub proof fn delivery_content_holds_the_whole_delivery(
    timestamp: Seq<char>,
    delivery_id: Seq<char>,
    event_id: Seq<char>,
    destination: Seq<char>,
    attempt: int,
    body: Seq<u8>,
)
    ensures
        ({
            let content = delivery_content(
                timestamp,
                delivery_id,
                event_id,
                destination,
                attempt,
                body,
            );
            let a = encode_utf8(timestamp).len() as int;
            let b = a + 1 + encode_utf8(delivery_id).len();
            let c = b + 1 + encode_utf8(event_id).len();
            let d = c + 1 + encode_utf8(destination).len();
            let e = d + 1 + encode_utf8(int_text(attempt)).len();
            &&& content.len() == e + 1 + body.len()
            &&& content.take(a) == encode_utf8(timestamp)
            &&& content[a] == 46
            &&& content.subrange(a + 1, b) == encode_utf8(delivery_id)
            &&& content[b] == 46
            &&& content.subrange(b + 1, c) == encode_utf8(event_id)
            &&& content[c] == 46
            &&& content.subrange(c + 1, d) == encode_utf8(destination)
            &&& content[d] == 46
            &&& content.subrange(d + 1, e) == encode_utf8(int_text(attempt))
            &&& content[e] == 46
            &&& content.skip(e + 1) == body
        }),
{
    let content = delivery_content(timestamp, delivery_id, event_id, destination, attempt, body);
    let a = encode_utf8(timestamp).len() as int;
    let b = a + 1 + encode_utf8(delivery_id).len();
    let c = b + 1 + encode_utf8(event_id).len();
    let d = c + 1 + encode_utf8(destination).len();
    let e = d + 1 + encode_utf8(int_text(attempt)).len();
    assert(content.take(a) =~= encode_utf8(timestamp));
    assert(content.subrange(a + 1, b) =~= encode_utf8(delivery_id));
    assert(content.subrange(b + 1, c) =~= encode_utf8(event_id));
    assert(content.subrange(c + 1, d) =~= encode_utf8(destination));
    assert(content.subrange(d + 1, e) =~= encode_utf8(int_text(attempt)));
    assert(content.skip(e + 1) =~= body);
}

/// Deliveries that differ in their timestamp, their identifier or that of the webhook alone are
/// signed as different bytes.
pub proof fn different_identifiers_are_signed_differently(
    timestamp: Seq<char>,
    other_timestamp: Seq<char>,
    delivery_id: Seq<char>,
    other_delivery_id: Seq<char>,
    event_id: Seq<char>,
    other_event_id: Seq<char>,
    destination: Seq<char>,
    attempt: int,
    body: Seq<u8>,
)
    ensures
        ({
            let own = delivery_content(timestamp, delivery_id, event_id, destination, attempt, body);
            &&& own == delivery_content(
                other_timestamp,
                delivery_id,
                event_id,
                destination,
                attempt,
                body,
            ) ==> timestamp == other_timestamp
            &&& own == delivery_content(
                timestamp,
                other_delivery_id,
                event_id,
                destination,
                attempt,
                body,
            ) ==> delivery_id == other_delivery_id
            &&& own == delivery_content(
                timestamp,
                delivery_id,
                other_event_id,
                destination,
                attempt,
                body,
            ) ==> event_id == other_event_id
        }),
{
    let own = delivery_content(timestamp, delivery_id, event_id, destination, attempt, body);
    delivery_content_holds_the_whole_delivery(
        timestamp,
        delivery_id,
        event_id,
        destination,
        attempt,
        body,
    );
    delivery_content_holds_the_whole_delivery(
        other_timestamp,
        delivery_id,
        event_id,
        destination,
        attempt,
        body,
    );
    delivery_content_holds_the_whole_delivery(
        timestamp,
        other_delivery_id,
        event_id,
        destination,
        attempt,
        body,
    );
    delivery_content_holds_the_whole_delivery(
        timestamp,
        delivery_id,
        other_event_id,
        destination,
        attempt,
        body,
    );
    if own == delivery_content(other_timestamp, delivery_id, event_id, destination, attempt, body) {
        lemma_same_bytes(timestamp, other_timestamp);
    }
    if own == delivery_content(timestamp, other_delivery_id, event_id, destination, attempt, body) {
        lemma_same_bytes(delivery_id, other_delivery_id);
    }
    if own == delivery_content(timestamp, delivery_id, other_event_id, destination, attempt, body) {
        lemma_same_bytes(event_id, other_event_id);
    }
}

/// Deliveries that differ in the destination, the attempt or any byte of the body alone are signed
/// as different bytes.
pub proof fn different_deliveries_are_signed_differently(
    timestamp: Seq<char>,
    delivery_id: Seq<char>,
    event_id: Seq<char>,
    destination: Seq<char>,
    other_destination: Seq<char>,
    attempt: int,
    other_attempt: int,
    body: Seq<u8>,
    other_body: Seq<u8>,
)
    ensures
        ({
            let own = delivery_content(timestamp, delivery_id, event_id, destination, attempt, body);
            &&& own == delivery_content(
                timestamp,
                delivery_id,
                event_id,
                other_destination,
                attempt,
                body,
            ) ==> destination == other_destination
            &&& own == delivery_content(
                timestamp,
                delivery_id,
                event_id,
                destination,
                other_attempt,
                body,
            ) ==> attempt == other_attempt
            &&& own == delivery_content(
                timestamp,
                delivery_id,
                event_id,
                destination,
                attempt,
                other_body,
            ) ==> body == other_body
        }),
{
    let own = delivery_content(timestamp, delivery_id, event_id, destination, attempt, body);
    delivery_content_holds_the_whole_delivery(
        timestamp,
        delivery_id,
        event_id,
        destination,
        attempt,
        body,
    );
    delivery_content_holds_the_whole_delivery(
        timestamp,
        delivery_id,
        event_id,
        other_destination,
        attempt,
        body,
    );
    delivery_content_holds_the_whole_delivery(
        timestamp,
        delivery_id,
        event_id,
        destination,
        other_attempt,
        body,
    );
    delivery_content_holds_the_whole_delivery(
        timestamp,
        delivery_id,
        event_id,
        destination,
        attempt,
        other_body,
    );
    if own == delivery_content(timestamp, delivery_id, event_id, other_destination, attempt, body) {
        lemma_same_bytes(destination, other_destination);
    }
    if own == delivery_content(timestamp, delivery_id, event_id, destination, other_attempt, body) {
        lemma_same_bytes(int_text(attempt), int_text(other_attempt));
        let low = if attempt < other_attempt { attempt } else { other_attempt };
        let high = if attempt < other_attempt { other_attempt } else { attempt };
        written_int_reads_back(attempt, low, high);
        written_int_reads_back(other_attempt, low, high);
    }
}

/// The text of a delivery's signed parts, as its receiver puts it together from the headers.
pub open spec fn joined(parts: Seq<Seq<char>>, body: Seq<u8>) -> Seq<u8>
    decreases parts.len(),
{
    if parts.len() == 0 {
        body
    } else {
        encode_utf8(parts[0]) + seq![46u8] + joined(parts.drop_first(), body)
    }
}

proof fn lemma_joined(a: Seq<char>, b: Seq<char>, c: Seq<char>, d: Seq<char>, e: Seq<char>, body: Seq<u8>)
    ensures
        joined(seq![a, b, c, d, e], body) == encode_utf8(a) + seq![46u8] + encode_utf8(b) + seq![
            46u8,
        ] + encode_utf8(c) + seq![46u8] + encode_utf8(d) + seq![46u8] + encode_utf8(e) + seq![46u8]
            + body,
{
    assert(seq![a, b, c, d, e].drop_first() =~= seq![b, c, d, e]);
    assert(seq![b, c, d, e].drop_first() =~= seq![c, d, e]);
    assert(seq![c, d, e].drop_first() =~= seq![d, e]);
    assert(seq![d, e].drop_first() =~= seq![e]);
    assert(seq![e].drop_first() =~= Seq::<Seq<char>>::empty());
    reveal_with_fuel(joined, 6);
    assert(joined(seq![a, b, c, d, e], body) =~= encode_utf8(a) + seq![46u8] + encode_utf8(b)
        + seq![46u8] + encode_utf8(c) + seq![46u8] + encode_utf8(d) + seq![46u8] + encode_utf8(e)
        + seq![46u8] + body);
}

/// A destination that puts the parts together from the headers of the request and its body, as
/// they came, finds its own HMAC of them in the signature header. The headers say what the
/// delivery is: its identifier, that of the webhook, the attempt, the destination and the time.
pub proof fn destination_can_verify_a_delivery(
    secret: Seq<char>,
    job: ClaimedJob,
    attempt: i32,
    now: i64,
)
    ensures
        ({
            let h = delivery_headers(secret, job, attempt, now);
            &&& h.len() == 7
            &&& h[0] == ("content-type"@, content_type(job))
            &&& h[1] == ("x-resend-router-delivery-id"@, identifier_text(job.id))
            &&& h[2] == ("x-resend-router-event-id"@, identifier_text(job.event_id))
            &&& h[3].0 == "x-resend-router-attempt"@
            &&& int_value(h[3].1, i32::MIN as int, i32::MAX as int) == Ok::<
                int,
                crate::number::IntError,
            >(attempt as int)
            &&& h[4] == ("x-resend-router-destination"@, job.destination_name@)
            &&& h[5].0 == "x-resend-router-timestamp"@
            &&& int_value(h[5].1, i64::MIN as int, i64::MAX as int) == Ok::<
                int,
                crate::number::IntError,
            >(now as int)
            &&& h[6].0 == "x-resend-router-signature"@
            &&& h[6].1 == "v1,"@ + base64_standard(
                hmac_sha256(
                    encode_utf8(secret),
                    joined(seq![h[5].1, h[1].1, h[2].1, h[4].1, h[3].1], job.raw_body@),
                ),
            )
        }),
{
    let h = delivery_headers(secret, job, attempt, now);
    written_int_reads_back(attempt as int, i32::MIN as int, i32::MAX as int);
    written_int_reads_back(now as int, i64::MIN as int, i64::MAX as int);
    lemma_joined(h[5].1, h[1].1, h[2].1, h[4].1, h[3].1, job.raw_body@);
    let content = delivery_content(
        int_text(now as int),
        identifier_text(job.id),
        identifier_text(job.event_id),
        job.destination_name@,
        attempt as int,
        job.raw_body@,
    );
    assert(content =~= joined(seq![h[5].1, h[1].1, h[2].1, h[4].1, h[3].1], job.raw_body@));
}

/// A signature is `v1,` and base64 of the HMAC of the content under the bytes of the secret.
pub proof fn signature_is_the_hmac_of_its_content(secret: Seq<char>, content: Seq<u8>)
    ensures
        delivery_signature(secret, content).take(3) == "v1,"@,
        delivery_signature(secret, content).skip(3) == base64_standard(
            hmac_sha256(encode_utf8(secret), content),
        ),
{
    reveal_strlit("v1,");
    let s = delivery_signature(secret, content);
    assert(s.take(3) =~= "v1,"@);
    assert(s.skip(3) =~= base64_standard(hmac_sha256(encode_utf8(secret), content)));
}

/// The place in the text at which a digit of an identifier stands.
pub open spec fn place_in_text(digit: int) -> int {
    if digit < 8 {
        digit
    } else if digit < 12 {
        digit + 1
    } else if digit < 16 {
        digit + 2
    } else if digit < 20 {
        digit + 3
    } else {
        digit + 4
    }
}

/// Different identifiers are written differently.
pub proof fn identifiers_are_told_apart(a: u128, b: u128)
    ensures
        identifier_text(a).len() == 36,
        identifier_text(a) == identifier_text(b) ==> a == b,
{
    if identifier_text(a) == identifier_text(b) {
        lemma_same_quotients(a, b, 0);
        lemma_pow0(16);
        assert(a as int / 1 == a as int && b as int / 1 == b as int);
    }
}

proof fn lemma_same_quotients(a: u128, b: u128, k: nat)
    requires
        identifier_text(a) == identifier_text(b),
        k <= 32,
    ensures
        a as int / pow(16, k) == b as int / pow(16, k),
    decreases 32 - k,
{
    lemma_pow_positive(16, k);
    if k == 32 {
        lemma_pow1(16);
        lemma_pow_adds(16, 1, 1);
        lemma_squared(pow(16, 1), 16);
        lemma_pow_adds(16, 2, 2);
        lemma_squared(pow(16, 2), 0x100);
        lemma_pow_adds(16, 4, 4);
        lemma_squared(pow(16, 4), 0x1_0000);
        lemma_pow_adds(16, 8, 8);
        lemma_squared(pow(16, 8), 0x1_0000_0000);
        lemma_pow_adds(16, 16, 16);
        lemma_squared(pow(16, 16), 0x1_0000_0000_0000_0000);
        assert(pow(16, 32) == 0x1_0000_0000_0000_0000int * 0x1_0000_0000_0000_0000int);
        lemma_basic_div(a as int, pow(16, 32));
        lemma_basic_div(b as int, pow(16, 32));
    } else {
        lemma_same_quotients(a, b, k + 1);
        lemma_pow_adds(16, k, 1);
        lemma_pow1(16);
        let p = pow(16, k);
        lemma_div_denominator(a as int, p, 16);
        lemma_div_denominator(b as int, p, 16);
        lemma_fundamental_div_mod(a as int / p, 16);
        lemma_fundamental_div_mod(b as int / p, 16);
        let place = 31 - k;
        assert(identifier_text(a)[place_in_text(place)] == hex_digit(a, place));
        assert(identifier_text(b)[place_in_text(place)] == hex_digit(b, place));
        lemma_hex_char((a as int / p) % 16, (b as int / p) % 16);
    }
}

proof fn lemma_squared(x: int, n: int)
    requires
        x == n,
    ensures
        x * x == n * n,
{
}

proof fn lemma_hex_char(m: int, n: int)
    requires
        0 <= m < 16,
        0 <= n < 16,
        hex_char(m) == hex_char(n),
    ensures
        m == n,
{
    assert(hex_char(m) as u32 == if m < 10 { 48 + m } else { 97 + (m - 10) });
    assert(hex_char(n) as u32 == if n < 10 { 48 + n } else { 97 + (n - 10) });
}

/// The name of a worker is told by its number and its identifier: workers of different
/// identifiers have different names, and so have workers of different numbers.
pub proof fn workers_are_told_apart(index: nat, other_index: nat, id: u128, other_id: u128)
    ensures
        worker_name(index, id) == worker_name(index, other_id) ==> id == other_id,
        worker_name(index, id) == worker_name(other_index, id) ==> index == other_index,
        worker_name(index, id).take("delivery-worker-"@.len() as int) == "delivery-worker-"@,
        worker_name(index, id).skip(worker_name(index, id).len() - 36) == identifier_text(id),
{
    let w = "delivery-worker-"@;
    let own = worker_name(index, id);
    assert(own.take(w.len() as int) =~= w);
    assert(own.skip(own.len() - 36) =~= identifier_text(id));
    let third = worker_name(index, other_id);
    assert(third.skip(third.len() - 36) =~= identifier_text(other_id));
    if own == third {
        identifiers_are_told_apart(id, other_id);
    }
    let other = worker_name(other_index, id);
    if own == other {
        let n = nat_text(index).len() as int;
        let m = w.len() as int;
        assert(own.len() == m + n + "-"@.len() + 36);
        assert(other.len() == m + nat_text(other_index).len() + "-"@.len() + 36);
        assert(own.subrange(m, m + n) =~= nat_text(index));
        assert(other.subrange(m, m + n) =~= nat_text(other_index));
        let high = if index < other_index { other_index } else { index };
        written_int_reads_back(index as int, 0, high as int);
        written_int_reads_back(other_index as int, 0, high as int);
    }
}

} // verus!
