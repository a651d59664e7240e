//! Who has signed a webhook.

use crate::crypto::{
    from_base64, from_standard, from_standard_no_pad, from_url_safe, from_url_safe_no_pad,
    hmac_sha256,
};
use crate::headers::{first_value, visible_text};
use crate::laws::numbers::written_numbers_are_read;
use crate::laws::texts::prefix_comes_off_whole;
use crate::number::{int_text, int_value, written_int_reads_back};
use crate::resend::{
    accepted_webhook_is_signed, is_signature, is_signed, required_header, signature_error,
    single_signature_counts, timestamp_error, webhook_content, webhook_key,
};
use crate::text::{after_prefix, is_space, lemma_one_word, words};
use vstd::prelude::*;
use vstd::utf8::{encode_utf8, encode_utf8_decode_utf8};

verus! {

/// Texts with the same bytes are the same.
pub proof fn lemma_same_bytes(a: Seq<char>, b: Seq<char>)
    requires
        encode_utf8(a) == encode_utf8(b),
    ensures
        a == b,
{
    encode_utf8_decode_utf8(a);
    encode_utf8_decode_utf8(b);
}

/// What is signed is the identifier, a dot, the timestamp, a dot and the whole body: each byte of
/// them in its place, and none besides.
pub proof fn signed_content_holds_the_whole_webhook(
    id: Seq<char>,
    timestamp: Seq<char>,
    body: Seq<u8>,
)
    ensures
        ({
            let content = webhook_content(id, timestamp, body);
            let a = encode_utf8(id).len() as int;
            let b = encode_utf8(timestamp).len() as int;
            &&& content.len() == a + b + body.len() + 2
            &&& content.take(a) == encode_utf8(id)
            &&& content[a] == 46
            &&& content.subrange(a + 1, a + 1 + b) == encode_utf8(timestamp)
            &&& content[a + 1 + b] == 46
            &&& content.skip(a + b + 2) == body
        }),
{
    let content = webhook_content(id, timestamp, body);
    let a = encode_utf8(id).len() as int;
    let b = encode_utf8(timestamp).len() as int;
    assert(content.take(a) =~= encode_utf8(id));
    assert(content.subrange(a + 1, a + 1 + b) =~= encode_utf8(timestamp));
    assert(content.skip(a + b + 2) =~= body);
}

/// Webhooks that differ in the identifier, the timestamp or any byte of the body alone are signed
/// as different bytes.
pub proof fn different_webhooks_are_signed_differently(
    id: Seq<char>,
    other_id: Seq<char>,
    timestamp: Seq<char>,
    other_timestamp: Seq<char>,
    body: Seq<u8>,
    other_body: Seq<u8>,
)
    ensures
        webhook_content(id, timestamp, body) == webhook_content(id, timestamp, other_body) ==> body
            == other_body,
        webhook_content(id, timestamp, body) == webhook_content(other_id, timestamp, body) ==> id
            == other_id,
        webhook_content(id, timestamp, body) == webhook_content(id, other_timestamp, body)
            ==> timestamp == other_timestamp,
{
    signed_content_holds_the_whole_webhook(id, timestamp, body);
    signed_content_holds_the_whole_webhook(id, timestamp, other_body);
    signed_content_holds_the_whole_webhook(other_id, timestamp, body);
    signed_content_holds_the_whole_webhook(id, other_timestamp, body);
    if webhook_content(id, timestamp, body) == webhook_content(other_id, timestamp, body) {
        lemma_same_bytes(id, other_id);
    }
    if webhook_content(id, timestamp, body) == webhook_content(id, other_timestamp, body) {
        lemma_same_bytes(timestamp, other_timestamp);
    }
}

/// Whether the entry is the first of its name.
pub open spec fn is_first(entries: Seq<(Seq<char>, Seq<u8>)>, i: int, name: Seq<char>) -> bool {
    &&& 0 <= i < entries.len()
    &&& entries[i].0 == name
    &&& forall|j: int| 0 <= j < i ==> (#[trigger] entries[j]).0 != name
}

/// Whether the bytes are the text, in visible ASCII, blanks and tabs.
pub open spec fn says(bytes: Seq<u8>, text: Seq<char>) -> bool {
    &&& bytes.len() == text.len()
    &&& forall|i: int|
        0 <= i < bytes.len() ==> {
            let b = #[trigger] bytes[i];
            (32 <= b < 127 || b == 9) && b as char == text[i]
        }
}

/// A header that must be there is the text of the first entry of its name.
pub proof fn first_header_is_read(
    entries: Seq<(Seq<char>, Seq<u8>)>,
    i: int,
    name: Seq<char>,
    text: Seq<char>,
)
    requires
        is_first(entries, i, name),
        says(entries[i].1, text),
    ensures
        required_header(entries, name) == Ok::<Seq<char>, Seq<char>>(text),
        visible_text(entries[i].1) == Some(text),
{
    lemma_first_value(entries, i, name);
    let bytes = entries[i].1;
    assert(Seq::new(bytes.len(), |k: int| bytes[k] as char) =~= text);
}

/// The first entry of a name is the one that counts.
pub proof fn lemma_first_value(entries: Seq<(Seq<char>, Seq<u8>)>, i: int, name: Seq<char>)
    requires
        is_first(entries, i, name),
    ensures
        first_value(entries, name) == Some(entries[i].1),
    decreases entries.len(),
{
    if i > 0 {
        assert(entries[0].0 != name);
        let rest = entries.drop_first();
        assert forall|j: int| 0 <= j < i - 1 implies (#[trigger] rest[j]).0 != name by {
            assert(rest[j] == entries[j + 1]);
        }
        lemma_first_value(rest, i - 1, name);
    }
}

/// A header that is not there is missing, and one that is not all visible ASCII, blanks and tabs
/// cannot be read.
pub proof fn missing_or_odd_header_is_refused(
    entries: Seq<(Seq<char>, Seq<u8>)>,
    name: Seq<char>,
    i: int,
    k: int,
)
    ensures
        (forall|j: int| 0 <= j < entries.len() ==> (#[trigger] entries[j]).0 != name)
            ==> required_header(entries, name) == Err::<Seq<char>, Seq<char>>("missing "@ + name),
        is_first(entries, i, name) && 0 <= k < entries[i].1.len() && !(32 <= entries[i].1[k] < 127
            || entries[i].1[k] == 9) ==> required_header(entries, name) == Err::<
            Seq<char>,
            Seq<char>,
        >(name + " is not valid utf-8"@),
{
    if forall|j: int| 0 <= j < entries.len() ==> (#[trigger] entries[j]).0 != name {
        lemma_no_value(entries, name);
    }
    if is_first(entries, i, name) && 0 <= k < entries[i].1.len() && !(32 <= entries[i].1[k] < 127
        || entries[i].1[k] == 9) {
        lemma_first_value(entries, i, name);
        assert(visible_text(entries[i].1) is None);
    }
}

proof fn lemma_no_value(entries: Seq<(Seq<char>, Seq<u8>)>, name: Seq<char>)
    requires
        forall|j: int| 0 <= j < entries.len() ==> (#[trigger] entries[j]).0 != name,
    ensures
        first_value(entries, name) is None,
    decreases entries.len(),
{
    if entries.len() > 0 {
        assert(entries[0].0 != name);
        let rest = entries.drop_first();
        assert forall|j: int| 0 <= j < rest.len() implies (#[trigger] rest[j]).0 != name by {
            assert(rest[j] == entries[j + 1]);
        }
        lemma_no_value(rest, name);
    }
}

/// The secret is base64 of the key, with the prefix `whsec_` or without.
pub proof fn secret_stands_for_its_key(code: Seq<char>)
    ensures
        webhook_key("whsec_"@ + code) == from_base64(code),
        (code.len() < 6 || code.take(6) != "whsec_"@) ==> webhook_key(code) == from_base64(code),
{
    reveal_strlit("whsec_");
    prefix_comes_off_whole("whsec_"@, code, code);
}

/// Base64 is read in the first of four kinds that fits, and in none other.
pub proof fn base64_is_read_in_the_first_kind_that_fits(text: Seq<char>)
    ensures
        from_standard(text) is Some ==> from_base64(text) == from_standard(text),
        from_standard(text) is None && from_standard_no_pad(text) is Some ==> from_base64(text)
            == from_standard_no_pad(text),
        from_standard(text) is None && from_standard_no_pad(text) is None && from_url_safe(
            text,
        ) is Some ==> from_base64(text) == from_url_safe(text),
        from_standard(text) is None && from_standard_no_pad(text) is None && from_url_safe(
            text,
        ) is None ==> from_base64(text) == from_url_safe_no_pad(text),
{
}

/// A genuine webhook is accepted: it has an identifier, a timestamp within the tolerance, and a
/// signature that is the HMAC of identifier, timestamp and whole body under the key of the
/// secret, among whatever other headers.
pub proof fn genuine_webhook_is_accepted(
    key_code: Seq<char>,
    key: Seq<u8>,
    tolerance_secs: i64,
    entries: Seq<(Seq<char>, Seq<u8>)>,
    i: int,
    j: int,
    k: int,
    id: Seq<char>,
    second: i64,
    code: Seq<char>,
    body: Seq<u8>,
    now: i64,
)
    requires
        from_base64(key_code) == Some(key),
        is_first(entries, i, "svix-id"@),
        says(entries[i].1, id),
        is_first(entries, j, "svix-timestamp"@),
        says(entries[j].1, int_text(second as int)),
        is_first(entries, k, "svix-signature"@),
        says(entries[k].1, "v1,"@ + code),
        forall|c: int| 0 <= c < code.len() ==> !is_space(#[trigger] code[c]),
        from_base64(code) == Some(
            hmac_sha256(
                key,
                encode_utf8(id) + seq![46u8] + encode_utf8(int_text(second as int)) + seq![46u8]
                    + body,
            ),
        ),
        0 < tolerance_secs,
        second - tolerance_secs <= now <= second + tolerance_secs,
    ensures
        signature_error("whsec_"@ + key_code, tolerance_secs, entries, body, now) is None,
{
    let secret = "whsec_"@ + key_code;
    let timestamp = int_text(second as int);
    first_header_is_read(entries, i, "svix-id"@, id);
    first_header_is_read(entries, j, "svix-timestamp"@, timestamp);
    first_header_is_read(entries, k, "svix-signature"@, "v1,"@ + code);
    secret_stands_for_its_key(key_code);
    written_int_reads_back(second as int, i64::MIN as int, i64::MAX as int);
    let content = encode_utf8(id) + seq![46u8] + encode_utf8(timestamp) + seq![46u8] + body;
    signed_content_holds_the_whole_webhook(id, timestamp, body);
    assert(webhook_content(id, timestamp, body) =~= content);
    single_signature_counts(code, hmac_sha256(key, content));
    accepted_webhook_is_signed(secret, tolerance_secs, entries, body, now);
}

/// What is accepted is signed: one of the words of the signature header is `v1,` and base64 of
/// the HMAC of identifier, timestamp and whole body, and the timestamp is within the tolerance.
pub proof fn accepted_webhook_carries_its_hmac(
    secret: Seq<char>,
    tolerance_secs: i64,
    entries: Seq<(Seq<char>, Seq<u8>)>,
    i: int,
    j: int,
    k: int,
    id: Seq<char>,
    timestamp: Seq<char>,
    signatures: Seq<char>,
    body: Seq<u8>,
    now: i64,
)
    requires
        is_first(entries, i, "svix-id"@),
        says(entries[i].1, id),
        is_first(entries, j, "svix-timestamp"@),
        says(entries[j].1, timestamp),
        is_first(entries, k, "svix-signature"@),
        says(entries[k].1, signatures),
        signature_error(secret, tolerance_secs, entries, body, now) is None,
    ensures
        tolerance_secs > 0,
        int_value(timestamp, i64::MIN as int, i64::MAX as int) is Ok,
        ({
            let second = int_value(timestamp, i64::MIN as int, i64::MAX as int)->Ok_0;
            second - tolerance_secs <= now <= second + tolerance_secs
        }),
        webhook_key(secret) is Some,
        exists|w: int, code: Seq<char>|
            0 <= w < words(signatures).len() && #[trigger] words(signatures)[w] == #[trigger] (
            "v1,"@ + code) && from_base64(code) == Some(
                hmac_sha256(
                    webhook_key(secret)->Some_0,
                    encode_utf8(id) + seq![46u8] + encode_utf8(timestamp) + seq![46u8] + body,
                ),
            ),
{
    first_header_is_read(entries, i, "svix-id"@, id);
    first_header_is_read(entries, j, "svix-timestamp"@, timestamp);
    first_header_is_read(entries, k, "svix-signature"@, signatures);
    accepted_webhook_is_signed(secret, tolerance_secs, entries, body, now);
    let content = encode_utf8(id) + seq![46u8] + encode_utf8(timestamp) + seq![46u8] + body;
    signed_content_holds_the_whole_webhook(id, timestamp, body);
    assert(webhook_content(id, timestamp, body) =~= content);
    let wanted = hmac_sha256(webhook_key(secret)->Some_0, content);
    let w = choose|w: int|
        0 <= w < words(signatures).len() && is_signature(#[trigger] words(signatures)[w], wanted);
    let word = words(signatures)[w];
    prefix_comes_off_whole("v1,"@, Seq::empty(), word);
    let code = after_prefix(word, "v1,"@)->Some_0;
    assert(words(signatures)[w] == "v1,"@ + code);
    assert(from_base64(code) == Some(wanted));
}

/// A webhook is refused in the order of what it lacks: the identifier, the timestamp, the
/// signatures; then for its time, and last for its signature.
pub proof fn lacking_webhook_is_refused(
    secret: Seq<char>,
    tolerance_secs: i64,
    entries: Seq<(Seq<char>, Seq<u8>)>,
    body: Seq<u8>,
    now: i64,
)
    ensures
        ({
            let lacks = |name: Seq<char>|
                forall|j: int| 0 <= j < entries.len() ==> (#[trigger] entries[j]).0 != name;
            let refusal = signature_error(secret, tolerance_secs, entries, body, now);
            &&& lacks("svix-id"@) ==> refusal == Some("missing "@ + "svix-id"@)
            &&& lacks("svix-timestamp"@) ==> refusal is Some
            &&& lacks("svix-signature"@) ==> refusal is Some
        }),
{
    missing_or_odd_header_is_refused(entries, "svix-id"@, 0, 0);
    missing_or_odd_header_is_refused(entries, "svix-timestamp"@, 0, 0);
    missing_or_odd_header_is_refused(entries, "svix-signature"@, 0, 0);
}

/// A timestamp is accepted where, and only where, the tolerance is positive, the text is a number
/// and the number is within the tolerance of the present, before or after.
pub proof fn timestamp_is_accepted_within_the_tolerance(
    second: int,
    tolerance_secs: i64,
    now: i64,
    timestamp: Seq<char>,
)
    requires
        i64::MIN <= second <= i64::MAX,
    ensures
        timestamp_error(int_text(second), tolerance_secs, now) is None <==> tolerance_secs > 0
            && second - tolerance_secs <= now <= second + tolerance_secs,
        int_value(timestamp, i64::MIN as int, i64::MAX as int) is Err ==> timestamp_error(
            timestamp,
            tolerance_secs,
            now,
        ) is Some,
{
    written_numbers_are_read(second, i64::MIN as int, i64::MAX as int);
}

/// A signature of another version, or of none, does not count.
pub proof fn other_versions_do_not_count(word: Seq<char>, wanted: Seq<u8>)
    requires
        word.len() > 0,
        forall|c: int| 0 <= c < word.len() ==> !is_space(#[trigger] word[c]),
        word.len() < 3 || word.take(3) != "v1,"@,
    ensures
        !is_signed(word, wanted),
        !is_signed(Seq::empty(), wanted),
{
    reveal_strlit("v1,");
    lemma_one_word(word);
    prefix_comes_off_whole("v1,"@, Seq::empty(), word);
    assert(words(Seq::<char>::empty()) =~= Seq::<Seq<char>>::empty());
}

/// A webhook is refused for the first of its faults: a header, then its time, the secret and last
/// the signature, each in its own words.
pub proof fn refused_webhook_is_told_why(
    secret: Seq<char>,
    tolerance_secs: i64,
    entries: Seq<(Seq<char>, Seq<u8>)>,
    body: Seq<u8>,
    now: i64,
)
    ensures
        ({
            let refusal = signature_error(secret, tolerance_secs, entries, body, now);
            let id = required_header(entries, "svix-id"@);
            let timestamp = required_header(entries, "svix-timestamp"@);
            let signatures = required_header(entries, "svix-signature"@);
            let read = id is Ok && timestamp is Ok && signatures is Ok;
            let second = int_value(timestamp->Ok_0, i64::MIN as int, i64::MAX as int);
            let counted = read && tolerance_secs > 0 && second is Ok;
            let recent = counted && second->Ok_0 - tolerance_secs <= now <= second->Ok_0
                + tolerance_secs;
            &&& id is Err ==> refusal == Some(id->Err_0)
            &&& id is Ok && timestamp is Err ==> refusal == Some(timestamp->Err_0)
            &&& id is Ok && timestamp is Ok && signatures is Err ==> refusal == Some(
                signatures->Err_0,
            )
            &&& read && tolerance_secs <= 0 ==> refusal == Some(
                "signature tolerance must be positive"@,
            )
            &&& read && tolerance_secs > 0 && second is Err ==> refusal == Some(
                "svix-timestamp is not an integer"@,
            )
            &&& counted && !recent ==> refusal == Some("svix-timestamp is outside tolerance"@)
            &&& recent && webhook_key(secret) is None ==> refusal == Some(
                "webhook secret is not valid base64"@,
            )
            &&& recent && webhook_key(secret) is Some && refusal is Some ==> refusal == Some(
                "no matching v1 signature"@,
            )
        }),
{
}

} // verus!
