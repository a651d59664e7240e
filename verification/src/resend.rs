//! Reading webhooks: who signed them, and what they say of the mail that they report.

use crate::clock::unix_now;
use crate::crypto::{decode_base64, equal_bytes, from_base64, hmac_digest, hmac_sha256};
use crate::error::{AppError, AppResult, ErrorView};
use crate::headers::{
    entries_of, first_value, header_bytes, header_text, is_plain_name, visible_text,
};
use crate::json::{
    items, json_of, json_text, member, parsed_json, text, tree_option, trees, JsonTree,
};
use crate::number::{int_value, parsed_int};
use crate::text::{
    after_prefix, chars_of, copied_option, copied_texts, find, found, is_space, lemma_find,
    lemma_one_word, lemma_rfind_end, lemma_trim_contains, lemma_trim_end, lemma_words_parted,
    lower, lower_char, lowered, prefix_taken, rfind_end, rfound_end, text_of, text_option, texts,
    trim, trim_end, trimmed, trimmed_end, worded, words, CharClass,
};
use axum::http::HeaderMap;
use serde_json::Value;
use vstd::prelude::*;
use vstd::slice::slice_subrange;
use vstd::string::StringExecFns;
use vstd::utf8::encode_utf8;

verus! {

/// The parts of a webhook by which it is routed.
#[derive(Debug, PartialEq, Eq)]
pub struct ResendEventForRouting {
    pub event_id: Option<String>,
    pub event_type: Option<String>,
    pub from_domain: Option<String>,
    pub to_domains: Vec<String>,
}

/// An event as mathematics sees it.
pub struct EventView {
    pub event_id: Option<Seq<char>>,
    pub event_type: Option<Seq<char>>,
    pub from_domain: Option<Seq<char>>,
    pub to_domains: Seq<Seq<char>>,
}

impl View for ResendEventForRouting {
    type V = EventView;

    open spec fn view(&self) -> EventView {
        EventView {
            event_id: text_option(self.event_id),
            event_type: text_option(self.event_type),
            from_domain: text_option(self.from_domain),
            to_domains: texts(self.to_domains@),
        }
    }
}

impl Clone for ResendEventForRouting {
    fn clone(&self) -> (r: Self)
        ensures
            r@ == self@,
    {
        ResendEventForRouting {
            event_id: copied_option(&self.event_id),
            event_type: copied_option(&self.event_type),
            from_domain: copied_option(&self.from_domain),
            to_domains: copied_texts(&self.to_domains),
        }
    }
}

/// The part of an address field in angle brackets, or all of it.
pub open spec fn bracketed(field: Seq<char>) -> Seq<char> {
    let start = find(field, CharClass::Only('<'));
    if start < field.len() {
        let after = field.skip(start as int + 1);
        after.take(find(after, CharClass::Only('>')) as int)
    } else {
        field
    }
}

/// The address that an address field holds, without quotes around it.
pub open spec fn address_in(field: Seq<char>) -> Seq<char> {
    trim(
        trim(
            trim(bracketed(trim(field, CharClass::Space)), CharClass::Space),
            CharClass::Only('"'),
        ),
        CharClass::Only('\''),
    )
}

/// What follows the last `@` of an address, up to the first comma or white space, without the
/// marks that may close an address and without trailing dots.
pub open spec fn after_at(address: Seq<char>) -> Seq<char> {
    let tail = trim(
        trim(
            trim(
                address.skip(rfind_end(address, CharClass::Only('@')) as int),
                CharClass::Space,
            ),
            CharClass::Only('>'),
        ),
        CharClass::Only(';'),
    );
    let first = tail.take(find(tail, CharClass::ListBreak) as int);
    trim_end(trim(first, CharClass::Space), CharClass::Only('.'))
}

/// The domain of the address that an address field holds, in small letters; nothing, where the
/// field has no `@` or no domain after it.
pub open spec fn email_domain(field: Seq<char>) -> Option<Seq<char>> {
    let address = address_in(field);
    if rfind_end(address, CharClass::Only('@')) == 0 || after_at(address).len() == 0 {
        None
    } else {
        Some(lower(after_at(address)))
    }
}

/// The domain of the address that an address field holds.
pub fn extract_email_domain(input: &str) -> (r: Option<String>)
    ensures
        text_option(r) == email_domain(input@),
{
    let chars: Vec<char> = chars_of(input);
    let field: &[char] = trimmed(chars.as_slice(), CharClass::Space);
    let start: usize = found(field, CharClass::Only('<'));
    let candidate: &[char] = if start < field.len() {
        let after: &[char] = slice_subrange(field, start + 1, field.len());
        assert(after@ =~= field@.skip(start + 1));
        let end: usize = found(after, CharClass::Only('>'));
        let inner: &[char] = slice_subrange(after, 0, end);
        assert(inner@ =~= after@.take(end as int));
        inner
    } else {
        field
    };
    let address: &[char] = trimmed(
        trimmed(trimmed(candidate, CharClass::Space), CharClass::Only('"')),
        CharClass::Only('\''),
    );
    let at: usize = rfound_end(address, CharClass::Only('@'));
    if at == 0 {
        return None;
    }
    let rest: &[char] = slice_subrange(address, at, address.len());
    assert(rest@ =~= address@.skip(at as int));
    let tail: &[char] = trimmed(
        trimmed(trimmed(rest, CharClass::Space), CharClass::Only('>')),
        CharClass::Only(';'),
    );
    let first: &[char] = slice_subrange(tail, 0, found(tail, CharClass::ListBreak));
    assert(first@ =~= tail@.take(find(tail@, CharClass::ListBreak) as int));
    let domain: &[char] = trimmed_end(trimmed(first, CharClass::Space), CharClass::Only('.'));
    if domain.len() == 0 {
        None
    } else {
        Some(lowered(domain))
    }
}

/// The text of the first header of that name, or why there is none.
pub open spec fn required_header(
    entries: Seq<(Seq<char>, Seq<u8>)>,
    name: Seq<char>,
) -> Result<Seq<char>, Seq<char>> {
    match first_value(entries, name) {
        None => Err("missing "@ + name),
        Some(bytes) => match visible_text(bytes) {
            None => Err(name + " is not valid utf-8"@),
            Some(text) => Ok(text),
        },
    }
}

/// The text of a header that must be there.
fn header(headers: &HeaderMap, name: &str) -> (r: AppResult<String>)
    requires
        is_plain_name(name@),
    ensures
        match r {
            Ok(text) => required_header(entries_of(*headers), name@) == Ok::<Seq<char>, Seq<char>>(
                text@,
            ),
            Err(error) => required_header(entries_of(*headers), name@) is Err && error@
                == ErrorView::Signature(required_header(entries_of(*headers), name@)->Err_0),
        },
{
    match header_bytes(headers, name) {
        None => Err(AppError::signature("missing ".to_owned().concat(name))),
        Some(bytes) => match header_text(&bytes) {
            None => Err(AppError::signature(name.to_owned().concat(" is not valid utf-8"))),
            Some(text) => Ok(text),
        },
    }
}

/// Why a timestamp is not accepted: the tolerance is none, it is no number, or it is further from
/// the present than the tolerance.
pub open spec fn timestamp_error(timestamp: Seq<char>, tolerance_secs: i64, now: i64) -> Option<
    Seq<char>,
> {
    let value = int_value(timestamp, i64::MIN as int, i64::MAX as int);
    if tolerance_secs <= 0 {
        Some("signature tolerance must be positive"@)
    } else if value is Err {
        Some("svix-timestamp is not an integer"@)
    } else if !(-tolerance_secs <= now - value->Ok_0 <= tolerance_secs) {
        Some("svix-timestamp is outside tolerance"@)
    } else {
        None
    }
}

/// What a check has found: nothing, or the message of a signature error.
pub open spec fn refuses(r: AppResult<()>, error: Option<Seq<char>>) -> bool {
    match r {
        Ok(_) => error is None,
        Err(e) => error is Some && e@ == ErrorView::Signature(error->Some_0),
    }
}

/// Whether a timestamp is close enough to the present.
pub fn verify_timestamp_at(timestamp: &str, tolerance_secs: i64, now: i64) -> (r: AppResult<()>)
    ensures
        refuses(r, timestamp_error(timestamp@, tolerance_secs, now)),
{
    if tolerance_secs <= 0 {
        return Err(AppError::signature("signature tolerance must be positive".to_owned()));
    }
    let value: i128 = match parsed_int(timestamp, i64::MIN as i128, i64::MAX as i128) {
        Ok(value) => value,
        Err(_) => {
            return Err(AppError::signature("svix-timestamp is not an integer".to_owned()));
        },
    };
    let age: i128 = now as i128 - value;
    if age > tolerance_secs as i128 || -age > tolerance_secs as i128 {
        return Err(AppError::signature("svix-timestamp is outside tolerance".to_owned()));
    }
    Ok(())
}

/// The bytes that a webhook's signature is made of.
pub open spec fn webhook_content(id: Seq<char>, timestamp: Seq<char>, body: Seq<u8>) -> Seq<u8> {
    encode_utf8(id) + seq![46u8] + encode_utf8(timestamp) + seq![46u8] + body
}

/// The key that a webhook secret stands for: base64, after an optional prefix.
pub open spec fn webhook_key(secret: Seq<char>) -> Option<Seq<u8>> {
    match after_prefix(secret, "whsec_"@) {
        Some(rest) => from_base64(rest),
        None => from_base64(secret),
    }
}

/// Whether one of the signatures of the header is the wanted one.
pub open spec fn is_signed(signatures: Seq<char>, wanted: Seq<u8>) -> bool {
    exists|i: int| 0 <= i < words(signatures).len() && is_signature(#[trigger] words(signatures)[i], wanted)
}

/// Whether a signature of the first version stands for the wanted bytes.
pub open spec fn is_signature(candidate: Seq<char>, wanted: Seq<u8>) -> bool {
    match after_prefix(candidate, "v1,"@) {
        Some(code) => from_base64(code) == Some(wanted),
        None => false,
    }
}

/// Why a webhook is not accepted at the given time; nothing, where it is accepted.
pub open spec fn signature_error(
    secret: Seq<char>,
    tolerance_secs: i64,
    entries: Seq<(Seq<char>, Seq<u8>)>,
    body: Seq<u8>,
    now: i64,
) -> Option<Seq<char>> {
    let id = required_header(entries, "svix-id"@);
    let timestamp = required_header(entries, "svix-timestamp"@);
    let signatures = required_header(entries, "svix-signature"@);
    if id is Err {
        Some(id->Err_0)
    } else if timestamp is Err {
        Some(timestamp->Err_0)
    } else if signatures is Err {
        Some(signatures->Err_0)
    } else if timestamp_error(timestamp->Ok_0, tolerance_secs, now) is Some {
        timestamp_error(timestamp->Ok_0, tolerance_secs, now)
    } else if webhook_key(secret) is None {
        Some("webhook secret is not valid base64"@)
    } else if !is_signed(
        signatures->Ok_0,
        hmac_sha256(
            webhook_key(secret)->Some_0,
            webhook_content(id->Ok_0, timestamp->Ok_0, body),
        ),
    ) {
        Some("no matching v1 signature"@)
    } else {
        None
    }
}

/// Whether the webhook carries a signature that the secret makes for it, and is recent. The
/// present is read from the clock.
pub fn verify_webhook_signature(
    secret: &str,
    tolerance_secs: i64,
    headers: &HeaderMap,
    body: &[u8],
) -> (r: AppResult<()>)
    ensures
        exists|now: i64|
            refuses(
                r,
                #[trigger] signature_error(
                    secret@,
                    tolerance_secs,
                    entries_of(*headers),
                    body@,
                    now,
                ),
            ),
{
    verify_webhook_signature_at(secret, tolerance_secs, headers, body, unix_now())
}

/// Whether the webhook carries a signature that the secret makes for it, and is recent at the
/// given time.
pub fn verify_webhook_signature_at(
    secret: &str,
    tolerance_secs: i64,
    headers: &HeaderMap,
    body: &[u8],
    now: i64,
) -> (r: AppResult<()>)
    ensures
        refuses(
            r,
            signature_error(secret@, tolerance_secs, entries_of(*headers), body@, now),
        ),
{
    proof {
        reveal_strlit("svix-id");
        reveal_strlit("svix-timestamp");
        reveal_strlit("svix-signature");
    }
    let svix_id = match header(headers, "svix-id") {
        Ok(text) => text,
        Err(error) => return Err(error),
    };
    let svix_timestamp = match header(headers, "svix-timestamp") {
        Ok(text) => text,
        Err(error) => return Err(error),
    };
    let svix_signature = match header(headers, "svix-signature") {
        Ok(text) => text,
        Err(error) => return Err(error),
    };
    match verify_timestamp_at(svix_timestamp.as_str(), tolerance_secs, now) {
        Ok(_) => {},
        Err(error) => return Err(error),
    }
    let key: Vec<u8> = match decode_secret(secret) {
        Some(key) => key,
        None => {
            return Err(AppError::signature("webhook secret is not valid base64".to_owned()));
        },
    };
    let content: Vec<u8> = signed_content(svix_id.as_str(), svix_timestamp.as_str(), body);
    let expected: Vec<u8> = hmac_digest(key.as_slice(), content.as_slice());
    if any_signature(svix_signature.as_str(), &expected) {
        Ok(())
    } else {
        Err(AppError::signature("no matching v1 signature".to_owned()))
    }
}

fn decode_secret(secret: &str) -> (r: Option<Vec<u8>>)
    ensures
        crate::crypto::bytes_option(r) == webhook_key(secret@),
{
    let chars: Vec<char> = chars_of(secret);
    match prefix_taken(chars.as_slice(), "whsec_") {
        Some(rest) => decode_base64(text_of(rest).as_str()),
        None => decode_base64(secret),
    }
}

/// The bytes that a webhook's signature is made of.
pub fn signed_content(id: &str, timestamp: &str, body: &[u8]) -> (r: Vec<u8>)
    ensures
        r@ == webhook_content(id@, timestamp@, body@),
        r@.len() == encode_utf8(id@).len() + encode_utf8(timestamp@).len() + body@.len() + 2,
        r@.skip(r@.len() - body@.len()) == body@,
{
    let mut content: Vec<u8> = Vec::new();
    content.extend_from_slice(id.as_bytes());
    content.push(46);
    content.extend_from_slice(timestamp.as_bytes());
    content.push(46);
    content.extend_from_slice(body);
    assert(content@ =~= webhook_content(id@, timestamp@, body@));
    assert(content@.skip(content@.len() - body@.len()) =~= body@);
    content
}

/// Whether one of the signatures of the header is the wanted one.
pub fn any_signature(signatures: &str, wanted: &Vec<u8>) -> (r: bool)
    ensures
        r == is_signed(signatures@, wanted@),
{
    let chars: Vec<char> = chars_of(signatures);
    let candidates: Vec<String> = worded(chars.as_slice());
    let mut i: usize = 0;
    while i < candidates.len()
        invariant
            i <= candidates@.len(),
            texts(candidates@) == words(signatures@),
            forall|j: int| 0 <= j < i ==> !is_signature(#[trigger] words(signatures@)[j], wanted@),
        decreases candidates@.len() - i,
    {
        let candidate: Vec<char> = chars_of(candidates[i].as_str());
        assert(words(signatures@)[i as int] == candidate@);
        match prefix_taken(candidate.as_slice(), "v1,") {
            None => {},
            Some(code) => {
                match decode_base64(text_of(code).as_str()) {
                    None => {},
                    Some(decoded) => {
                        if equal_bytes(decoded.as_slice(), wanted.as_slice()) {
                            assert(is_signature(words(signatures@)[i as int], wanted@));
                            return true;
                        }
                    },
                }
            },
        }
        i += 1;
    }
    assert(texts(candidates@).len() == candidates@.len());
    false
}

/// The text of the member of that name, where there is one.
pub open spec fn text_at(tree: JsonTree, key: Seq<char>) -> Option<Seq<char>> {
    match tree.member(key) {
        Some(value) => value.text(),
        None => None,
    }
}

/// The domains of the addresses among the items of an array.
pub open spec fn item_domains(items: Seq<JsonTree>) -> Seq<Seq<char>>
    decreases items.len(),
{
    if items.len() == 0 {
        Seq::empty()
    } else {
        item_domains(items.drop_last()) + item_domain(items.last())
    }
}

/// The domain of an item that is an address, as a list.
pub open spec fn item_domain(item: JsonTree) -> Seq<Seq<char>> {
    match item.text() {
        Some(field) => match email_domain(field) {
            Some(domain) => seq![domain],
            None => Seq::empty(),
        },
        None => Seq::empty(),
    }
}

/// The domains of one address or of an array of addresses.
pub open spec fn value_domains(value: Option<JsonTree>) -> Seq<Seq<char>> {
    match value {
        Some(JsonTree::Text(field)) => item_domain(JsonTree::Text(field)),
        Some(JsonTree::Array(items)) => item_domains(items),
        _ => Seq::empty(),
    }
}

/// What a webhook says of the mail that it reports: its own or the mail's number, its type, and
/// the domains of the sender and of the recipients.
pub open spec fn event_of(tree: JsonTree) -> EventView {
    let data = match tree.member("data"@) {
        Some(data) => data,
        None => JsonTree::Null,
    };
    EventView {
        event_id: if text_at(tree, "id"@) is Some {
            text_at(tree, "id"@)
        } else if text_at(data, "email_id"@) is Some {
            text_at(data, "email_id"@)
        } else {
            text_at(data, "id"@)
        },
        event_type: text_at(tree, "type"@),
        from_domain: match text_at(data, "from"@) {
            Some(field) => email_domain(field),
            None => None,
        },
        to_domains: value_domains(data.member("to"@)),
    }
}

/// Reads the webhook's text as JSON, and what it says of the mail.
pub fn parse_event_for_routing(body: &[u8]) -> (r: AppResult<ResendEventForRouting>)
    ensures
        match r {
            Ok(event) => json_text(body@) is Ok && event@ == event_of(json_text(body@)->Ok_0),
            Err(error) => json_text(body@) is Err && error@ == ErrorView::BadRequest(
                "invalid json payload: "@ + json_text(body@)->Err_0,
            ),
        },
{
    match parsed_json(body) {
        Ok(value) => Ok(event_for_routing(&value)),
        Err(words) => Err(
            AppError::bad_request("invalid json payload: ".to_owned().concat(words.as_str())),
        ),
    }
}

/// What a webhook says of the mail that it reports.
pub fn event_for_routing(value: &Value) -> (r: ResendEventForRouting)
    ensures
        r@ == event_of(json_of(*value)),
{
    let data: Option<&Value> = member(value, "data");
    let event_id: Option<String> = match member_text(Some(value), "id") {
        Some(text) => Some(text),
        None => match member_text(data, "email_id") {
            Some(text) => Some(text),
            None => member_text(data, "id"),
        },
    };
    let event_type: Option<String> = member_text(Some(value), "type");
    let from_domain: Option<String> = match member_text(data, "from") {
        Some(field) => extract_email_domain(field.as_str()),
        None => None,
    };
    let to_domains: Vec<String> = match data {
        Some(data) => extract_domains_from_value(member(data, "to")),
        None => extract_domains_from_value(None),
    };
    ResendEventForRouting { event_id, event_type, from_domain, to_domains }
}

fn member_text(value: Option<&Value>, key: &str) -> (r: Option<String>)
    ensures
        text_option(r) == (match tree_option(value) {
            Some(tree) => text_at(tree, key@),
            None => None,
        }),
{
    match value {
        Some(value) => match member(value, key) {
            Some(value) => match text(value) {
                Some(text) => Some(text.to_owned()),
                None => None,
            },
            None => None,
        },
        None => None,
    }
}

/// The domains of one address or of an array of addresses.
pub fn extract_domains_from_value(value: Option<&Value>) -> (r: Vec<String>)
    ensures
        texts(r@) == value_domains(tree_option(value)),
{
    let mut domains: Vec<String> = Vec::new();
    let value: &Value = match value {
        Some(value) => value,
        None => {
            assert(texts(domains@) =~= Seq::<Seq<char>>::empty());
            return domains;
        },
    };
    match items(value) {
        None => {
            push_domain(value, &mut domains);
            assert(texts(domains@) =~= value_domains(Some(json_of(*value))));
        },
        Some(list) => {
            let mut i: usize = 0;
            assert(texts(domains@) =~= item_domains(trees(list@).take(0)));
            while i < list.len()
                invariant
                    i <= list@.len(),
                    texts(domains@) == item_domains(trees(list@).take(i as int)),
                decreases list@.len() - i,
            {
                push_domain(&list[i], &mut domains);
                assert(trees(list@).take(i + 1).drop_last() =~= trees(list@).take(i as int));
                i += 1;
            }
            assert(trees(list@).take(i as int) =~= trees(list@));
        },
    }
    domains
}

fn push_domain(value: &Value, domains: &mut Vec<String>)
    ensures
        texts(final(domains)@) == texts(old(domains)@) + item_domain(json_of(*value)),
{
    let ghost before = texts(domains@);
    match text(value) {
        Some(field) => match extract_email_domain(field) {
            Some(domain) => {
                domains.push(domain);
            },
            None => {},
        },
        None => {},
    }
    assert(texts(domains@) =~= before + item_domain(json_of(*value)));
}

/// The domain that is read from an address field is not empty, has no `@`, no comma, no white
/// space and no ASCII capital letter, and does not end with a dot.
pub proof fn email_domain_is_bare(field: Seq<char>)
    requires
        email_domain(field) is Some,
    ensures
        ({
            let domain = email_domain(field)->Some_0;
            &&& domain.len() > 0
            &&& domain.last() != '.'
            &&& forall|i: int|
                0 <= i < domain.len() ==> {
                    let c = #[trigger] domain[i];
                    c != '@' && c != ',' && !is_space(c) && !('A' <= c <= 'Z')
                }
        }),
{
    let address = address_in(field);
    let at = rfind_end(address, CharClass::Only('@'));
    let rest = address.skip(at as int);
    let t1 = trim(rest, CharClass::Space);
    let t2 = trim(t1, CharClass::Only('>'));
    let tail = trim(t2, CharClass::Only(';'));
    let first = tail.take(find(tail, CharClass::ListBreak) as int);
    let t3 = trim(first, CharClass::Space);
    let bare = trim_end(t3, CharClass::Only('.'));
    assert(bare == after_at(address));
    lemma_rfind_end(address, CharClass::Only('@'));
    lemma_trim_contains(rest, CharClass::Space);
    lemma_trim_contains(t1, CharClass::Only('>'));
    lemma_trim_contains(t2, CharClass::Only(';'));
    lemma_find(tail, CharClass::ListBreak);
    lemma_trim_contains(first, CharClass::Space);
    lemma_trim_end(t3, CharClass::Only('.'));
    assert forall|i: int| 0 <= i < bare.len() implies {
        let c = #[trigger] bare[i];
        c != '@' && c != ',' && !is_space(c)
    } by {
        assert(bare[i] == t3[i]);
        let j = first.index_of(t3[i]);
        assert(first[j] == tail[j]);
        assert(!CharClass::ListBreak.holds(tail[j]));
        let k = t2.index_of(tail[j]);
        let l = t1.index_of(t2[k]);
        let m = rest.index_of(t1[l]);
        assert(rest[m] == address[m + at]);
    }
    let domain = email_domain(field)->Some_0;
    assert(domain == lower(bare));
    assert forall|i: int| 0 <= i < domain.len() implies {
        let c = #[trigger] domain[i];
        c != '@' && c != ',' && !is_space(c) && !('A' <= c <= 'Z')
    } by {
        let c = bare[i];
        assert(domain[i] == lower_char(c));
    }
    assert(domain.last() == lower_char(bare.last()));
}

/// A webhook is accepted where, and only where, it has an identifier, a timestamp within the
/// tolerance and a list of signatures, the secret can be read, and one of the signatures is the
/// HMAC of identifier, timestamp and body under the key of the secret.
pub proof fn accepted_webhook_is_signed(
    secret: Seq<char>,
    tolerance_secs: i64,
    entries: Seq<(Seq<char>, Seq<u8>)>,
    body: Seq<u8>,
    now: i64,
)
    ensures
        ({
            let id = required_header(entries, "svix-id"@);
            let timestamp = required_header(entries, "svix-timestamp"@);
            let signatures = required_header(entries, "svix-signature"@);
            let second = int_value(timestamp->Ok_0, i64::MIN as int, i64::MAX as int);
            signature_error(secret, tolerance_secs, entries, body, now) is None <==> {
                &&& id is Ok
                &&& timestamp is Ok
                &&& signatures is Ok
                &&& tolerance_secs > 0
                &&& second is Ok
                &&& second->Ok_0 - tolerance_secs <= now <= second->Ok_0 + tolerance_secs
                &&& webhook_key(secret) is Some
                &&& is_signed(
                    signatures->Ok_0,
                    hmac_sha256(
                        webhook_key(secret)->Some_0,
                        webhook_content(id->Ok_0, timestamp->Ok_0, body),
                    ),
                )
            }
        }),
{
}

/// A signature counts whatever other signatures stand before or after it in the header.
pub proof fn other_signatures_do_not_count(
    signatures: Seq<char>,
    others: Seq<char>,
    wanted: Seq<u8>,
)
    ensures
        is_signed(signatures + seq![' '] + others, wanted) <==> is_signed(signatures, wanted)
            || is_signed(others, wanted),
{
    signatures_are_parted_by_white_space(signatures, ' ', others, wanted);
}

/// A signature counts whatever other signatures stand before or after it in the header, with
/// white space of any kind between them.
pub proof fn signatures_are_parted_by_white_space(
    signatures: Seq<char>,
    between: char,
    others: Seq<char>,
    wanted: Seq<u8>,
)
    requires
        is_space(between),
    ensures
        is_signed(signatures + seq![between] + others, wanted) <==> is_signed(signatures, wanted)
            || is_signed(others, wanted),
{
    let all = signatures + seq![between] + others;
    lemma_words_parted(signatures, between, others);
    let n = words(signatures).len() as int;
    assert forall|i: int| 0 <= i < n implies words(all)[i] == #[trigger] words(signatures)[i] by {
    }
    assert forall|i: int| 0 <= i < words(others).len() implies words(all)[n + i]
        == #[trigger] words(others)[i] by {
    }
    if is_signed(all, wanted) {
        let i = choose|i: int|
            0 <= i < words(all).len() && is_signature(#[trigger] words(all)[i], wanted);
        if i < n {
            assert(is_signature(words(signatures)[i], wanted));
        } else {
            assert(is_signature(words(others)[i - n], wanted));
        }
    }
    if is_signed(signatures, wanted) {
        let i = choose|i: int|
            0 <= i < n && is_signature(#[trigger] words(signatures)[i], wanted);
        assert(is_signature(words(all)[i], wanted));
    }
    if is_signed(others, wanted) {
        let i = choose|i: int|
            0 <= i < words(others).len() && is_signature(#[trigger] words(others)[i], wanted);
        assert(is_signature(words(all)[n + i], wanted));
    }
}

/// A header with one signature of the first version is signed where, and only where, the base64
/// text after the prefix stands for the wanted bytes.
pub proof fn single_signature_counts(code: Seq<char>, wanted: Seq<u8>)
    requires
        forall|i: int| 0 <= i < code.len() ==> !is_space(#[trigger] code[i]),
    ensures
        is_signed("v1,"@ + code, wanted) <==> from_base64(code) == Some(wanted),
{
    reveal_strlit("v1,");
    let header = "v1,"@ + code;
    lemma_one_word(header);
    assert(header.take(3) =~= "v1,"@);
    assert(header.skip(3) =~= code);
    assert(words(header)[0] == header);
    if is_signature(header, wanted) {
        assert(is_signature(words(header)[0], wanted));
    }
}

} // verus!
