//! What the values of the library are taken to say: all that they hold.

use crate::config::{
    destination_views, scheme_view, scheme_views, Config, DestinationConfig,
};
use crate::crypto::bytes_option;
use crate::delivery::{header_views, DeliveryAction};
use crate::error::{AppError, ErrorView};
use crate::headers::entry_views;
use crate::instant::later;
use crate::json::{json_of, tree_option, trees};
use crate::resend::ResendEventForRouting;
use crate::text::{text_option, texts};
use serde_json::Value;
use vstd::prelude::*;

verus! {

/// A list of texts says each of them, in its place.
pub proof fn texts_are_said_one_by_one(list: Seq<String>, i: int)
    requires
        0 <= i < list.len(),
    ensures
        texts(list).len() == list.len(),
        texts(list)[i] == list[i]@,
{
}

/// A destination says all of its parts.
pub proof fn destination_says_all(d: DestinationConfig, i: int)
    ensures
        d@.name == d.name@,
        d@.url == d.url@,
        d@.catch_all == d.catch_all,
        d@.from_domains.len() == d.from_domains@.len(),
        d@.to_domains.len() == d.to_domains@.len(),
        d@.event_types.len() == d.event_types@.len(),
        0 <= i < d.from_domains@.len() ==> d@.from_domains[i] == d.from_domains@[i]@,
        0 <= i < d.to_domains@.len() ==> d@.to_domains[i] == d.to_domains@[i]@,
        0 <= i < d.event_types@.len() ==> d@.event_types[i] == d.event_types@[i]@,
{
}

/// A list of destinations says each of them, in its place.
pub proof fn destinations_are_said_one_by_one(list: Seq<DestinationConfig>, i: int)
    requires
        0 <= i < list.len(),
    ensures
        destination_views(list).len() == list.len(),
        destination_views(list)[i] == list[i]@,
{
}

/// The settings say all of their parts.
pub proof fn settings_say_all(c: Config, i: int)
    ensures
        c@.database_url == c.database_url@,
        c@.database_max_connections == c.database_max_connections,
        c@.server_bind == c.server_bind@,
        c@.resend_webhook_secret == c.resend_webhook_secret@,
        c@.resend_signature_tolerance_secs == c.resend_signature_tolerance_secs,
        c@.router_signing_secret == c.router_signing_secret@,
        c@.destinations.len() == c.destinations@.len(),
        0 <= i < c.destinations@.len() ==> c@.destinations[i] == c.destinations@[i]@,
        c@.delivery_worker_count == c.delivery_worker_count,
        c@.delivery_claim_limit == c.delivery_claim_limit,
        c@.delivery_timeout_secs == c.delivery_timeout_secs,
        c@.retry_window_secs == c.retry_window_secs,
        c@.warn_after_attempts == c.warn_after_attempts,
        c@.stale_delivery_lock_secs == c.stale_delivery_lock_secs,
        c@.worker_drain_timeout_secs == c.worker_drain_timeout_secs,
{
}

/// An event says all of its parts.
pub proof fn event_says_all(e: ResendEventForRouting, i: int)
    ensures
        e@.event_id is Some == e.event_id is Some,
        e.event_id is Some ==> e@.event_id->Some_0 == e.event_id->Some_0@,
        e@.event_type is Some == e.event_type is Some,
        e.event_type is Some ==> e@.event_type->Some_0 == e.event_type->Some_0@,
        e@.from_domain is Some == e.from_domain is Some,
        e.from_domain is Some ==> e@.from_domain->Some_0 == e.from_domain->Some_0@,
        e@.to_domains.len() == e.to_domains@.len(),
        0 <= i < e.to_domains@.len() ==> e@.to_domains[i] == e.to_domains@[i]@,
{
}

/// An error says its kind and its words.
pub proof fn error_says_all(words: String)
    ensures
        AppError::Config(words)@ == ErrorView::Config(words@),
        AppError::BadRequest(words)@ == ErrorView::BadRequest(words@),
        AppError::Signature(words)@ == ErrorView::Signature(words@),
        AppError::Database(words)@ == ErrorView::Database(words@),
        AppError::Migration(words)@ == ErrorView::Migration(words@),
        AppError::HttpClient(words)@ == ErrorView::HttpClient(words@),
        AppError::Io(words)@ == ErrorView::Io(words@),
{
}

/// An action says all of its parts.
pub proof fn action_says_all(action: DeliveryAction)
    ensures
        action is Send ==> action@ is Send && action@->Send_attempt == action->Send_attempt,
        action is RecordSuccess ==> {
            &&& action@ is RecordSuccess
            &&& action@->RecordSuccess_status_code == action->RecordSuccess_status_code
            &&& action@->RecordSuccess_duration_ms == action->RecordSuccess_duration_ms
        },
        action is RecordRetry ==> {
            &&& action@ is RecordRetry
            &&& action@->RecordRetry_status_code == action->RecordRetry_status_code
            &&& action@->RecordRetry_error == text_option(action->RecordRetry_error)
            &&& action@->RecordRetry_duration_ms == action->RecordRetry_duration_ms
            &&& action@->RecordRetry_next_attempt_at == action->RecordRetry_next_attempt_at
        },
        action is RecordFinalFailure ==> {
            &&& action@ is RecordFinalFailure
            &&& action@->RecordFinalFailure_status_code == action->RecordFinalFailure_status_code
            &&& action@->RecordFinalFailure_error == text_option(action->RecordFinalFailure_error)
            &&& action@->RecordFinalFailure_duration_ms == action->RecordFinalFailure_duration_ms
        },
        action is Report ==> action@ is Report && action@->Report_0 == action->Report_0,
{
}

/// Optional texts, optional bytes and results of texts say what they hold.
pub proof fn options_say_what_they_hold(text: String, bytes: Vec<u8>)
    ensures
        text_option(Some(text)) == Some(text@),
        text_option(None) is None,
        bytes_option(Some(bytes)) == Some(bytes@),
        bytes_option(None) is None,
        scheme_view(Ok(text)) == Ok::<Seq<char>, Seq<char>>(text@),
        scheme_view(Err(text)) == Err::<Seq<char>, Seq<char>>(text@),
{
}

/// Lists of headers, of schemes and of JSON values say each of their items, in its place.
pub proof fn lists_are_said_one_by_one(
    received: Seq<(String, Vec<u8>)>,
    sent: Seq<(String, String)>,
    schemes: Seq<Result<String, String>>,
    values: Seq<Value>,
    value: Value,
    i: int,
)
    ensures
        entry_views(received).len() == received.len(),
        0 <= i < received.len() ==> entry_views(received)[i] == (received[i].0@, received[i].1@),
        header_views(sent).len() == sent.len(),
        0 <= i < sent.len() ==> header_views(sent)[i] == (sent[i].0@, sent[i].1@),
        scheme_views(schemes).len() == schemes.len(),
        0 <= i < schemes.len() ==> scheme_views(schemes)[i] == scheme_view(schemes[i]),
        trees(values).len() == values.len(),
        0 <= i < values.len() ==> trees(values)[i] == json_of(values[i]),
        tree_option(Some(&value)) == Some(json_of(value)),
        tree_option(None) is None,
{
}

/// A second is a thousand million nanoseconds.
pub proof fn seconds_are_counted_in_nanoseconds(nanos: int, secs: int)
    ensures
        later(nanos, secs) - nanos == secs * 1_000_000_000,
{
}

} // verus!
