//! What is done with a webhook that comes in, and what its sender is answered.

use crate::clock::unix_now;
use crate::config::{destination_views, Config, DestinationConfig, DestinationView};
use crate::db::{optional_header, EnqueueOutcome, JobRow};
use crate::error::{AppResult, ErrorView};
use crate::headers::entries_of;
use crate::json::json_text;
use crate::resend::{
    event_of, parse_event_for_routing, signature_error, verify_webhook_signature_at,
    ResendEventForRouting,
};
use crate::router::{matches_event, RouteMatcher};
use axum::http::HeaderMap;
use vstd::prelude::*;

verus! {

/// What to do with a webhook whose sender is known.
#[derive(Debug)]
pub enum WebhookDecision {
    /// No destination wants it.
    Drop { event: ResendEventForRouting },
    /// Keep it for the destinations that want it.
    Enqueue { event: ResendEventForRouting, destinations: Vec<DestinationConfig> },
}

/// The destinations that want the webhook of that body.
pub open spec fn wanted_by(routes: Seq<DestinationView>, body: Seq<u8>) -> Seq<DestinationView> {
    routes.filter(|d: DestinationView| matches_event(d, event_of(json_text(body)->Ok_0)))
}

/// The decision on a webhook that came in at the given second since 1970: a signature that does
/// not hold refuses it, then a body that is no JSON; else it is for the destinations that want
/// it, or for none.
pub open spec fn is_decision(
    r: AppResult<WebhookDecision>,
    config: Config,
    routes: Seq<DestinationView>,
    headers: HeaderMap,
    body: Seq<u8>,
    now: i64,
) -> bool {
    let refusal = signature_error(
        config.resend_webhook_secret@,
        config.resend_signature_tolerance_secs,
        entries_of(headers),
        body,
        now,
    );
    match r {
        Err(error) => if refusal is Some {
            error@ == ErrorView::Signature(refusal->Some_0)
        } else {
            json_text(body) is Err && error@ == ErrorView::BadRequest(
                "invalid json payload: "@ + json_text(body)->Err_0,
            )
        },
        Ok(WebhookDecision::Drop { event }) => {
            &&& refusal is None
            &&& json_text(body) is Ok
            &&& event@ == event_of(json_text(body)->Ok_0)
            &&& wanted_by(routes, body).len() == 0
        },
        Ok(WebhookDecision::Enqueue { event, destinations }) => {
            &&& refusal is None
            &&& json_text(body) is Ok
            &&& event@ == event_of(json_text(body)->Ok_0)
            &&& wanted_by(routes, body).len() > 0
            &&& destination_views(destinations@) == wanted_by(routes, body)
        },
    }
}

/// Decides on a webhook that comes in at the given second since 1970.
pub fn receive_webhook_at(
    config: &Config,
    routes: &RouteMatcher,
    headers: &HeaderMap,
    body: &[u8],
    now: i64,
) -> (r: AppResult<WebhookDecision>)
    ensures
        is_decision(r, *config, routes@, *headers, body@, now),
{
    match verify_webhook_signature_at(
        config.resend_webhook_secret.as_str(),
        config.resend_signature_tolerance_secs,
        headers,
        body,
        now,
    ) {
        Ok(_) => {},
        Err(error) => return Err(error),
    }
    let event = match parse_event_for_routing(body) {
        Ok(event) => event,
        Err(error) => return Err(error),
    };
    let destinations: Vec<DestinationConfig> = routes.match_destinations(&event);
    assert(destination_views(destinations@) == wanted_by(routes@, body@));
    assert(destination_views(destinations@).len() == destinations@.len());
    if destinations.len() == 0 {
        Ok(WebhookDecision::Drop { event })
    } else {
        Ok(WebhookDecision::Enqueue { event, destinations })
    }
}

/// Decides on a webhook that comes in now. The present is read from the clock.
pub fn receive_webhook(
    config: &Config,
    routes: &RouteMatcher,
    headers: &HeaderMap,
    body: &[u8],
) -> (r: AppResult<WebhookDecision>)
    ensures
        exists|now: i64| #[trigger] is_decision(r, *config, routes@, *headers, body@, now),
{
    let now: i64 = unix_now();
    receive_webhook_at(config, routes, headers, body, now)
}

/// The HTTP status for a webhook: no content where it was dropped, else accepted, also where it
/// had come before.
pub fn webhook_status(kept: Option<EnqueueOutcome>) -> (r: u16)
    ensures
        r == (if kept is None {
            204u16
        } else {
            202u16
        }),
{
    match kept {
        None => 204,
        Some(EnqueueOutcome::Inserted(_)) => 202,
        Some(EnqueueOutcome::Duplicate) => 202,
    }
}

/// A webhook that is refused is answered as the sender's error: its signature does not hold or
/// its body is no JSON.
pub proof fn refused_webhook_is_a_client_error(
    r: AppResult<WebhookDecision>,
    config: Config,
    routes: Seq<DestinationView>,
    headers: HeaderMap,
    body: Seq<u8>,
    now: i64,
)
    requires
        is_decision(r, config, routes, headers, body, now),
        r is Err,
    ensures
        r->Err_0@.is_client_error(),
        r->Err_0@ is Signature <==> signature_error(
            config.resend_webhook_secret@,
            config.resend_signature_tolerance_secs,
            entries_of(headers),
            body,
            now,
        ) is Some,
{
}

/// A webhook that is accepted has the headers under which it is to be kept.
pub proof fn accepted_webhook_can_be_kept(
    r: AppResult<WebhookDecision>,
    config: Config,
    routes: Seq<DestinationView>,
    headers: HeaderMap,
    body: Seq<u8>,
    now: i64,
)
    requires
        is_decision(r, config, routes, headers, body, now),
        r is Ok,
    ensures
        optional_header(entries_of(headers), "svix-id"@) is Some,
        optional_header(entries_of(headers), "svix-timestamp"@) is Some,
{
}

/// Every destination that wants a webhook gets one delivery of it, in the order of the
/// configuration, and no other destination gets one.
pub proof fn each_wanting_destination_gets_one_delivery(
    routes: Seq<DestinationView>,
    body: Seq<u8>,
    destinations: Seq<DestinationConfig>,
    job_ids: Seq<u128>,
    event_id: u128,
    now: i128,
    deadline_at: int,
    jobs: Seq<JobRow>,
)
    requires
        destination_views(destinations) == wanted_by(routes, body),
        jobs.len() == destinations.len(),
        forall|i: int|
            0 <= i < jobs.len() ==> (#[trigger] jobs[i]).is_new(
                job_ids[i],
                event_id,
                destinations[i]@,
                now,
                deadline_at,
            ),
    ensures
        jobs.len() == wanted_by(routes, body).len(),
        forall|i: int|
            0 <= i < jobs.len() ==> {
                &&& (#[trigger] jobs[i]).destination_name@ == wanted_by(routes, body)[i].name
                &&& jobs[i].destination_url@ == wanted_by(routes, body)[i].url
            },
{
    assert(destination_views(destinations).len() == destinations.len());
    assert forall|i: int| 0 <= i < jobs.len() implies {
        &&& (#[trigger] jobs[i]).destination_name@ == wanted_by(routes, body)[i].name
        &&& jobs[i].destination_url@ == wanted_by(routes, body)[i].url
    } by {
        assert(destination_views(destinations)[i] == destinations[i]@);
    }
}

/// With a destination that takes all, no webhook is dropped.
pub proof fn catch_all_drops_nothing(routes: Seq<DestinationView>, body: Seq<u8>, i: int)
    requires
        0 <= i < routes.len(),
        routes[i].catch_all,
    ensures
        wanted_by(routes, body).contains(routes[i]),
{
    broadcast use vstd::seq_lib::group_filter_ensures;

    let wanted = |d: DestinationView| matches_event(d, event_of(json_text(body)->Ok_0));
    assert(wanted(routes[i]));
    assert(routes.filter(wanted).contains(routes[i]));
}

} // verus!
