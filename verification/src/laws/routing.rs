//! Who gets a webhook.

use crate::config::{destination_views, Config, DestinationView};
use crate::error::{AppResult, ErrorView};
use crate::headers::entries_of;
use crate::json::json_text;
use crate::laws::addresses::{is_domain, is_dots, is_white, lacks, small_domain_is_read_as_written};
use crate::laws::texts::{all_in, lemma_trim_end_joined, lemma_trimmed_away, trimming_leaves_the_inner_part};
use crate::resend::{email_domain, event_of, signature_error, EventView};
use crate::router::{
    email_domain_is_normalized, matches_event, normalized_destination, normalized_domain,
    normalized_domains,
};
use crate::text::{
    is_space, lemma_trim_start_joined, lower, trim_end, trim_start, CharClass,
};
use crate::web::{is_decision, wanted_by, WebhookDecision};
use axum::http::HeaderMap;
use vstd::prelude::*;

verus! {

/// A domain is compared in small letters and without the white space, the `@` in front and the
/// dots at the end, all of them and nothing else; where nothing is left, it is none.
pub proof fn domain_is_compared_bare(
    before: Seq<char>,
    ats: Seq<char>,
    domain: Seq<char>,
    dots: Seq<char>,
    after: Seq<char>,
)
    requires
        is_white(before),
        is_white(after),
        forall|i: int| 0 <= i < ats.len() ==> #[trigger] ats[i] == '@',
        is_dots(dots),
        domain.len() > 0 ==> !is_space(domain[0]) && domain[0] != '@' && !is_space(domain.last())
            && domain.last() != '.',
    ensures
        domain.len() > 0 ==> normalized_domain(before + ats + domain + dots + after) == Some(
            lower(domain),
        ),
        domain.len() == 0 ==> normalized_domain(before + ats + domain + dots + after) is None,
{
    let middle = ats + domain + dots;
    let whole = before + ats + domain + dots + after;
    assert(whole =~= before + middle + after);
    assert(all_in(before, CharClass::Space));
    assert(all_in(after, CharClass::Space));
    assert(all_in(ats, CharClass::Only('@')));
    assert(all_in(dots, CharClass::Only('.')));
    if middle.len() > 0 {
        assert(!is_space(middle[0])) by {
            if ats.len() > 0 {
                assert(middle[0] == ats[0]);
            } else if domain.len() > 0 {
                assert(middle[0] == domain[0]);
            } else {
                assert(middle[0] == dots[0]);
            }
        }
        assert(!is_space(middle.last())) by {
            if dots.len() > 0 {
                assert(middle.last() == dots[dots.len() - 1]);
            } else if domain.len() > 0 {
                assert(middle.last() == domain.last());
            } else {
                assert(middle.last() == ats[ats.len() - 1]);
            }
        }
    }
    trimming_leaves_the_inner_part(before, middle, after, CharClass::Space);
    let rest = domain + dots;
    assert(middle =~= ats + rest);
    lemma_trimmed_away(ats, CharClass::Only('@'));
    lemma_trim_start_joined(ats, rest, CharClass::Only('@'));
    if rest.len() > 0 {
        assert(rest[0] != '@') by {
            if domain.len() > 0 {
                assert(rest[0] == domain[0]);
            } else {
                assert(rest[0] == dots[0]);
            }
        }
    }
    assert(trim_start(rest, CharClass::Only('@')) == rest);
    lemma_trimmed_away(dots, CharClass::Only('.'));
    lemma_trim_end_joined(domain, dots, CharClass::Only('.'));
    assert(trim_end(domain, CharClass::Only('.')) == domain);
}

/// A destination keeps its name, its URL, its types and whether it takes all when its domains are
/// brought into the form by which events are compared.
pub proof fn only_domains_are_normalized(d: DestinationView)
    ensures
        normalized_destination(d).name == d.name,
        normalized_destination(d).url == d.url,
        normalized_destination(d).event_types == d.event_types,
        normalized_destination(d).catch_all == d.catch_all,
{
}

/// A destination gets an event where it takes all, or where each list that is not empty has what
/// the event says: its type, its sender's domain, one of its recipients' domains.
pub proof fn event_is_matched_list_by_list(d: DestinationView, e: EventView)
    ensures
        matches_event(d, e) <==> {
            ||| d.catch_all
            ||| {
                &&& d.event_types.len() == 0 || exists|i: int|
                    0 <= i < d.event_types.len() && e.event_type == Some(
                        #[trigger] d.event_types[i],
                    )
                &&& d.from_domains.len() == 0 || exists|i: int|
                    0 <= i < d.from_domains.len() && e.from_domain == Some(
                        #[trigger] d.from_domains[i],
                    )
                &&& d.to_domains.len() == 0 || exists|i: int, j: int|
                    0 <= i < d.to_domains.len() && 0 <= j < e.to_domains.len()
                        && #[trigger] d.to_domains[i] == #[trigger] e.to_domains[j]
            }
        },
{
    if exists|j: int|
        0 <= j < e.to_domains.len() && d.to_domains.contains(#[trigger] e.to_domains[j]) {
        let j = choose|j: int|
            0 <= j < e.to_domains.len() && d.to_domains.contains(#[trigger] e.to_domains[j]);
        let i = d.to_domains.index_of(e.to_domains[j]);
        assert(d.to_domains[i] == e.to_domains[j]);
    }
    if exists|i: int, j: int|
        0 <= i < d.to_domains.len() && 0 <= j < e.to_domains.len() && #[trigger] d.to_domains[i]
            == #[trigger] e.to_domains[j] {
        let (i, j) = choose|i: int, j: int|
            0 <= i < d.to_domains.len() && 0 <= j < e.to_domains.len()
                && #[trigger] d.to_domains[i] == #[trigger] e.to_domains[j];
        assert(d.to_domains.contains(e.to_domains[j]));
    }
    if e.event_type is Some && d.event_types.contains(e.event_type->Some_0) {
        let i = d.event_types.index_of(e.event_type->Some_0);
        assert(e.event_type == Some(d.event_types[i]));
    }
    if e.from_domain is Some && d.from_domains.contains(e.from_domain->Some_0) {
        let i = d.from_domains.index_of(e.from_domain->Some_0);
        assert(e.from_domain == Some(d.from_domains[i]));
    }
}

/// A domain that is written in an address and the same domain in a destination's list are
/// compared as the same, whatever letters are capital in the list.
pub proof fn listed_domain_is_found(local: Seq<char>, domain: Seq<char>, listed: Seq<char>)
    requires
        lacks(local, '<'),
        lacks(local, '>'),
        is_domain(domain),
        forall|i: int| 0 <= i < domain.len() ==> !('A' <= #[trigger] domain[i] <= 'Z'),
        lower(listed) == domain,
    ensures
        normalized_domain(listed) == email_domain(local + seq!['@'] + domain),
        normalized_domain(seq!['@'] + listed) == email_domain(local + seq!['@'] + domain),
{
    let none = Seq::<char>::empty();
    small_domain_is_read_as_written(none, local, domain);
    email_domain_is_normalized(local + seq!['@'] + domain);
    assert(lower(domain) =~= domain);
    crate::router::domains_compare_without_case(listed, domain);
    assert(lower(seq!['@'] + listed) =~= lower(seq!['@'] + domain));
    crate::router::domains_compare_without_case(seq!['@'] + listed, seq!['@'] + domain);
    crate::router::leading_at_does_not_count(domain);
}

/// The destinations that want a webhook are found one by one, in the order of the configuration.
pub proof fn wanting_destinations_are_found_in_order(
    routes: Seq<DestinationView>,
    d: DestinationView,
    body: Seq<u8>,
)
    ensures
        wanted_by(Seq::empty(), body) == Seq::<DestinationView>::empty(),
        matches_event(d, event_of(json_text(body)->Ok_0)) ==> wanted_by(routes.push(d), body)
            == wanted_by(routes, body).push(d),
        !matches_event(d, event_of(json_text(body)->Ok_0)) ==> wanted_by(routes.push(d), body)
            == wanted_by(routes, body),
{
    reveal(Seq::filter);
    assert(routes.push(d).drop_last() =~= routes);
}

/// A webhook is decided on by its signature and its body alone: it is accepted where both hold,
/// kept for just the destinations that want it, and dropped where none does.
pub proof fn webhook_goes_to_those_that_want_it(
    r: AppResult<WebhookDecision>,
    config: Config,
    routes: Seq<DestinationView>,
    headers: HeaderMap,
    body: Seq<u8>,
    now: i64,
)
    requires
        is_decision(r, config, routes, headers, body, now),
    ensures
        r is Ok <==> signature_error(
            config.resend_webhook_secret@,
            config.resend_signature_tolerance_secs,
            entries_of(headers),
            body,
            now,
        ) is None && json_text(body) is Ok,
        r matches Ok(WebhookDecision::Drop { event }) ==> {
            &&& event@ == event_of(json_text(body)->Ok_0)
            &&& forall|i: int|
                0 <= i < routes.len() ==> !matches_event(#[trigger] routes[i], event@)
        },
        r matches Ok(WebhookDecision::Enqueue { event, destinations }) ==> {
            &&& event@ == event_of(json_text(body)->Ok_0)
            &&& destinations@.len() > 0
            &&& forall|i: int|
                0 <= i < routes.len() && matches_event(#[trigger] routes[i], event@)
                    ==> exists|k: int|
                    0 <= k < destinations@.len() && (#[trigger] destinations@[k])@ == routes[i]
            &&& forall|k: int|
                0 <= k < destinations@.len() ==> matches_event(
                    (#[trigger] destinations@[k])@,
                    event@,
                ) && routes.contains(destinations@[k]@)
        },
{
    broadcast use vstd::seq_lib::group_filter_ensures;

    let wanted = |d: DestinationView| matches_event(d, event_of(json_text(body)->Ok_0));
    let found = routes.filter(wanted);
    assert(found == wanted_by(routes, body));
    lemma_filter_members(routes, wanted);
    match r {
        Ok(WebhookDecision::Drop { event }) => {
            assert forall|i: int| 0 <= i < routes.len() implies !matches_event(
                #[trigger] routes[i],
                event@,
            ) by {
                if wanted(routes[i]) {
                    assert(found.contains(routes[i]));
                }
            }
        },
        Ok(WebhookDecision::Enqueue { event, destinations }) => {
            let views = destination_views(destinations@);
            assert(views.len() == destinations@.len());
            assert forall|i: int|
                0 <= i < routes.len() && matches_event(#[trigger] routes[i], event@) implies exists|
                k: int,
            |
                0 <= k < destinations@.len() && (#[trigger] destinations@[k])@ == routes[i] by {
                assert(wanted(routes[i]));
                assert(found.contains(routes[i]));
                let k = found.index_of(routes[i]);
                assert(views[k] == destinations@[k]@);
            }
            assert forall|k: int| 0 <= k < destinations@.len() implies matches_event(
                (#[trigger] destinations@[k])@,
                event@,
            ) && routes.contains(destinations@[k]@) by {
                assert(views[k] == destinations@[k]@);
                assert(wanted(found[k]));
            }
        },
        Err(_) => {},
    }
}

proof fn lemma_filter_members(routes: Seq<DestinationView>, wanted: spec_fn(DestinationView) -> bool)
    ensures
        forall|k: int|
            0 <= k < routes.filter(wanted).len() ==> routes.contains(
                #[trigger] routes.filter(wanted)[k],
            ),
    decreases routes.len(),
{
    reveal(Seq::filter);
    if routes.len() > 0 {
        let front = routes.drop_last();
        lemma_filter_members(front, wanted);
        let found = routes.filter(wanted);
        assert forall|k: int| 0 <= k < found.len() implies routes.contains(#[trigger] found[k]) by {
            if k < front.filter(wanted).len() {
                assert(found[k] == front.filter(wanted)[k]);
                let i = front.index_of(found[k]);
                assert(routes[i] == found[k]);
            } else {
                assert(found[k] == routes[routes.len() - 1]);
            }
        }
    }
}

/// Errors say their own words after a few that name their kind, and only those of a request count
/// as the client's.
pub proof fn errors_keep_their_words(words: Seq<char>)
    ensures
        ErrorView::Config(words).message() == "configuration error: "@ + words,
        ErrorView::BadRequest(words).message() == "bad request: "@ + words,
        ErrorView::Signature(words).message() == "webhook signature verification failed: "@ + words,
        ErrorView::Database(words).message() == "database error: "@ + words,
        ErrorView::Migration(words).message() == "database migration error: "@ + words,
        ErrorView::HttpClient(words).message() == "http client error: "@ + words,
        ErrorView::Io(words).message() == "io error: "@ + words,
        ErrorView::BadRequest(words).is_client_error(),
        ErrorView::Signature(words).is_client_error(),
        !ErrorView::Config(words).is_client_error(),
        !ErrorView::Database(words).is_client_error(),
        !ErrorView::Migration(words).is_client_error(),
        !ErrorView::HttpClient(words).is_client_error(),
        !ErrorView::Io(words).is_client_error(),
{
}

/// A webhook that is refused is told the fault of its signature, or else why its body is no JSON.
pub proof fn refused_webhook_has_its_words(
    r: AppResult<WebhookDecision>,
    config: Config,
    routes: Seq<DestinationView>,
    headers: HeaderMap,
    body: Seq<u8>,
    now: i64,
)
    requires
        is_decision(r, config, routes, headers, body, now),
        r is Err,
    ensures
        ({
            let refusal = signature_error(
                config.resend_webhook_secret@,
                config.resend_signature_tolerance_secs,
                entries_of(headers),
                body,
                now,
            );
            &&& refusal is Some ==> r->Err_0@ == ErrorView::Signature(refusal->Some_0)
            &&& refusal is None ==> json_text(body) is Err && r->Err_0@ == ErrorView::BadRequest(
                "invalid json payload: "@ + json_text(body)->Err_0,
            )
        }),
{
}

/// The domains of a list are brought into the form for comparing one by one, in their order, and
/// only the blank ones are left out.
pub proof fn listed_domains_are_normalized_in_order(
    domains: Seq<Seq<char>>,
    domain: Seq<char>,
)
    ensures
        normalized_domains(Seq::empty()) == Seq::<Seq<char>>::empty(),
        normalized_domain(domain) is Some ==> normalized_domains(domains.push(domain))
            == normalized_domains(domains).push(normalized_domain(domain)->Some_0),
        normalized_domain(domain) is None ==> normalized_domains(domains.push(domain))
            == normalized_domains(domains),
{
    assert(domains.push(domain).drop_last() =~= domains);
    assert(normalized_domains(Seq::<Seq<char>>::empty()) =~= Seq::<Seq<char>>::empty());
}

/// Both lists of domains of a destination are brought into the form for comparing, each by
/// itself.
pub proof fn both_lists_are_normalized(d: DestinationView)
    ensures
        normalized_destination(d).from_domains == normalized_domains(d.from_domains),
        normalized_destination(d).to_domains == normalized_domains(d.to_domains),
{
}

} // verus!
