//! Which destinations get a webhook.

use crate::config::{
    bare_domain, copied_destinations, destination_error, destination_views, is_blank_domain,
    DestinationConfig, DestinationView,
};
use crate::resend::{email_domain, email_domain_is_bare, EventView, ResendEventForRouting};
use crate::text::{
    chars_of, ignores_case, is_space, lemma_lower_twice, lemma_trim_lower, listed, lower, lowered,
    texts, trim, trim_end, trim_start, trimmed, trimmed_end, trimmed_start, CharClass,
};
use vstd::prelude::*;

verus! {

/// The domain by which events are compared: bare, with small letters; nothing, if it is blank.
pub open spec fn normalized_domain(domain: Seq<char>) -> Option<Seq<char>> {
    if bare_domain(domain).len() == 0 {
        None
    } else {
        Some(lower(bare_domain(domain)))
    }
}

/// The domains of a list in the form by which events are compared, without the blank ones.
pub open spec fn normalized_domains(domains: Seq<Seq<char>>) -> Seq<Seq<char>>
    decreases domains.len(),
{
    if domains.len() == 0 {
        Seq::empty()
    } else {
        let rest = normalized_domains(domains.drop_last());
        match normalized_domain(domains.last()) {
            Some(domain) => rest.push(domain),
            None => rest,
        }
    }
}

/// The destination with its domains in the form by which events are compared.
pub open spec fn normalized_destination(d: DestinationView) -> DestinationView {
    DestinationView {
        from_domains: normalized_domains(d.from_domains),
        to_domains: normalized_domains(d.to_domains),
        ..d
    }
}

/// Whether the event is of a type that the destination asks for; any, if it asks for none.
pub open spec fn type_matches(d: DestinationView, e: EventView) -> bool {
    d.event_types.len() == 0 || (e.event_type is Some && d.event_types.contains(
        e.event_type->Some_0,
    ))
}

/// Whether the event comes from a domain that the destination asks for; any, if it asks for none.
pub open spec fn sender_matches(d: DestinationView, e: EventView) -> bool {
    d.from_domains.len() == 0 || (e.from_domain is Some && d.from_domains.contains(
        e.from_domain->Some_0,
    ))
}

/// Whether the event goes to a domain that the destination asks for; any, if it asks for none.
pub open spec fn recipient_matches(d: DestinationView, e: EventView) -> bool {
    d.to_domains.len() == 0 || exists|i: int|
        0 <= i < e.to_domains.len() && d.to_domains.contains(#[trigger] e.to_domains[i])
}

/// Whether the destination gets the event: it takes all, or all that it asks for holds.
pub open spec fn matches_event(d: DestinationView, e: EventView) -> bool {
    d.catch_all || (type_matches(d, e) && sender_matches(d, e) && recipient_matches(d, e))
}

/// The destinations of the router, ready to be compared with events.
#[derive(Debug)]
pub struct RouteMatcher {
    destinations: Vec<DestinationConfig>,
}

impl View for RouteMatcher {
    type V = Seq<DestinationView>;

    closed spec fn view(&self) -> Seq<DestinationView> {
        destination_views(self.destinations@)
    }
}

impl Clone for RouteMatcher {
    fn clone(&self) -> (r: Self)
        ensures
            r@ == self@,
    {
        RouteMatcher { destinations: copied_destinations(&self.destinations) }
    }
}

impl RouteMatcher {
    /// A matcher for the destinations.
    pub fn new(destinations: Vec<DestinationConfig>) -> (r: Self)
        ensures
            r@ == destination_views(destinations@).map_values(
                |d: DestinationView| normalized_destination(d),
            ),
    {
        let mut normalized: Vec<DestinationConfig> = Vec::new();
        let mut i: usize = 0;
        while i < destinations.len()
            invariant
                i <= destinations@.len(),
                normalized@.len() == i,
                forall|j: int|
                    0 <= j < i ==> (#[trigger] normalized@[j])@ == normalized_destination(
                        destinations@[j]@,
                    ),
            decreases destinations@.len() - i,
        {
            normalized.push(normalize_destination(&destinations[i]));
            i += 1;
        }
        let r = RouteMatcher { destinations: normalized };
        assert(r@ =~= destination_views(destinations@).map_values(
            |d: DestinationView| normalized_destination(d),
        ));
        r
    }

    /// The destinations that get the event, in the order of the configuration.
    pub fn match_destinations(&self, event: &ResendEventForRouting) -> (r: Vec<DestinationConfig>)
        ensures
            destination_views(r@) == self@.filter(|d: DestinationView| matches_event(d, event@)),
    {
        let ghost wanted = |d: DestinationView| matches_event(d, event@);
        let mut matched: Vec<DestinationConfig> = Vec::new();
        let mut i: usize = 0;
        proof {
            reveal_with_fuel(Seq::filter, 1);
            assert(destination_views(matched@) =~= self@.take(0).filter(wanted));
        }
        while i < self.destinations.len()
            invariant
                i <= self.destinations@.len(),
                wanted == (|d: DestinationView| matches_event(d, event@)),
                destination_views(matched@) == self@.take(i as int).filter(wanted),
            decreases self.destinations@.len() - i,
        {
            let ghost before = matched@;
            if destination_matches(&self.destinations[i], event) {
                matched.push(self.destinations[i].clone());
            }
            proof {
                reveal_with_fuel(Seq::filter, 1);
                let next = self@.take(i + 1);
                assert(next.drop_last() =~= self@.take(i as int));
                assert(next.last() == self@[i as int]);
                if wanted(self@[i as int]) {
                    assert(destination_views(matched@) =~= destination_views(before).push(
                        self@[i as int],
                    ));
                }
            }
            i += 1;
        }
        assert(self@.take(i as int) =~= self@);
        matched
    }
}

/// Whether the destination gets the event.
pub fn destination_matches(destination: &DestinationConfig, event: &ResendEventForRouting) -> (r:
    bool)
    ensures
        r == matches_event(destination@, event@),
{
    if destination.catch_all {
        return true;
    }
    if destination.event_types.len() > 0 {
        match &event.event_type {
            None => return false,
            Some(event_type) => {
                if !listed(&destination.event_types, event_type) {
                    return false;
                }
            },
        }
    }
    if destination.from_domains.len() > 0 {
        match &event.from_domain {
            None => return false,
            Some(from_domain) => {
                if !listed(&destination.from_domains, from_domain) {
                    return false;
                }
            },
        }
    }
    if destination.to_domains.len() == 0 {
        return true;
    }
    let wanted: bool = any_listed(&destination.to_domains, &event.to_domains);
    assert(destination@.to_domains == texts(destination.to_domains@));
    assert(event@.to_domains == texts(event.to_domains@));
    wanted
}

fn any_listed(list: &Vec<String>, candidates: &Vec<String>) -> (r: bool)
    ensures
        r == (exists|i: int|
            0 <= i < texts(candidates@).len() && texts(list@).contains(
                #[trigger] texts(candidates@)[i],
            )),
{
    let mut i: usize = 0;
    while i < candidates.len()
        invariant
            i <= candidates@.len(),
            forall|j: int|
                0 <= j < i ==> !texts(list@).contains(#[trigger] texts(candidates@)[j]),
        decreases candidates@.len() - i,
    {
        if listed(list, &candidates[i]) {
            assert(texts(list@).contains(texts(candidates@)[i as int]));
            return true;
        }
        i += 1;
    }
    false
}

/// Brings the domains of the destination into the form by which events are compared.
pub fn normalize_destination(destination: &DestinationConfig) -> (r: DestinationConfig)
    ensures
        r@ == normalized_destination(destination@),
{
    let mut normalized = destination.clone();
    normalized.from_domains = normalize_domains(&destination.from_domains);
    normalized.to_domains = normalize_domains(&destination.to_domains);
    normalized
}

fn normalize_domains(domains: &Vec<String>) -> (r: Vec<String>)
    ensures
        texts(r@) == normalized_domains(texts(domains@)),
{
    let ghost all = texts(domains@);
    let mut normalized: Vec<String> = Vec::new();
    let mut i: usize = 0;
    assert(texts(normalized@) =~= normalized_domains(all.take(0)));
    while i < domains.len()
        invariant
            i <= domains@.len(),
            all == texts(domains@),
            texts(normalized@) == normalized_domains(all.take(i as int)),
        decreases domains@.len() - i,
    {
        let ghost before = normalized@;
        assert(all.take(i + 1).drop_last() =~= all.take(i as int));
        assert(all.take(i + 1).last() == domains@[i as int]@);
        match normalize_domain(domains[i].as_str()) {
            Some(domain) => {
                normalized.push(domain);
                assert(texts(normalized@) =~= texts(before).push(domain@));
            },
            None => {},
        }
        i += 1;
    }
    assert(all.take(i as int) =~= all);
    normalized
}

/// Brings a domain into the form by which events are compared.
pub fn normalize_domain(domain: &str) -> (r: Option<String>)
    ensures
        match r {
            Some(text) => normalized_domain(domain@) == Some(text@),
            None => normalized_domain(domain@) is None,
        },
{
    let chars: Vec<char> = chars_of(domain);
    let bare: &[char] = trimmed_end(
        trimmed_start(trimmed(chars.as_slice(), CharClass::Space), CharClass::Only('@')),
        CharClass::Only('.'),
    );
    if bare.len() == 0 {
        None
    } else {
        Some(lowered(bare))
    }
}

/// A destination that takes all webhooks gets every event, whatever else it asks for.
pub proof fn catch_all_gets_every_event(d: DestinationView, e: EventView)
    requires
        d.catch_all,
    ensures
        matches_event(normalized_destination(d), e),
{
}

/// What a destination asks for adds up: without one of its lists it gets the same events, or
/// more.
pub proof fn constraints_add_up(d: DestinationView, e: EventView)
    requires
        matches_event(d, e),
    ensures
        matches_event(DestinationView { from_domains: Seq::empty(), ..d }, e),
        matches_event(DestinationView { to_domains: Seq::empty(), ..d }, e),
        matches_event(DestinationView { event_types: Seq::empty(), ..d }, e),
{
}

proof fn lemma_normalized_domains(domains: Seq<Seq<char>>, wanted: Seq<char>)
    ensures
        normalized_domains(domains).contains(wanted) <==> exists|i: int|
            0 <= i < domains.len() && normalized_domain(#[trigger] domains[i]) == Some(wanted),
        (forall|i: int| 0 <= i < domains.len() ==> !is_blank_domain(#[trigger] domains[i]))
            ==> normalized_domains(domains).len() == domains.len(),
    decreases domains.len(),
{
    if domains.len() > 0 {
        let front = domains.drop_last();
        let rest = normalized_domains(front);
        let all = normalized_domains(domains);
        lemma_normalized_domains(front, wanted);
        assert(domains.last() == domains[domains.len() - 1]);
        if forall|i: int| 0 <= i < domains.len() ==> !is_blank_domain(#[trigger] domains[i]) {
            assert forall|i: int| 0 <= i < front.len() implies !is_blank_domain(
                #[trigger] front[i],
            ) by {
                assert(front[i] == domains[i]);
            }
        }
        match normalized_domain(domains.last()) {
            Some(domain) => {
                assert(all[rest.len() as int] == domain);
                if rest.contains(wanted) {
                    let k = rest.index_of(wanted);
                    assert(all[k] == wanted);
                }
                if all.contains(wanted) && domain != wanted {
                    let k = all.index_of(wanted);
                    assert(rest[k] == wanted);
                }
            },
            None => {},
        }
        if exists|i: int|
            0 <= i < front.len() && normalized_domain(#[trigger] front[i]) == Some(wanted) {
            let k = choose|i: int|
                0 <= i < front.len() && normalized_domain(#[trigger] front[i]) == Some(wanted);
            assert(domains[k] == front[k]);
        }
        if exists|i: int|
            0 <= i < domains.len() && normalized_domain(#[trigger] domains[i]) == Some(wanted) {
            let k = choose|i: int|
                0 <= i < domains.len() && normalized_domain(#[trigger] domains[i]) == Some(wanted);
            if k < front.len() {
                assert(front[k] == domains[k]);
            }
        }
    }
}

/// An accepted destination loses no domain when it is brought into the form by which events are
/// compared: each of its domains has such a form, and the lists stay as long as they were.
pub proof fn accepted_destination_loses_no_domain(
    d: DestinationView,
    scheme: Result<Seq<char>, Seq<char>>,
)
    requires
        destination_error(d, scheme) is None,
    ensures
        forall|i: int|
            0 <= i < d.from_domains.len() ==> normalized_domain(#[trigger] d.from_domains[i])
                is Some,
        forall|i: int|
            0 <= i < d.to_domains.len() ==> normalized_domain(#[trigger] d.to_domains[i]) is Some,
        normalized_domains(d.from_domains).len() == d.from_domains.len(),
        normalized_domains(d.to_domains).len() == d.to_domains.len(),
{
    lemma_normalized_domains(d.from_domains, Seq::empty());
    lemma_normalized_domains(d.to_domains, Seq::empty());
}

/// Whether one of the domains, in the form by which events are compared, is the wanted one.
pub open spec fn asks_for(domains: Seq<Seq<char>>, wanted: Seq<char>) -> bool {
    exists|i: int|
        0 <= i < domains.len() && normalized_domain(#[trigger] domains[i]) == Some(wanted)
}

/// An accepted destination gets an event where, and only where, it takes all, or the event
/// fulfils each list that the destination was given: its type is listed, its sender's domain is
/// one of the domains, and so is the domain of one of its recipients. No list is lost on the way.
pub proof fn accepted_destination_is_matched_exactly(
    d: DestinationView,
    scheme: Result<Seq<char>, Seq<char>>,
    e: EventView,
)
    requires
        destination_error(d, scheme) is None,
    ensures
        matches_event(normalized_destination(d), e) <==> d.catch_all || {
            &&& d.event_types.len() == 0 || (e.event_type is Some && d.event_types.contains(
                e.event_type->Some_0,
            ))
            &&& d.from_domains.len() == 0 || (e.from_domain is Some && asks_for(
                d.from_domains,
                e.from_domain->Some_0,
            ))
            &&& d.to_domains.len() == 0 || exists|i: int|
                0 <= i < e.to_domains.len() && asks_for(d.to_domains, #[trigger] e.to_domains[i])
        },
{
    let n = normalized_destination(d);
    if e.from_domain is Some {
        lemma_normalized_domains(d.from_domains, e.from_domain->Some_0);
    }
    lemma_normalized_domains(d.from_domains, Seq::empty());
    lemma_normalized_domains(d.to_domains, Seq::empty());
    assert forall|i: int| 0 <= i < e.to_domains.len() implies n.to_domains.contains(
        #[trigger] e.to_domains[i],
    ) == asks_for(d.to_domains, e.to_domains[i]) by {
        lemma_normalized_domains(d.to_domains, e.to_domains[i]);
    }
    if exists|i: int|
        0 <= i < e.to_domains.len() && asks_for(d.to_domains, #[trigger] e.to_domains[i]) {
        let k = choose|i: int|
            0 <= i < e.to_domains.len() && asks_for(d.to_domains, #[trigger] e.to_domains[i]);
        assert(n.to_domains.contains(e.to_domains[k]));
    }
    if exists|i: int|
        0 <= i < e.to_domains.len() && n.to_domains.contains(#[trigger] e.to_domains[i]) {
        let k = choose|i: int|
            0 <= i < e.to_domains.len() && n.to_domains.contains(#[trigger] e.to_domains[i]);
        assert(asks_for(d.to_domains, e.to_domains[k]));
    }
}

/// An accepted destination takes all only where it says so: it does not get an event of which
/// nothing is known.
pub proof fn only_catch_all_gets_unknown_events(
    d: DestinationView,
    scheme: Result<Seq<char>, Seq<char>>,
    e: EventView,
)
    requires
        destination_error(d, scheme) is None,
        e.event_type is None,
        e.from_domain is None,
        e.to_domains.len() == 0,
    ensures
        matches_event(normalized_destination(d), e) <==> d.catch_all,
{
    accepted_destination_is_matched_exactly(d, scheme, e);
}

/// Capital letters in a domain do not count.
pub proof fn domains_compare_without_case(a: Seq<char>, b: Seq<char>)
    requires
        lower(a) == lower(b),
    ensures
        normalized_domain(a) == normalized_domain(b),
{
    lemma_normalized_lower(a);
    lemma_normalized_lower(b);
}

proof fn lemma_normalized_lower(domain: Seq<char>)
    ensures
        lower(bare_domain(domain)) == bare_domain(lower(domain)),
        normalized_domain(lower(domain)) == normalized_domain(domain),
{
    assert(ignores_case(CharClass::Space));
    assert(ignores_case(CharClass::Only('@')));
    assert(ignores_case(CharClass::Only('.')));
    let s1 = trim_start(domain, CharClass::Space);
    let s2 = trim_end(s1, CharClass::Space);
    let s3 = trim_start(s2, CharClass::Only('@'));
    lemma_trim_lower(domain, CharClass::Space);
    lemma_trim_lower(s1, CharClass::Space);
    lemma_trim_lower(s2, CharClass::Only('@'));
    lemma_trim_lower(s3, CharClass::Only('.'));
    lemma_lower_twice(bare_domain(domain));
}

/// An `@` before a domain does not count, where no white space stands between them.
pub proof fn leading_at_does_not_count(domain: Seq<char>)
    requires
        domain.len() > 0 ==> !is_space(domain[0]),
    ensures
        normalized_domain(seq!['@'] + domain) == normalized_domain(domain),
{
    let marked = seq!['@'] + domain;
    lemma_trim_end_marked(domain);
    let inner = trim(domain, CharClass::Space);
    let outer = trim(marked, CharClass::Space);
    assert(outer == seq!['@'] + inner);
    assert(outer.drop_first() =~= inner);
    assert(trim_start(outer, CharClass::Only('@')) == trim_start(inner, CharClass::Only('@')));
}

proof fn lemma_trim_end_marked(domain: Seq<char>)
    ensures
        trim_end(seq!['@'] + domain, CharClass::Space) == seq!['@'] + trim_end(
            domain,
            CharClass::Space,
        ),
    decreases domain.len(),
{
    let marked = seq!['@'] + domain;
    if domain.len() > 0 {
        assert(marked.last() == domain.last());
        assert(marked.drop_last() =~= seq!['@'] + domain.drop_last());
        lemma_trim_end_marked(domain.drop_last());
    } else {
        assert(marked =~= seq!['@']);
    }
}

/// The domain that is read from an address field is in the form by which events are compared, so
/// that a destination that lists it gets the event.
pub proof fn email_domain_is_normalized(field: Seq<char>)
    requires
        email_domain(field) is Some,
    ensures
        normalized_domain(email_domain(field)->Some_0) == email_domain(field),
{
    let domain = email_domain(field)->Some_0;
    email_domain_is_bare(field);
    assert(!is_space(domain[0]) && domain[0] != '@');
    assert(!is_space(domain.last()));
    assert(bare_domain(domain) == domain);
    assert(lower(domain) =~= domain);
}

} // verus!
