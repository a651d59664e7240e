//! How settings are read, and which are accepted.

use crate::config::{
    config_error, destination_error, is_blank, is_blank_domain, reports, settings_error, signed,
    url_scheme, url_schemes, ConfigView, DestinationConfig, DestinationView,
};
use crate::environment::{filled, number_setting, unset, Environment};
use crate::error::{AppResult, ErrorView};
use crate::laws::addresses::{is_white, lemma_trim_end_stops};
use crate::laws::numbers::{in_range, written_numbers_are_read};
use crate::laws::texts::lemma_trimmed_away;
use crate::number::{int_text, int_value, is_digit, lemma_nat_text, nat_text};
use crate::resend::refuses;
use crate::router::normalized_domain;
use crate::text::{is_space, trim_start, CharClass};
use vstd::prelude::*;
use vstd::utf8::encode_utf8;

verus! {

proof fn lemma_trim_start_stops(s: Seq<char>, class: CharClass, i: int)
    requires
        0 <= i < s.len(),
        !class.holds(s[i]),
    ensures
        trim_start(s, class).len() >= s.len() - i,
        trim_start(s, class).len() <= s.len(),
        trim_start(s, class)[i - (s.len() - trim_start(s, class).len())] == s[i],
    decreases s.len(),
{
    if class.holds(s[0]) {
        assert(s.drop_first()[i - 1] == s[i]);
        lemma_trim_start_stops(s.drop_first(), class, i - 1);
    }
}

/// A text is blank where, and only where, it is white space only.
pub proof fn blank_is_white_space_only(s: Seq<char>)
    ensures
        is_blank(s) <==> is_white(s),
{
    if is_white(s) {
        lemma_trimmed_away(s, CharClass::Space);
    } else {
        let i = choose|i: int| 0 <= i < s.len() && !is_space(#[trigger] s[i]);
        lemma_trim_start_stops(s, CharClass::Space, i);
        let t = trim_start(s, CharClass::Space);
        lemma_trim_end_stops(t, CharClass::Space, i - (s.len() - t.len()));
    }
}

proof fn lemma_written_is_filled(value: Option<String>, n: int)
    requires
        value is Some,
        value->Some_0@ == int_text(n),
    ensures
        filled(value) == Some(int_text(n)),
{
    let s = int_text(n);
    let size = if n < 0 { (-n) as nat } else { n as nat };
    lemma_nat_text(size);
    assert(is_digit(nat_text(size)[0]));
    assert(!is_space(s[0]));
    blank_is_white_space_only(s);
}

/// A number that is set in decimal notation is read as that number, and refused by its name where
/// it is out of the range.
pub proof fn written_number_is_set(
    key: Seq<char>,
    value: Option<String>,
    n: int,
    default: int,
    min: int,
    max: int,
)
    requires
        value is Some,
        value->Some_0@ == int_text(n),
        min < 0 <= max || (min == 0 <= max && 0 <= n),
    ensures
        number_setting(key, value, default, min, max) == (match in_range(n, min, max) {
            Ok(number) => Ok::<int, Seq<char>>(number),
            Err(error) => Err("invalid "@ + key + ": "@ + error.text()),
        }),
{
    lemma_written_is_filled(value, n);
    written_numbers_are_read(n, min, max);
}

/// Whether the variable is set to the number in decimal notation.
pub open spec fn is_set_to(value: Option<String>, n: int) -> bool {
    value is Some && value->Some_0@ == int_text(n)
}

/// Each setting that is written as a number of its range is that number.
pub proof fn written_settings_are_read(
    environment: Environment,
    destinations: Result<Vec<DestinationConfig>, String>,
    n: int,
)
    ensures
        ({
            let e = environment;
            let c = e.settings(destinations);
            &&& is_set_to(e.database_max_connections, n) && 0 <= n <= u32::MAX
                ==> c.database_max_connections == n
            &&& is_set_to(e.resend_signature_tolerance_secs, n) && i64::MIN <= n <= i64::MAX
                ==> c.resend_signature_tolerance_secs == n
            &&& is_set_to(e.delivery_workers, n) && 0 <= n <= usize::MAX
                ==> c.delivery_worker_count == n
            &&& is_set_to(e.delivery_claim_limit, n) && i64::MIN <= n <= i64::MAX
                ==> c.delivery_claim_limit == n
            &&& is_set_to(e.delivery_timeout_secs, n) && 0 <= n <= u64::MAX
                ==> c.delivery_timeout_secs == n
            &&& is_set_to(e.retry_window_secs, n) && 0 <= n <= u64::MAX ==> c.retry_window_secs == n
            &&& is_set_to(e.warn_after_attempts, n) && i32::MIN <= n <= i32::MAX
                ==> c.warn_after_attempts == n
            &&& is_set_to(e.stale_delivery_lock_secs, n) && i64::MIN <= n <= i64::MAX
                ==> c.stale_delivery_lock_secs == n
            &&& is_set_to(e.worker_drain_timeout_secs, n) && 0 <= n <= u64::MAX
                ==> c.worker_drain_timeout_secs == n
        }),
{
    let e = environment;
    if is_set_to(e.database_max_connections, n) && 0 <= n <= u32::MAX {
        written_number_is_set(
            "DATABASE_MAX_CONNECTIONS"@,
            e.database_max_connections,
            n,
            5,
            0,
            u32::MAX as int,
        );
    }
    if is_set_to(e.resend_signature_tolerance_secs, n) {
        written_number_is_set(
            "RESEND_SIGNATURE_TOLERANCE_SECS"@,
            e.resend_signature_tolerance_secs,
            n,
            300,
            i64::MIN as int,
            i64::MAX as int,
        );
    }
    if is_set_to(e.delivery_workers, n) && 0 <= n {
        written_number_is_set("DELIVERY_WORKERS"@, e.delivery_workers, n, 2, 0, usize::MAX as int);
    }
    if is_set_to(e.delivery_claim_limit, n) {
        written_number_is_set(
            "DELIVERY_CLAIM_LIMIT"@,
            e.delivery_claim_limit,
            n,
            5,
            i64::MIN as int,
            i64::MAX as int,
        );
    }
    if is_set_to(e.delivery_timeout_secs, n) && 0 <= n {
        written_number_is_set(
            "DELIVERY_TIMEOUT_SECS"@,
            e.delivery_timeout_secs,
            n,
            20,
            0,
            u64::MAX as int,
        );
    }
    if is_set_to(e.retry_window_secs, n) && 0 <= n {
        written_number_is_set(
            "RETRY_WINDOW_SECS"@,
            e.retry_window_secs,
            n,
            259_200,
            0,
            u64::MAX as int,
        );
    }
    if is_set_to(e.warn_after_attempts, n) {
        written_number_is_set(
            "WARN_AFTER_ATTEMPTS"@,
            e.warn_after_attempts,
            n,
            10,
            i32::MIN as int,
            i32::MAX as int,
        );
    }
    if is_set_to(e.stale_delivery_lock_secs, n) {
        written_number_is_set(
            "STALE_DELIVERY_LOCK_SECS"@,
            e.stale_delivery_lock_secs,
            n,
            300,
            i64::MIN as int,
            i64::MAX as int,
        );
    }
    if is_set_to(e.worker_drain_timeout_secs, n) && 0 <= n {
        written_number_is_set(
            "WORKER_DRAIN_TIMEOUT_SECS"@,
            e.worker_drain_timeout_secs,
            n,
            30,
            0,
            u64::MAX as int,
        );
    }
}

/// Whether a variable is not set, or set to white space only.
pub open spec fn is_unset(value: Option<String>) -> bool {
    value is None || is_white(value->Some_0@)
}

/// Settings that are not set, or blank, have their defaults; texts that are set are taken as they
/// are; the address is that of the bind variable, or all addresses at the port, or at port 3000.
pub proof fn other_settings_are_as_set(
    environment: Environment,
    destinations: Result<Vec<DestinationConfig>, String>,
)
    ensures
        ({
            let e = environment;
            let c = e.settings(destinations);
            &&& is_unset(e.database_max_connections) ==> c.database_max_connections == 5
            &&& is_unset(e.resend_signature_tolerance_secs) ==> c.resend_signature_tolerance_secs
                == 300
            &&& is_unset(e.delivery_workers) ==> c.delivery_worker_count == 2
            &&& is_unset(e.delivery_claim_limit) ==> c.delivery_claim_limit == 5
            &&& is_unset(e.delivery_timeout_secs) ==> c.delivery_timeout_secs == 20
            &&& is_unset(e.retry_window_secs) ==> c.retry_window_secs == 3 * 24 * 60 * 60
            &&& is_unset(e.warn_after_attempts) ==> c.warn_after_attempts == 10
            &&& is_unset(e.stale_delivery_lock_secs) ==> c.stale_delivery_lock_secs == 300
            &&& is_unset(e.worker_drain_timeout_secs) ==> c.worker_drain_timeout_secs == 30
            &&& e.database_url is Some ==> c.database_url == e.database_url->Some_0@
            &&& e.resend_webhook_secret is Some ==> c.resend_webhook_secret
                == e.resend_webhook_secret->Some_0@
            &&& e.router_signing_secret is Some ==> c.router_signing_secret
                == e.router_signing_secret->Some_0@
            &&& !is_unset(e.server_bind) ==> c.server_bind == e.server_bind->Some_0@
            &&& is_unset(e.server_bind) && !is_unset(e.port) ==> c.server_bind == "0.0.0.0:"@
                + e.port->Some_0@
            &&& is_unset(e.server_bind) && is_unset(e.port) ==> c.server_bind == "0.0.0.0:"@
                + "3000"@
            &&& destinations is Ok ==> c.destinations.len() == destinations->Ok_0@.len()
            &&& forall|i: int|
                destinations is Ok && 0 <= i < destinations->Ok_0@.len()
                    ==> #[trigger] c.destinations[i] == destinations->Ok_0@[i]@
            &&& e.destinations_text() == (if is_unset(e.destinations_json) {
                None
            } else {
                Some(e.destinations_json->Some_0@)
            })
        }),
{
    let e = environment;
    lemma_filled(e.database_max_connections);
    lemma_filled(e.resend_signature_tolerance_secs);
    lemma_filled(e.delivery_workers);
    lemma_filled(e.delivery_claim_limit);
    lemma_filled(e.delivery_timeout_secs);
    lemma_filled(e.retry_window_secs);
    lemma_filled(e.warn_after_attempts);
    lemma_filled(e.stale_delivery_lock_secs);
    lemma_filled(e.worker_drain_timeout_secs);
    lemma_filled(e.server_bind);
    lemma_filled(e.port);
    lemma_filled(e.destinations_json);
}

proof fn lemma_filled(value: Option<String>)
    ensures
        filled(value) == (if is_unset(value) {
            None
        } else {
            Some(value->Some_0@)
        }),
{
    if value is Some {
        blank_is_white_space_only(value->Some_0@);
    }
}

/// Whether a variable for a number can be read.
pub open spec fn is_readable(value: Option<String>, min: int, max: int) -> bool {
    is_unset(value) || int_value(value->Some_0@, min, max) is Ok
}

/// Settings can be read where, and only where, the database, both secrets and the destinations are
/// set, the address and the destinations could be read, and every number that is set is one of
/// its range.
pub proof fn settings_are_readable_or_refused(
    environment: Environment,
    bind: Result<(), String>,
    destinations: Result<Vec<DestinationConfig>, String>,
)
    ensures
        ({
            let e = environment;
            e.error(bind, destinations) is None <==> {
                &&& e.database_url is Some
                &&& e.resend_webhook_secret is Some
                &&& e.router_signing_secret is Some
                &&& !is_unset(e.destinations_json)
                &&& bind is Ok
                &&& destinations is Ok
                &&& is_readable(e.database_max_connections, 0, u32::MAX as int)
                &&& is_readable(
                    e.resend_signature_tolerance_secs,
                    i64::MIN as int,
                    i64::MAX as int,
                )
                &&& is_readable(e.delivery_workers, 0, usize::MAX as int)
                &&& is_readable(e.delivery_claim_limit, i64::MIN as int, i64::MAX as int)
                &&& is_readable(e.delivery_timeout_secs, 0, u64::MAX as int)
                &&& is_readable(e.retry_window_secs, 0, u64::MAX as int)
                &&& is_readable(e.warn_after_attempts, i32::MIN as int, i32::MAX as int)
                &&& is_readable(e.stale_delivery_lock_secs, i64::MIN as int, i64::MAX as int)
                &&& is_readable(e.worker_drain_timeout_secs, 0, u64::MAX as int)
            }
        }),
{
    let e = environment;
    lemma_filled(e.database_max_connections);
    lemma_filled(e.resend_signature_tolerance_secs);
    lemma_filled(e.delivery_workers);
    lemma_filled(e.delivery_claim_limit);
    lemma_filled(e.delivery_timeout_secs);
    lemma_filled(e.retry_window_secs);
    lemma_filled(e.warn_after_attempts);
    lemma_filled(e.stale_delivery_lock_secs);
    lemma_filled(e.worker_drain_timeout_secs);
    lemma_filled(e.destinations_json);
}

/// Settings are accepted where, and only where, there is a destination, the signing secret has 32
/// bytes, each number is positive, no more than 100 deliveries are claimed at once, and locks
/// outlast requests by more than five seconds.
pub proof fn settings_are_accepted_by_their_numbers(c: ConfigView)
    requires
        c.delivery_timeout_secs <= i64::MAX,
    ensures
        settings_error(c) is None <==> {
            &&& c.destinations.len() > 0
            &&& encode_utf8(c.router_signing_secret).len() >= 32
            &&& c.delivery_worker_count > 0
            &&& c.database_max_connections > 0
            &&& 1 <= c.delivery_claim_limit <= 100
            &&& c.delivery_timeout_secs > 0
            &&& c.retry_window_secs > 0
            &&& c.resend_signature_tolerance_secs > 0
            &&& c.warn_after_attempts > 0
            &&& c.stale_delivery_lock_secs > c.delivery_timeout_secs + 5
            &&& c.worker_drain_timeout_secs > 0
        },
{
}

/// Whether the character is an ASCII letter or digit, a dash, an underscore or a dot.
pub open spec fn may_be_in_a_name(c: char) -> bool {
    ('a' <= c && c <= 'z') || ('A' <= c && c <= 'Z') || ('0' <= c && c <= '9') || c == '-' || c
        == '_' || c == '.'
}

/// A destination is accepted where, and only where, its name is not empty and made of the
/// characters for names, its URL is one of HTTP or HTTPS, it asks for something or takes all, and
/// what it asks for is not blank.
pub proof fn destination_is_accepted_by_its_parts(
    d: DestinationView,
    scheme: Result<Seq<char>, Seq<char>>,
)
    ensures
        destination_error(d, scheme) is None <==> {
            &&& d.name.len() > 0
            &&& forall|i: int| 0 <= i < d.name.len() ==> may_be_in_a_name(#[trigger] d.name[i])
            &&& scheme == Ok::<Seq<char>, Seq<char>>("http"@) || scheme == Ok::<
                Seq<char>,
                Seq<char>,
            >("https"@)
            &&& d.catch_all || d.from_domains.len() > 0 || d.to_domains.len() > 0
                || d.event_types.len() > 0
            &&& forall|i: int|
                0 <= i < d.from_domains.len() ==> normalized_domain(#[trigger] d.from_domains[i])
                    is Some
            &&& forall|i: int|
                0 <= i < d.to_domains.len() ==> normalized_domain(#[trigger] d.to_domains[i])
                    is Some
            &&& forall|i: int|
                0 <= i < d.event_types.len() ==> !is_white(#[trigger] d.event_types[i])
        },
{
    blank_is_white_space_only(d.name);
    if d.name.len() > 0 && forall|i: int|
        0 <= i < d.name.len() ==> may_be_in_a_name(#[trigger] d.name[i]) {
        assert(may_be_in_a_name(d.name[0]));
        assert(!is_space(d.name[0]));
    }
    assert forall|i: int| 0 <= i < d.event_types.len() implies is_blank(
        #[trigger] d.event_types[i],
    ) == is_white(d.event_types[i]) by {
        blank_is_white_space_only(d.event_types[i]);
    }
    assert forall|i: int| 0 <= i < d.from_domains.len() implies is_blank_domain(
        #[trigger] d.from_domains[i],
    ) == (normalized_domain(d.from_domains[i]) is None) by {}
    assert forall|i: int| 0 <= i < d.to_domains.len() implies is_blank_domain(
        #[trigger] d.to_domains[i],
    ) == (normalized_domain(d.to_domains[i]) is None) by {}
    assert forall|i: int| 0 <= i < d.name.len() implies crate::config::is_name_char(
        #[trigger] d.name[i],
    ) == may_be_in_a_name(d.name[i]) by {}
}

/// What is said of a destination that is refused names it.
pub proof fn refused_destination_is_named(
    d: DestinationView,
    scheme: Result<Seq<char>, Seq<char>>,
)
    requires
        destination_error(d, scheme) is Some,
        !is_white(d.name),
    ensures
        ({
            let start = "destination `"@ + d.name;
            let words = destination_error(d, scheme)->Some_0;
            words.len() > start.len() && words.take(start.len() as int) == start
        }),
{
    blank_is_white_space_only(d.name);
    let start = "destination `"@ + d.name;
    let words = destination_error(d, scheme)->Some_0;
    reveal_strlit("` name may only contain ASCII letters, numbers, dots, dashes, and underscores");
    reveal_strlit("` has invalid url: ");
    reveal_strlit("` uses unsupported url scheme `");
    reveal_strlit("` needs at least one match criterion or catch_all=true");
    reveal_strlit("` has an empty ");
    reveal_strlit("` has an empty event type");
    assert(words.take(start.len() as int) =~= start);
}

/// Accepted settings have accepted destinations only, with names that differ from each other.
pub proof fn accepted_destinations_differ_in_name(
    c: ConfigView,
    schemes: Seq<Result<Seq<char>, Seq<char>>>,
)
    ensures
        config_error(c, schemes) is None <==> {
            &&& settings_error(c) is None
            &&& forall|i: int|
                0 <= i < c.destinations.len() ==> destination_error(
                    #[trigger] c.destinations[i],
                    schemes[i],
                ) is None
            &&& forall|i: int, j: int|
                0 <= i < c.destinations.len() && 0 <= j < c.destinations.len() && i != j ==> (
                #[trigger] c.destinations[i]).name != (#[trigger] c.destinations[j]).name
        },
{
    crate::config::accepted_config_is_valid(c, schemes);
}

/// A number of seconds above the signed range wraps once; the others stay.
pub proof fn seconds_wrap_once(n: u64)
    ensures
        n <= i64::MAX ==> signed(n) == n,
        n > i64::MAX ==> signed(n) == n - 0x1_0000_0000_0000_0000,
        i64::MIN <= signed(n) <= i64::MAX,
{
}

/// A refused destination is told the first of its rules that it breaks, with the name, the words
/// of the URL's error, its scheme or the name of the list in full.
pub proof fn refused_destination_is_told_why(
    d: DestinationView,
    scheme: Result<Seq<char>, Seq<char>>,
)
    ensures
        ({
            let error = destination_error(d, scheme);
            let start = "destination `"@ + d.name;
            let named = !is_white(d.name) && forall|i: int|
                0 <= i < d.name.len() ==> may_be_in_a_name(#[trigger] d.name[i]);
            let http = scheme == Ok::<Seq<char>, Seq<char>>("http"@) || scheme == Ok::<
                Seq<char>,
                Seq<char>,
            >("https"@);
            let asks = d.catch_all || d.from_domains.len() > 0 || d.to_domains.len() > 0
                || d.event_types.len() > 0;
            let sent = forall|i: int|
                0 <= i < d.from_domains.len() ==> normalized_domain(#[trigger] d.from_domains[i])
                    is Some;
            let got = forall|i: int|
                0 <= i < d.to_domains.len() ==> normalized_domain(#[trigger] d.to_domains[i])
                    is Some;
            &&& is_white(d.name) ==> error == Some("destination name cannot be empty"@)
            &&& !is_white(d.name) && !named ==> error == Some(
                start
                    + "` name may only contain ASCII letters, numbers, dots, dashes, and underscores"@,
            )
            &&& named && scheme is Err ==> error == Some(
                start + "` has invalid url: "@ + scheme->Err_0,
            )
            &&& named && scheme is Ok && !http ==> error == Some(
                start + "` uses unsupported url scheme `"@ + scheme->Ok_0 + "`"@,
            )
            &&& named && http && !asks ==> error == Some(
                start + "` needs at least one match criterion or catch_all=true"@,
            )
            &&& named && http && asks && !sent ==> error == Some(
                start + "` has an empty "@ + "from_domains"@ + " entry"@,
            )
            &&& named && http && asks && sent && !got ==> error == Some(
                start + "` has an empty "@ + "to_domains"@ + " entry"@,
            )
            &&& named && http && asks && sent && got && error is Some ==> error == Some(
                start + "` has an empty event type"@,
            )
        }),
{
    blank_is_white_space_only(d.name);
    assert forall|i: int| 0 <= i < d.from_domains.len() implies is_blank_domain(
        #[trigger] d.from_domains[i],
    ) == (normalized_domain(d.from_domains[i]) is None) by {}
    assert forall|i: int| 0 <= i < d.to_domains.len() implies is_blank_domain(
        #[trigger] d.to_domains[i],
    ) == (normalized_domain(d.to_domains[i]) is None) by {}
    assert forall|i: int| 0 <= i < d.name.len() implies crate::config::is_name_char(
        #[trigger] d.name[i],
    ) == may_be_in_a_name(d.name[i]) by {}
}

/// A check reports an error where, and only where, there is one, and in its words.
pub proof fn checks_report_what_they_find(r: AppResult<()>, error: Option<Seq<char>>)
    ensures
        reports(r, error) ==> (r is Err <==> error is Some),
        reports(r, error) && r is Err ==> r->Err_0@ == ErrorView::Config(error->Some_0),
        refuses(r, error) ==> (r is Err <==> error is Some),
        refuses(r, error) && r is Err ==> r->Err_0@ == ErrorView::Signature(error->Some_0),
{
}

/// The URL of each destination is looked at, and no other.
pub proof fn each_url_is_read(destinations: Seq<DestinationView>, i: int)
    requires
        0 <= i < destinations.len(),
    ensures
        url_schemes(destinations).len() == destinations.len(),
        url_schemes(destinations)[i] == url_scheme(destinations[i].url),
{
}

/// An address or destinations that cannot be read are reported under the name of their variable,
/// in the words of what could not read them; so are variables that are not set.
pub proof fn unreadable_settings_say_why(
    environment: Environment,
    words: String,
    key: Seq<char>,
    value: Option<String>,
)
    ensures
        ({
            let e = environment;
            &&& !is_unset(e.server_bind) ==> e.bind_error(Err(words)) == Some(
                "invalid SERVER_BIND: "@ + words@,
            )
            &&& is_unset(e.server_bind) ==> e.bind_error(Err(words)) == Some(
                "invalid PORT: "@ + words@,
            )
            &&& e.bind_error(Ok(())) is None
            &&& !is_unset(e.destinations_json) ==> e.destinations_error(Err(words)) == Some(
                "invalid DESTINATIONS_JSON: "@ + words@,
            )
            &&& is_unset(e.destinations_json) ==> e.destinations_error(Err(words)) == Some(
                "missing DESTINATIONS_JSON"@,
            )
            &&& unset(key, None) == Some("missing required env var "@ + key)
            &&& value is Some ==> unset(key, value) is None
        }),
{
    lemma_filled(environment.server_bind);
    lemma_filled(environment.destinations_json);
}

/// The first setting that cannot be read is the one that is reported: the database, its
/// connections, the address, the webhook secret, the tolerance, the signing secret, the
/// destinations, then the numbers of the workers.
pub proof fn first_unreadable_setting_is_reported(
    environment: Environment,
    bind: Result<(), String>,
    destinations: Result<Vec<DestinationConfig>, String>,
)
    ensures
        ({
            let e = environment;
            let error = e.error(bind, destinations);
            let url = e.database_url is Some;
            let pool = url && is_readable(e.database_max_connections, 0, u32::MAX as int);
            let address = pool && bind is Ok;
            let secret = address && e.resend_webhook_secret is Some;
            let tolerance = secret && is_readable(
                e.resend_signature_tolerance_secs,
                i64::MIN as int,
                i64::MAX as int,
            );
            let signing = tolerance && e.router_signing_secret is Some;
            &&& !url ==> error == Some("missing required env var "@ + "DATABASE_URL"@)
            &&& url && !pool ==> error == Some(e.max_connections()->Err_0)
            &&& pool && !address ==> error == e.bind_error(bind)
            &&& address && !secret ==> error == Some(
                "missing required env var "@ + "RESEND_WEBHOOK_SECRET"@,
            )
            &&& secret && !tolerance ==> error == Some(e.tolerance()->Err_0)
            &&& tolerance && !signing ==> error == Some(
                "missing required env var "@ + "ROUTER_SIGNING_SECRET"@,
            )
            &&& signing && e.destinations_error(destinations) is Some ==> error
                == e.destinations_error(destinations)
        }),
{
    lemma_filled(environment.database_max_connections);
    lemma_filled(environment.resend_signature_tolerance_secs);
}

/// A number that cannot be read is reported under the name of its variable.
pub proof fn unreadable_number_is_named(
    key: Seq<char>,
    value: Option<String>,
    default: int,
    min: int,
    max: int,
)
    requires
        !is_readable(value, min, max),
    ensures
        number_setting(key, value, default, min, max) == Err::<int, Seq<char>>(
            "invalid "@ + key + ": "@ + int_value(value->Some_0@, min, max)->Err_0.text(),
        ),
{
    lemma_filled(value);
}

/// Settings are told the first of their rules that they break.
pub proof fn refused_settings_are_told_why(c: ConfigView)
    ensures
        ({
            let error = settings_error(c);
            let a = c.destinations.len() > 0;
            let b = a && encode_utf8(c.router_signing_secret).len() >= 32;
            let d = b && c.delivery_worker_count > 0;
            let e = d && c.database_max_connections > 0;
            let f = e && c.delivery_claim_limit > 0;
            let g = f && c.delivery_claim_limit <= 100;
            let h = g && c.delivery_timeout_secs > 0;
            let i = h && c.retry_window_secs > 0;
            let j = i && c.resend_signature_tolerance_secs > 0;
            let k = j && c.warn_after_attempts > 0;
            let l = k && c.stale_delivery_lock_secs > 0;
            let m = l && c.stale_delivery_lock_secs > signed(c.delivery_timeout_secs) + 5;
            &&& !a ==> error == Some("DESTINATIONS_JSON must contain at least one destination"@)
            &&& a && !b ==> error == Some("ROUTER_SIGNING_SECRET should be at least 32 characters"@)
            &&& b && !d ==> error == Some("DELIVERY_WORKERS must be greater than zero"@)
            &&& d && !e ==> error == Some("DATABASE_MAX_CONNECTIONS must be greater than zero"@)
            &&& e && !f ==> error == Some("DELIVERY_CLAIM_LIMIT must be greater than zero"@)
            &&& f && !g ==> error == Some("DELIVERY_CLAIM_LIMIT must be 100 or lower"@)
            &&& g && !h ==> error == Some("DELIVERY_TIMEOUT_SECS must be greater than zero"@)
            &&& h && !i ==> error == Some("RETRY_WINDOW_SECS must be greater than zero"@)
            &&& i && !j ==> error == Some("RESEND_SIGNATURE_TOLERANCE_SECS must be positive"@)
            &&& j && !k ==> error == Some("WARN_AFTER_ATTEMPTS must be positive"@)
            &&& k && !l ==> error == Some("STALE_DELIVERY_LOCK_SECS must be positive"@)
            &&& l && !m ==> error == Some(
                "STALE_DELIVERY_LOCK_SECS must be at least DELIVERY_TIMEOUT_SECS + 5"@,
            )
            &&& m && error is Some ==> error == Some("WORKER_DRAIN_TIMEOUT_SECS must be positive"@)
            &&& m && c.worker_drain_timeout_secs == 0 ==> error is Some
        }),
{
}

} // verus!
