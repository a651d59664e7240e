//! The settings of the router and of its destinations.

use crate::error::{AppError, AppResult, ErrorView};
use crate::instant::later;
use crate::router::normalized_domain;
use crate::text::{
    chars_of, copied_texts, same, texts, trim, trim_end, trim_start, trimmed, trimmed_end,
    trimmed_start, CharClass,
};
use url::Url;
use vstd::prelude::*;
use vstd::string::StringExecFns;
use vstd::utf8::encode_utf8;

verus! {

/// A receiver of webhooks, and which webhooks it gets.
#[derive(Debug, PartialEq, Eq)]
pub struct DestinationConfig {
    pub name: String,
    pub url: String,
    pub from_domains: Vec<String>,
    pub to_domains: Vec<String>,
    pub event_types: Vec<String>,
    pub catch_all: bool,
}

/// A destination as mathematics sees it.
pub struct DestinationView {
    pub name: Seq<char>,
    pub url: Seq<char>,
    pub from_domains: Seq<Seq<char>>,
    pub to_domains: Seq<Seq<char>>,
    pub event_types: Seq<Seq<char>>,
    pub catch_all: bool,
}

impl View for DestinationConfig {
    type V = DestinationView;

    open spec fn view(&self) -> DestinationView {
        DestinationView {
            name: self.name@,
            url: self.url@,
            from_domains: texts(self.from_domains@),
            to_domains: texts(self.to_domains@),
            event_types: texts(self.event_types@),
            catch_all: self.catch_all,
        }
    }
}

impl Clone for DestinationConfig {
    fn clone(&self) -> (r: Self)
        ensures
            r@ == self@,
    {
        DestinationConfig {
            name: self.name.clone(),
            url: self.url.clone(),
            from_domains: copied_texts(&self.from_domains),
            to_domains: copied_texts(&self.to_domains),
            event_types: copied_texts(&self.event_types),
            catch_all: self.catch_all,
        }
    }
}

/// What the destinations of a list are.
pub open spec fn destination_views(list: Seq<DestinationConfig>) -> Seq<DestinationView> {
    Seq::new(list.len(), |i: int| list[i]@)
}

/// A copy of a list of destinations.
pub fn copied_destinations(list: &Vec<DestinationConfig>) -> (r: Vec<DestinationConfig>)
    ensures
        destination_views(r@) == destination_views(list@),
{
    let mut copy: Vec<DestinationConfig> = Vec::new();
    let mut i: usize = 0;
    while i < list.len()
        invariant
            i <= list@.len(),
            copy@.len() == i,
            forall|j: int| 0 <= j < i ==> (#[trigger] copy@[j])@ == list@[j]@,
        decreases list@.len() - i,
    {
        copy.push(list[i].clone());
        i += 1;
    }
    assert(destination_views(copy@) =~= destination_views(list@));
    copy
}

/// What `Url::parse` makes of a text: the scheme of the URL, or the words of its error.
pub uninterp spec fn url_scheme(url: Seq<char>) -> Result<Seq<char>, Seq<char>>;

/// What a result of texts says.
pub open spec fn scheme_view(scheme: Result<String, String>) -> Result<Seq<char>, Seq<char>> {
    match scheme {
        Ok(scheme) => Ok(scheme@),
        Err(words) => Err(words@),
    }
}

/// Calls `url::Url::parse` and hands out the scheme of the URL, or the words of the error. Only
/// that both depend on the text alone is claimed.
#[verifier::external_body]
fn parsed_scheme(url: &str) -> (r: Result<String, String>)
    ensures
        scheme_view(r) == url_scheme(url@),
{
    match Url::parse(url) {
        Ok(url) => Ok(url.scheme().to_string()),
        Err(error) => Err(error.to_string()),
    }
}

/// Whether a destination's name may hold the character.
pub open spec fn is_name_char(c: char) -> bool {
    ||| 'a' <= c <= 'z'
    ||| 'A' <= c <= 'Z'
    ||| '0' <= c <= '9'
    ||| c == '-'
    ||| c == '_'
    ||| c == '.'
}

/// Whether the destination has a rule by which it gets webhooks.
pub open spec fn has_criteria(d: DestinationView) -> bool {
    ||| d.catch_all
    ||| d.from_domains.len() > 0
    ||| d.to_domains.len() > 0
    ||| d.event_types.len() > 0
}

/// The domain without the white space, the leading `@` and the trailing dots around it.
pub open spec fn bare_domain(domain: Seq<char>) -> Seq<char> {
    trim_end(
        trim_start(trim(domain, CharClass::Space), CharClass::Only('@')),
        CharClass::Only('.'),
    )
}

/// Whether nothing of the domain is left.
pub open spec fn is_blank_domain(domain: Seq<char>) -> bool {
    bare_domain(domain).len() == 0
}

/// Whether the text is white space only.
pub open spec fn is_blank(text: Seq<char>) -> bool {
    trim(text, CharClass::Space).len() == 0
}

/// A message about the destination of that name.
pub open spec fn about(name: Seq<char>, rest: Seq<char>) -> Seq<char> {
    "destination `"@ + name + rest
}

/// The message for the first rule that the destination breaks.
pub open spec fn destination_error(
    d: DestinationView,
    scheme: Result<Seq<char>, Seq<char>>,
) -> Option<Seq<char>> {
    if is_blank(d.name) {
        Some("destination name cannot be empty"@)
    } else if exists|i: int| 0 <= i < d.name.len() && !is_name_char(#[trigger] d.name[i]) {
        Some(
            about(
                d.name,
                "` name may only contain ASCII letters, numbers, dots, dashes, and underscores"@,
            ),
        )
    } else if scheme is Err {
        Some(about(d.name, "` has invalid url: "@) + scheme->Err_0)
    } else if scheme->Ok_0 != "http"@ && scheme->Ok_0 != "https"@ {
        Some(about(d.name, "` uses unsupported url scheme `"@) + scheme->Ok_0 + "`"@)
    } else if !has_criteria(d) {
        Some(about(d.name, "` needs at least one match criterion or catch_all=true"@))
    } else if exists|i: int|
        0 <= i < d.from_domains.len() && is_blank_domain(#[trigger] d.from_domains[i]) {
        Some(empty_entry(d.name, "from_domains"@))
    } else if exists|i: int|
        0 <= i < d.to_domains.len() && is_blank_domain(#[trigger] d.to_domains[i]) {
        Some(empty_entry(d.name, "to_domains"@))
    } else if exists|i: int| 0 <= i < d.event_types.len() && is_blank(#[trigger] d.event_types[i]) {
        Some(about(d.name, "` has an empty event type"@))
    } else {
        None
    }
}

/// The message for a blank domain in a list.
pub open spec fn empty_entry(name: Seq<char>, field: Seq<char>) -> Seq<char> {
    about(name, "` has an empty "@) + field + " entry"@
}

/// What a check has found: nothing, or the message of a configuration error.
pub open spec fn reports(r: AppResult<()>, error: Option<Seq<char>>) -> bool {
    match r {
        Ok(_) => error is None,
        Err(e) => error is Some && e@ == ErrorView::Config(error->Some_0),
    }
}

fn about_destination(name: &str, rest: &str) -> (r: String)
    ensures
        r@ == about(name@, rest@),
{
    "destination `".to_owned().concat(name).concat(rest)
}

fn blank(text: &str) -> (r: bool)
    ensures
        r == is_blank(text@),
{
    let chars: Vec<char> = chars_of(text);
    trimmed(chars.as_slice(), CharClass::Space).len() == 0
}

fn any_blank(list: &Vec<String>) -> (r: bool)
    ensures
        r == (exists|i: int| 0 <= i < list@.len() && is_blank(#[trigger] texts(list@)[i])),
{
    let mut i: usize = 0;
    while i < list.len()
        invariant
            i <= list@.len(),
            forall|j: int| 0 <= j < i ==> !is_blank(#[trigger] texts(list@)[j]),
        decreases list@.len() - i,
    {
        if blank(list[i].as_str()) {
            assert(is_blank(texts(list@)[i as int]));
            return true;
        }
        i += 1;
    }
    false
}

fn named_well(name: &str) -> (r: bool)
    ensures
        r == (forall|i: int| 0 <= i < name@.len() ==> is_name_char(#[trigger] name@[i])),
{
    let chars: Vec<char> = chars_of(name);
    let mut i: usize = 0;
    while i < chars.len()
        invariant
            i <= chars@.len(),
            chars@ == name@,
            forall|j: int| 0 <= j < i ==> is_name_char(#[trigger] chars@[j]),
        decreases chars@.len() - i,
    {
        let c: char = chars[i];
        let fits: bool = ('a' <= c && c <= 'z') || ('A' <= c && c <= 'Z') || ('0' <= c && c <= '9')
            || c == '-' || c == '_' || c == '.';
        if !fits {
            assert(!is_name_char(name@[i as int]));
            return false;
        }
        i += 1;
    }
    true
}

/// Whether the domains of a list can be used: none is blank, which is to say that each has a form
/// by which events are compared.
pub fn validate_domains(destination_name: &str, field: &str, domains: &Vec<String>) -> (r:
    AppResult<()>)
    ensures
        r is Ok <==> forall|i: int|
            0 <= i < domains@.len() ==> normalized_domain(#[trigger] texts(domains@)[i]) is Some,
        reports(
            r,
            if exists|i: int|
                0 <= i < domains@.len() && is_blank_domain(#[trigger] texts(domains@)[i]) {
                Some(empty_entry(destination_name@, field@))
            } else {
                None
            },
        ),
{
    let mut i: usize = 0;
    while i < domains.len()
        invariant
            i <= domains@.len(),
            forall|j: int| 0 <= j < i ==> !is_blank_domain(#[trigger] texts(domains@)[j]),
        decreases domains@.len() - i,
    {
        let chars: Vec<char> = chars_of(domains[i].as_str());
        let bare: &[char] = trimmed_end(
            trimmed_start(trimmed(chars.as_slice(), CharClass::Space), CharClass::Only('@')),
            CharClass::Only('.'),
        );
        assert(texts(domains@)[i as int] == chars@);
        if bare.len() == 0 {
            assert(is_blank_domain(texts(domains@)[i as int]));
            return Err(
                AppError::config(
                    about_destination(destination_name, "` has an empty ").concat(field).concat(
                        " entry",
                    ),
                ),
            );
        }
        i += 1;
    }
    Ok(())
}

impl DestinationConfig {
    /// Whether the destination keeps the rules for destinations.
    pub fn validate(&self) -> (r: AppResult<()>)
        ensures
            reports(r, destination_error(self@, url_scheme(self.url@))),
    {
        let scheme = parsed_scheme(self.url.as_str());
        self.validate_with(&scheme)
    }

    /// Whether the destination keeps the rules for destinations, where its URL has been read
    /// already: its scheme, or the words of the error that came of it.
    pub fn validate_with(&self, scheme: &Result<String, String>) -> (r: AppResult<()>)
        ensures
            reports(r, destination_error(self@, scheme_view(*scheme))),
    {
        let name: &str = self.name.as_str();
        if blank(name) {
            return Err(AppError::config("destination name cannot be empty".to_owned()));
        }
        if !named_well(name) {
            return Err(
                AppError::config(
                    about_destination(
                        name,
                        "` name may only contain ASCII letters, numbers, dots, dashes, and underscores",
                    ),
                ),
            );
        }
        match scheme {
            Err(words) => {
                return Err(
                    AppError::config(
                        about_destination(name, "` has invalid url: ").concat(words.as_str()),
                    ),
                );
            },
            Ok(scheme) => {
                if !same(scheme.as_str(), "http") && !same(scheme.as_str(), "https") {
                    return Err(
                        AppError::config(
                            about_destination(name, "` uses unsupported url scheme `").concat(
                                scheme.as_str(),
                            ).concat("`"),
                        ),
                    );
                }
            },
        }
        let has_criteria: bool = self.catch_all || self.from_domains.len() > 0
            || self.to_domains.len() > 0 || self.event_types.len() > 0;
        if !has_criteria {
            return Err(
                AppError::config(
                    about_destination(
                        name,
                        "` needs at least one match criterion or catch_all=true",
                    ),
                ),
            );
        }
        match validate_domains(name, "from_domains", &self.from_domains) {
            Ok(_) => {},
            Err(error) => return Err(error),
        }
        match validate_domains(name, "to_domains", &self.to_domains) {
            Ok(_) => {},
            Err(error) => return Err(error),
        }
        if any_blank(&self.event_types) {
            return Err(AppError::config(about_destination(name, "` has an empty event type")));
        }
        Ok(())
    }
}

/// The settings of the router.
#[derive(Debug)]
pub struct Config {
    pub database_url: String,
    pub database_max_connections: u32,
    pub server_bind: String,
    pub resend_webhook_secret: String,
    pub resend_signature_tolerance_secs: i64,
    pub router_signing_secret: String,
    pub destinations: Vec<DestinationConfig>,
    pub delivery_worker_count: usize,
    pub delivery_claim_limit: i64,
    pub delivery_timeout_secs: u64,
    pub retry_window_secs: u64,
    pub warn_after_attempts: i32,
    pub stale_delivery_lock_secs: i64,
    pub worker_drain_timeout_secs: u64,
}

/// The settings as mathematics sees them.
pub struct ConfigView {
    pub database_url: Seq<char>,
    pub database_max_connections: u32,
    pub server_bind: Seq<char>,
    pub resend_webhook_secret: Seq<char>,
    pub resend_signature_tolerance_secs: i64,
    pub router_signing_secret: Seq<char>,
    pub destinations: Seq<DestinationView>,
    pub delivery_worker_count: usize,
    pub delivery_claim_limit: i64,
    pub delivery_timeout_secs: u64,
    pub retry_window_secs: u64,
    pub warn_after_attempts: i32,
    pub stale_delivery_lock_secs: i64,
    pub worker_drain_timeout_secs: u64,
}

impl View for Config {
    type V = ConfigView;

    open spec fn view(&self) -> ConfigView {
        ConfigView {
            database_url: self.database_url@,
            database_max_connections: self.database_max_connections,
            server_bind: self.server_bind@,
            resend_webhook_secret: self.resend_webhook_secret@,
            resend_signature_tolerance_secs: self.resend_signature_tolerance_secs,
            router_signing_secret: self.router_signing_secret@,
            destinations: destination_views(self.destinations@),
            delivery_worker_count: self.delivery_worker_count,
            delivery_claim_limit: self.delivery_claim_limit,
            delivery_timeout_secs: self.delivery_timeout_secs,
            retry_window_secs: self.retry_window_secs,
            warn_after_attempts: self.warn_after_attempts,
            stale_delivery_lock_secs: self.stale_delivery_lock_secs,
            worker_drain_timeout_secs: self.worker_drain_timeout_secs,
        }
    }
}

impl Clone for Config {
    fn clone(&self) -> (r: Self)
        ensures
            r@ == self@,
    {
        Config {
            database_url: self.database_url.clone(),
            database_max_connections: self.database_max_connections,
            server_bind: self.server_bind.clone(),
            resend_webhook_secret: self.resend_webhook_secret.clone(),
            resend_signature_tolerance_secs: self.resend_signature_tolerance_secs,
            router_signing_secret: self.router_signing_secret.clone(),
            destinations: copied_destinations(&self.destinations),
            delivery_worker_count: self.delivery_worker_count,
            delivery_claim_limit: self.delivery_claim_limit,
            delivery_timeout_secs: self.delivery_timeout_secs,
            retry_window_secs: self.retry_window_secs,
            warn_after_attempts: self.warn_after_attempts,
            stale_delivery_lock_secs: self.stale_delivery_lock_secs,
            worker_drain_timeout_secs: self.worker_drain_timeout_secs,
        }
    }
}

/// The 64 bits of the number, read as a number with a sign.
pub open spec fn signed(n: u64) -> int {
    if n <= i64::MAX {
        n as int
    } else {
        n - 0x1_0000_0000_0000_0000
    }
}

/// The message for the first rule that the settings outside the destinations break.
pub open spec fn settings_error(c: ConfigView) -> Option<Seq<char>> {
    if c.destinations.len() == 0 {
        Some("DESTINATIONS_JSON must contain at least one destination"@)
    } else if encode_utf8(c.router_signing_secret).len() < 32 {
        Some("ROUTER_SIGNING_SECRET should be at least 32 characters"@)
    } else if c.delivery_worker_count == 0 {
        Some("DELIVERY_WORKERS must be greater than zero"@)
    } else if c.database_max_connections == 0 {
        Some("DATABASE_MAX_CONNECTIONS must be greater than zero"@)
    } else if c.delivery_claim_limit <= 0 {
        Some("DELIVERY_CLAIM_LIMIT must be greater than zero"@)
    } else if c.delivery_claim_limit > 100 {
        Some("DELIVERY_CLAIM_LIMIT must be 100 or lower"@)
    } else if c.delivery_timeout_secs == 0 {
        Some("DELIVERY_TIMEOUT_SECS must be greater than zero"@)
    } else if c.retry_window_secs == 0 {
        Some("RETRY_WINDOW_SECS must be greater than zero"@)
    } else if c.resend_signature_tolerance_secs <= 0 {
        Some("RESEND_SIGNATURE_TOLERANCE_SECS must be positive"@)
    } else if c.warn_after_attempts <= 0 {
        Some("WARN_AFTER_ATTEMPTS must be positive"@)
    } else if c.stale_delivery_lock_secs <= 0 {
        Some("STALE_DELIVERY_LOCK_SECS must be positive"@)
    } else if c.stale_delivery_lock_secs <= signed(c.delivery_timeout_secs) + 5 {
        Some("STALE_DELIVERY_LOCK_SECS must be at least DELIVERY_TIMEOUT_SECS + 5"@)
    } else if c.worker_drain_timeout_secs == 0 {
        Some("WORKER_DRAIN_TIMEOUT_SECS must be positive"@)
    } else {
        None
    }
}

/// Whether a destination before the one at `i` has the same name.
pub open spec fn is_duplicate(destinations: Seq<DestinationView>, i: int) -> bool {
    exists|j: int| 0 <= j < i && (#[trigger] destinations[j]).name == destinations[i].name
}

/// The message for the first rule that the destinations from `i` on break.
pub open spec fn destinations_error(
    destinations: Seq<DestinationView>,
    schemes: Seq<Result<Seq<char>, Seq<char>>>,
    i: int,
) -> Option<Seq<char>>
    decreases destinations.len() - i,
{
    if i >= destinations.len() {
        None
    } else if destination_error(destinations[i], schemes[i]) is Some {
        destination_error(destinations[i], schemes[i])
    } else if is_duplicate(destinations, i) {
        Some("duplicate destination name `"@ + destinations[i].name + "`"@)
    } else {
        destinations_error(destinations, schemes, i + 1)
    }
}

/// The message for the first rule that the settings break.
pub open spec fn config_error(
    c: ConfigView,
    schemes: Seq<Result<Seq<char>, Seq<char>>>,
) -> Option<Seq<char>> {
    if settings_error(c) is Some {
        settings_error(c)
    } else {
        destinations_error(c.destinations, schemes, 0)
    }
}

/// What `Url::parse` makes of the URLs of the destinations.
pub open spec fn url_schemes(destinations: Seq<DestinationView>) -> Seq<
    Result<Seq<char>, Seq<char>>,
> {
    Seq::new(destinations.len(), |i: int| url_scheme(destinations[i].url))
}

/// What the results of a list say.
pub open spec fn scheme_views(schemes: Seq<Result<String, String>>) -> Seq<
    Result<Seq<char>, Seq<char>>,
> {
    Seq::new(schemes.len(), |i: int| scheme_view(schemes[i]))
}

impl Config {
    /// How long a webhook is retried, in seconds; a window above the range of `i64` wraps.
    pub fn retry_window(&self) -> (r: i64)
        ensures
            r == signed(self.retry_window_secs),
    {
        signed_secs(self.retry_window_secs) as i64
    }

    /// How long a delivery may take, in seconds.
    pub fn delivery_timeout(&self) -> (r: u64)
        ensures
            r == self.delivery_timeout_secs,
    {
        self.delivery_timeout_secs
    }

    /// How long the workers may take to stop, in seconds.
    pub fn worker_drain_timeout(&self) -> (r: u64)
        ensures
            r == self.worker_drain_timeout_secs,
    {
        self.worker_drain_timeout_secs
    }

    /// Whether the settings keep all rules.
    pub fn validate(&self) -> (r: AppResult<()>)
        ensures
            reports(r, config_error(self@, url_schemes(self@.destinations))),
    {
        let mut schemes: Vec<Result<String, String>> = Vec::new();
        let mut i: usize = 0;
        while i < self.destinations.len()
            invariant
                i <= self.destinations@.len(),
                schemes@.len() == i,
                forall|j: int|
                    0 <= j < i ==> scheme_view(#[trigger] schemes@[j]) == url_scheme(
                        self@.destinations[j].url,
                    ),
            decreases self.destinations@.len() - i,
        {
            schemes.push(parsed_scheme(self.destinations[i].url.as_str()));
            i += 1;
        }
        assert(scheme_views(schemes@) =~= url_schemes(self@.destinations));
        self.validate_with(&schemes)
    }

    /// Whether the settings keep all rules, where the URLs of the destinations have been read
    /// already: for each its scheme, or the words of the error that came of it.
    pub fn validate_with(&self, schemes: &Vec<Result<String, String>>) -> (r: AppResult<()>)
        requires
            schemes@.len() == self.destinations@.len(),
        ensures
            reports(r, config_error(self@, scheme_views(schemes@))),
    {
        if self.destinations.len() == 0 {
            return Err(
                AppError::config(
                    "DESTINATIONS_JSON must contain at least one destination".to_owned(),
                ),
            );
        }
        if self.router_signing_secret.as_str().as_bytes().len() < 32 {
            return Err(
                AppError::config(
                    "ROUTER_SIGNING_SECRET should be at least 32 characters".to_owned(),
                ),
            );
        }
        if self.delivery_worker_count == 0 {
            return Err(
                AppError::config("DELIVERY_WORKERS must be greater than zero".to_owned()),
            );
        }
        if self.database_max_connections == 0 {
            return Err(
                AppError::config("DATABASE_MAX_CONNECTIONS must be greater than zero".to_owned()),
            );
        }
        if self.delivery_claim_limit <= 0 {
            return Err(
                AppError::config("DELIVERY_CLAIM_LIMIT must be greater than zero".to_owned()),
            );
        }
        if self.delivery_claim_limit > 100 {
            return Err(AppError::config("DELIVERY_CLAIM_LIMIT must be 100 or lower".to_owned()));
        }
        if self.delivery_timeout_secs == 0 {
            return Err(
                AppError::config("DELIVERY_TIMEOUT_SECS must be greater than zero".to_owned()),
            );
        }
        if self.retry_window_secs == 0 {
            return Err(AppError::config("RETRY_WINDOW_SECS must be greater than zero".to_owned()));
        }
        if self.resend_signature_tolerance_secs <= 0 {
            return Err(
                AppError::config("RESEND_SIGNATURE_TOLERANCE_SECS must be positive".to_owned()),
            );
        }
        if self.warn_after_attempts <= 0 {
            return Err(AppError::config("WARN_AFTER_ATTEMPTS must be positive".to_owned()));
        }
        if self.stale_delivery_lock_secs <= 0 {
            return Err(AppError::config("STALE_DELIVERY_LOCK_SECS must be positive".to_owned()));
        }
        if self.stale_delivery_lock_secs as i128 <= signed_secs(self.delivery_timeout_secs) + 5 {
            return Err(
                AppError::config(
                    "STALE_DELIVERY_LOCK_SECS must be at least DELIVERY_TIMEOUT_SECS + 5".to_owned(),
                ),
            );
        }
        if self.worker_drain_timeout_secs == 0 {
            return Err(AppError::config("WORKER_DRAIN_TIMEOUT_SECS must be positive".to_owned()));
        }
        validate_destinations(&self.destinations, schemes)
    }
}

fn signed_secs(n: u64) -> (r: i128)
    ensures
        r == signed(n),
        i64::MIN <= r <= i64::MAX,
{
    if n <= i64::MAX as u64 {
        n as i128
    } else {
        n as i128 - 0x1_0000_0000_0000_0000
    }
}

fn validate_destinations(
    destinations: &Vec<DestinationConfig>,
    schemes: &Vec<Result<String, String>>,
) -> (r: AppResult<()>)
    requires
        schemes@.len() == destinations@.len(),
    ensures
        reports(
            r,
            destinations_error(destination_views(destinations@), scheme_views(schemes@), 0),
        ),
{
    let ghost views = destination_views(destinations@);
    let ghost urls = scheme_views(schemes@);
    let mut i: usize = 0;
    while i < destinations.len()
        invariant
            i <= destinations@.len(),
            schemes@.len() == destinations@.len(),
            views == destination_views(destinations@),
            urls == scheme_views(schemes@),
            destinations_error(views, urls, i as int) == destinations_error(views, urls, 0),
        decreases destinations@.len() - i,
    {
        match destinations[i].validate_with(&schemes[i]) {
            Ok(_) => {},
            Err(error) => return Err(error),
        }
        let mut j: usize = 0;
        while j < i
            invariant
                j <= i < destinations@.len(),
                views == destination_views(destinations@),
                urls == scheme_views(schemes@),
                destination_error(views[i as int], urls[i as int]) is None,
                destinations_error(views, urls, i as int) == destinations_error(views, urls, 0),
                forall|k: int| 0 <= k < j ==> (#[trigger] views[k]).name != views[i as int].name,
            decreases i - j,
        {
            if destinations[j].name == destinations[i].name {
                assert(views[j as int].name == views[i as int].name);
                return Err(
                    AppError::config(
                        "duplicate destination name `".to_owned().concat(
                            destinations[i].name.as_str(),
                        ).concat("`"),
                    ),
                );
            }
            j += 1;
        }
        i += 1;
    }
    Ok(())
}

/// The settings keep every rule.
pub open spec fn is_valid_config(
    c: ConfigView,
    schemes: Seq<Result<Seq<char>, Seq<char>>>,
) -> bool {
    &&& settings_error(c) is None
    &&& forall|i: int|
        0 <= i < c.destinations.len() ==> destination_error(
            #[trigger] c.destinations[i],
            schemes[i],
        ) is None
    &&& forall|i: int, j: int|
        0 <= i < j < c.destinations.len() ==> (#[trigger] c.destinations[i]).name != (
        #[trigger] c.destinations[j]).name
}

/// Settings are accepted where, and only where, they keep the rules for settings, each of their
/// destinations keeps the rules for destinations, and no two destinations share a name.
pub proof fn accepted_config_is_valid(
    c: ConfigView,
    schemes: Seq<Result<Seq<char>, Seq<char>>>,
)
    ensures
        config_error(c, schemes) is None <==> is_valid_config(c, schemes),
{
    lemma_destinations_error(c.destinations, schemes, 0);
    if settings_error(c) is None {
        if config_error(c, schemes) is None {
            assert forall|i: int, j: int| 0 <= i < j < c.destinations.len() implies (
            #[trigger] c.destinations[i]).name != (#[trigger] c.destinations[j]).name by {
                assert(!is_duplicate(c.destinations, j));
            }
        } else if is_valid_config(c, schemes) {
            let j = choose|j: int|
                0 <= j < c.destinations.len() && (destination_error(
                    #[trigger] c.destinations[j],
                    schemes[j],
                ) is Some || is_duplicate(c.destinations, j));
            assert(!is_duplicate(c.destinations, j));
        }
    }
}

proof fn lemma_destinations_error(
    destinations: Seq<DestinationView>,
    schemes: Seq<Result<Seq<char>, Seq<char>>>,
    i: int,
)
    requires
        0 <= i,
    ensures
        destinations_error(destinations, schemes, i) is None ==> forall|j: int|
            i <= j < destinations.len() ==> destination_error(
                #[trigger] destinations[j],
                schemes[j],
            ) is None && !is_duplicate(destinations, j),
        destinations_error(destinations, schemes, i) is Some ==> exists|j: int|
            i <= j < destinations.len() && (destination_error(
                #[trigger] destinations[j],
                schemes[j],
            ) is Some || is_duplicate(destinations, j)),
    decreases destinations.len() - i,
{
    if i < destinations.len() {
        lemma_destinations_error(destinations, schemes, i + 1);
    }
}

/// With accepted settings the lock of a delivery outlasts its longest request by more than five
/// seconds, so that no other worker takes the delivery over while the request is under way.
pub proof fn locks_outlast_deliveries(c: ConfigView)
    requires
        settings_error(c) is None,
        c.delivery_timeout_secs <= i64::MAX,
    ensures
        c.stale_delivery_lock_secs > c.delivery_timeout_secs + 5,
{
}

/// With accepted settings a webhook's deadline comes after the webhook.
pub proof fn deadlines_come_later(c: ConfigView, now: int)
    requires
        settings_error(c) is None,
        c.retry_window_secs <= i64::MAX,
    ensures
        later(now, signed(c.retry_window_secs)) > now,
{
}

} // verus!
