//! The settings of the router, read from the environment of its process.

use crate::config::{
    config_error, copied_destinations, destination_views, is_blank, url_schemes, Config,
    ConfigView, DestinationConfig,
};
use crate::error::{AppError, AppResult, ErrorView};
use crate::number::{int_value, parsed_int};
use crate::text::{chars_of, text_option, trimmed, CharClass};
use vstd::prelude::*;
use vstd::string::StringExecFns;

verus! {

/// The retry window where none is set: three days, in seconds.
pub const THREE_DAYS_SECS: u64 = 259_200;

/// What the environment holds under the names of the router's settings.
#[derive(Debug)]
pub struct Environment {
    pub database_url: Option<String>,
    pub database_max_connections: Option<String>,
    pub server_bind: Option<String>,
    pub port: Option<String>,
    pub resend_webhook_secret: Option<String>,
    pub resend_signature_tolerance_secs: Option<String>,
    pub router_signing_secret: Option<String>,
    pub destinations_json: Option<String>,
    pub delivery_workers: Option<String>,
    pub delivery_claim_limit: Option<String>,
    pub delivery_timeout_secs: Option<String>,
    pub retry_window_secs: Option<String>,
    pub warn_after_attempts: Option<String>,
    pub stale_delivery_lock_secs: Option<String>,
    pub worker_drain_timeout_secs: Option<String>,
}

/// The variable's text, where it is set and not blank.
pub open spec fn filled(value: Option<String>) -> Option<Seq<char>> {
    match value {
        Some(text) => if is_blank(text@) {
            None
        } else {
            Some(text@)
        },
        None => None,
    }
}

/// The number that a variable sets: the default, where it is blank or not set; else what its text
/// writes, or the message about it.
pub open spec fn number_setting(
    key: Seq<char>,
    value: Option<String>,
    default: int,
    min: int,
    max: int,
) -> Result<int, Seq<char>> {
    match filled(value) {
        None => Ok(default),
        Some(text) => match int_value(text, min, max) {
            Ok(number) => Ok(number),
            Err(error) => Err("invalid "@ + key + ": "@ + error.text()),
        },
    }
}

/// The message for a variable that must be set and is not.
pub open spec fn unset(key: Seq<char>, value: Option<String>) -> Option<Seq<char>> {
    if value is None {
        Some("missing required env var "@ + key)
    } else {
        None
    }
}

impl Environment {
    /// The text of the address to listen at: the one that is set, or a port at all addresses.
    pub open spec fn bind_text(self) -> Seq<char> {
        match filled(self.server_bind) {
            Some(text) => text,
            None => "0.0.0.0:"@ + (match filled(self.port) {
                Some(port) => port,
                None => "3000"@,
            }),
        }
    }

    /// The text of the destinations, where it is set and not blank.
    pub open spec fn destinations_text(self) -> Option<Seq<char>> {
        filled(self.destinations_json)
    }

    /// How many connections to the database there may be.
    pub open spec fn max_connections(self) -> Result<int, Seq<char>> {
        number_setting(
            "DATABASE_MAX_CONNECTIONS"@,
            self.database_max_connections,
            5,
            0,
            u32::MAX as int,
        )
    }

    /// How far the timestamp of a webhook may be from the present, in seconds.
    pub open spec fn tolerance(self) -> Result<int, Seq<char>> {
        number_setting(
            "RESEND_SIGNATURE_TOLERANCE_SECS"@,
            self.resend_signature_tolerance_secs,
            300,
            i64::MIN as int,
            i64::MAX as int,
        )
    }

    /// How many workers deliver.
    pub open spec fn workers(self) -> Result<int, Seq<char>> {
        number_setting("DELIVERY_WORKERS"@, self.delivery_workers, 2, 0, usize::MAX as int)
    }

    /// How many deliveries a worker claims at once.
    pub open spec fn claim_limit(self) -> Result<int, Seq<char>> {
        number_setting(
            "DELIVERY_CLAIM_LIMIT"@,
            self.delivery_claim_limit,
            5,
            i64::MIN as int,
            i64::MAX as int,
        )
    }

    /// How long a delivery may take, in seconds.
    pub open spec fn timeout(self) -> Result<int, Seq<char>> {
        number_setting(
            "DELIVERY_TIMEOUT_SECS"@,
            self.delivery_timeout_secs,
            20,
            0,
            u64::MAX as int,
        )
    }

    /// How long a webhook is retried, in seconds.
    pub open spec fn retry_window(self) -> Result<int, Seq<char>> {
        number_setting(
            "RETRY_WINDOW_SECS"@,
            self.retry_window_secs,
            THREE_DAYS_SECS as int,
            0,
            u64::MAX as int,
        )
    }

    /// From which attempt on a failure is a warning.
    pub open spec fn warn_after(self) -> Result<int, Seq<char>> {
        number_setting(
            "WARN_AFTER_ATTEMPTS"@,
            self.warn_after_attempts,
            10,
            i32::MIN as int,
            i32::MAX as int,
        )
    }

    /// After how many seconds the lock of a delivery is stale.
    pub open spec fn stale_lock(self) -> Result<int, Seq<char>> {
        number_setting(
            "STALE_DELIVERY_LOCK_SECS"@,
            self.stale_delivery_lock_secs,
            300,
            i64::MIN as int,
            i64::MAX as int,
        )
    }

    /// How long the workers may take to stop, in seconds.
    pub open spec fn drain_timeout(self) -> Result<int, Seq<char>> {
        number_setting(
            "WORKER_DRAIN_TIMEOUT_SECS"@,
            self.worker_drain_timeout_secs,
            30,
            0,
            u64::MAX as int,
        )
    }

    /// The message for an address that cannot be read, with the words of what read it.
    pub open spec fn bind_error(self, bind: Result<(), String>) -> Option<Seq<char>> {
        match bind {
            Ok(_) => None,
            Err(words) => Some(
                (if filled(self.server_bind) is Some {
                    "invalid SERVER_BIND: "@
                } else {
                    "invalid PORT: "@
                }) + words@,
            ),
        }
    }

    /// The message for destinations that are not there or cannot be read, with the words of what
    /// read them.
    pub open spec fn destinations_error(
        self,
        destinations: Result<Vec<DestinationConfig>, String>,
    ) -> Option<Seq<char>> {
        if self.destinations_text() is None {
            Some("missing DESTINATIONS_JSON"@)
        } else {
            match destinations {
                Ok(_) => None,
                Err(words) => Some("invalid DESTINATIONS_JSON: "@ + words@),
            }
        }
    }

    /// The message for the first variable that cannot be read, in the order of the settings.
    pub open spec fn error(
        self,
        bind: Result<(), String>,
        destinations: Result<Vec<DestinationConfig>, String>,
    ) -> Option<Seq<char>> {
        if self.database_url is None {
            unset("DATABASE_URL"@, self.database_url)
        } else if self.max_connections() is Err {
            Some(self.max_connections()->Err_0)
        } else if bind is Err {
            self.bind_error(bind)
        } else if self.resend_webhook_secret is None {
            unset("RESEND_WEBHOOK_SECRET"@, self.resend_webhook_secret)
        } else if self.tolerance() is Err {
            Some(self.tolerance()->Err_0)
        } else if self.router_signing_secret is None {
            unset("ROUTER_SIGNING_SECRET"@, self.router_signing_secret)
        } else if self.destinations_error(destinations) is Some {
            self.destinations_error(destinations)
        } else if self.workers() is Err {
            Some(self.workers()->Err_0)
        } else if self.claim_limit() is Err {
            Some(self.claim_limit()->Err_0)
        } else if self.timeout() is Err {
            Some(self.timeout()->Err_0)
        } else if self.retry_window() is Err {
            Some(self.retry_window()->Err_0)
        } else if self.warn_after() is Err {
            Some(self.warn_after()->Err_0)
        } else if self.stale_lock() is Err {
            Some(self.stale_lock()->Err_0)
        } else if self.drain_timeout() is Err {
            Some(self.drain_timeout()->Err_0)
        } else {
            None
        }
    }

    /// The settings that the environment holds, where all of it can be read.
    pub open spec fn settings(
        self,
        destinations: Result<Vec<DestinationConfig>, String>,
    ) -> ConfigView {
        ConfigView {
            database_url: self.database_url->Some_0@,
            database_max_connections: self.max_connections()->Ok_0 as u32,
            server_bind: self.bind_text(),
            resend_webhook_secret: self.resend_webhook_secret->Some_0@,
            resend_signature_tolerance_secs: self.tolerance()->Ok_0 as i64,
            router_signing_secret: self.router_signing_secret->Some_0@,
            destinations: destination_views(destinations->Ok_0@),
            delivery_worker_count: self.workers()->Ok_0 as usize,
            delivery_claim_limit: self.claim_limit()->Ok_0 as i64,
            delivery_timeout_secs: self.timeout()->Ok_0 as u64,
            retry_window_secs: self.retry_window()->Ok_0 as u64,
            warn_after_attempts: self.warn_after()->Ok_0 as i32,
            stale_delivery_lock_secs: self.stale_lock()->Ok_0 as i64,
            worker_drain_timeout_secs: self.drain_timeout()->Ok_0 as u64,
        }
    }

    /// The text of the address to listen at.
    pub fn bind_candidate(&self) -> (r: String)
        ensures
            r@ == self.bind_text(),
    {
        match optional_env(&self.server_bind) {
            Some(bind) => bind,
            None => {
                let port: String = match optional_env(&self.port) {
                    Some(port) => port,
                    None => "3000".to_owned(),
                };
                "0.0.0.0:".to_owned().concat(port.as_str())
            },
        }
    }

    /// The text of the destinations.
    pub fn destinations_source(&self) -> (r: Option<String>)
        ensures
            text_option(r) == self.destinations_text(),
    {
        optional_env(&self.destinations_json)
    }
}

/// The variable's text, where it is set and not blank.
pub fn optional_env(value: &Option<String>) -> (r: Option<String>)
    ensures
        text_option(r) == filled(*value),
{
    match value {
        Some(text) => {
            let chars: Vec<char> = chars_of(text.as_str());
            if trimmed(chars.as_slice(), CharClass::Space).len() == 0 {
                None
            } else {
                Some(text.clone())
            }
        },
        None => None,
    }
}

/// The text of a variable that must be set.
pub fn required_env(key: &str, value: &Option<String>) -> (r: AppResult<String>)
    ensures
        match r {
            Ok(text) => *value == Some(text),
            Err(error) => unset(key@, *value) is Some && error@ == ErrorView::Config(
                unset(key@, *value)->Some_0,
            ),
        },
{
    match value {
        Some(text) => Ok(text.clone()),
        None => Err(AppError::config("missing required env var ".to_owned().concat(key))),
    }
}

/// The number that a variable sets.
pub fn parse_env(key: &str, value: &Option<String>, default: i128, min: i128, max: i128) -> (r:
    AppResult<i128>)
    requires
        -0x1_0000_0000_0000_0000 <= min <= 0,
        0 <= max <= 0x1_0000_0000_0000_0000,
        min <= default <= max,
    ensures
        match r {
            Ok(number) => {
                &&& number_setting(key@, *value, default as int, min as int, max as int) == Ok::<
                    int,
                    Seq<char>,
                >(number as int)
                &&& min <= number <= max
            },
            Err(error) => {
                &&& number_setting(key@, *value, default as int, min as int, max as int) is Err
                &&& error@ == ErrorView::Config(
                    number_setting(key@, *value, default as int, min as int, max as int)->Err_0,
                )
            },
        },
{
    match optional_env(value) {
        None => Ok(default),
        Some(text) => match parsed_int(text.as_str(), min, max) {
            Ok(number) => Ok(number),
            Err(error) => Err(
                AppError::config(
                    "invalid ".to_owned().concat(key).concat(": ").concat(error.describe()),
                ),
            ),
        },
    }
}

impl Config {
    /// Reads the settings from the environment and tests them. The address to listen at and the
    /// destinations have been read already: `bind` says what came of `bind_candidate`, and
    /// `destinations` what came of `destinations_source`, where it has a text.
    pub fn from_env(
        environment: &Environment,
        bind: &Result<(), String>,
        destinations: &Result<Vec<DestinationConfig>, String>,
    ) -> (r: AppResult<Config>)
        ensures
            ({
                let unread = environment.error(*bind, *destinations);
                let settings = environment.settings(*destinations);
                let broken = config_error(settings, url_schemes(settings.destinations));
                match r {
                    Ok(config) => unread is None && broken is None && config@ == settings,
                    Err(error) => if unread is Some {
                        error@ == ErrorView::Config(unread->Some_0)
                    } else {
                        broken is Some && error@ == ErrorView::Config(broken->Some_0)
                    },
                }
            }),
    {
        let config: Config = match Config::read_env(environment, bind, destinations) {
            Ok(config) => config,
            Err(error) => return Err(error),
        };
        match config.validate() {
            Ok(_) => Ok(config),
            Err(error) => Err(error),
        }
    }

    /// Reads the settings from the environment, without testing them.
    pub fn read_env(
        environment: &Environment,
        bind: &Result<(), String>,
        destinations: &Result<Vec<DestinationConfig>, String>,
    ) -> (r: AppResult<Config>)
        ensures
            match r {
                Ok(config) => {
                    &&& environment.error(*bind, *destinations) is None
                    &&& config@ == environment.settings(*destinations)
                },
                Err(error) => {
                    &&& environment.error(*bind, *destinations) is Some
                    &&& error@ == ErrorView::Config(
                        environment.error(*bind, *destinations)->Some_0,
                    )
                },
            },
    {
        let database_url: String = match required_env("DATABASE_URL", &environment.database_url) {
            Ok(text) => text,
            Err(error) => return Err(error),
        };
        let max_connections: i128 = match parse_env(
            "DATABASE_MAX_CONNECTIONS",
            &environment.database_max_connections,
            5,
            0,
            u32::MAX as i128,
        ) {
            Ok(number) => number,
            Err(error) => return Err(error),
        };
        let server_bind: String = match parse_bind_addr(environment, bind) {
            Ok(text) => text,
            Err(error) => return Err(error),
        };
        let resend_webhook_secret: String = match required_env(
            "RESEND_WEBHOOK_SECRET",
            &environment.resend_webhook_secret,
        ) {
            Ok(text) => text,
            Err(error) => return Err(error),
        };
        let tolerance: i128 = match parse_env(
            "RESEND_SIGNATURE_TOLERANCE_SECS",
            &environment.resend_signature_tolerance_secs,
            300,
            i64::MIN as i128,
            i64::MAX as i128,
        ) {
            Ok(number) => number,
            Err(error) => return Err(error),
        };
        let router_signing_secret: String = match required_env(
            "ROUTER_SIGNING_SECRET",
            &environment.router_signing_secret,
        ) {
            Ok(text) => text,
            Err(error) => return Err(error),
        };
        let destinations: Vec<DestinationConfig> = match parse_destinations(
            environment,
            destinations,
        ) {
            Ok(list) => list,
            Err(error) => return Err(error),
        };
        let workers: i128 = match parse_env(
            "DELIVERY_WORKERS",
            &environment.delivery_workers,
            2,
            0,
            usize::MAX as i128,
        ) {
            Ok(number) => number,
            Err(error) => return Err(error),
        };
        let claim_limit: i128 = match parse_env(
            "DELIVERY_CLAIM_LIMIT",
            &environment.delivery_claim_limit,
            5,
            i64::MIN as i128,
            i64::MAX as i128,
        ) {
            Ok(number) => number,
            Err(error) => return Err(error),
        };
        let timeout: i128 = match parse_env(
            "DELIVERY_TIMEOUT_SECS",
            &environment.delivery_timeout_secs,
            20,
            0,
            u64::MAX as i128,
        ) {
            Ok(number) => number,
            Err(error) => return Err(error),
        };
        let retry_window: i128 = match parse_env(
            "RETRY_WINDOW_SECS",
            &environment.retry_window_secs,
            THREE_DAYS_SECS as i128,
            0,
            u64::MAX as i128,
        ) {
            Ok(number) => number,
            Err(error) => return Err(error),
        };
        let warn_after: i128 = match parse_env(
            "WARN_AFTER_ATTEMPTS",
            &environment.warn_after_attempts,
            10,
            i32::MIN as i128,
            i32::MAX as i128,
        ) {
            Ok(number) => number,
            Err(error) => return Err(error),
        };
        let stale_lock: i128 = match parse_env(
            "STALE_DELIVERY_LOCK_SECS",
            &environment.stale_delivery_lock_secs,
            5 * 60,
            i64::MIN as i128,
            i64::MAX as i128,
        ) {
            Ok(number) => number,
            Err(error) => return Err(error),
        };
        let drain_timeout: i128 = match parse_env(
            "WORKER_DRAIN_TIMEOUT_SECS",
            &environment.worker_drain_timeout_secs,
            30,
            0,
            u64::MAX as i128,
        ) {
            Ok(number) => number,
            Err(error) => return Err(error),
        };
        Ok(
            Config {
                database_url,
                database_max_connections: max_connections as u32,
                server_bind,
                resend_webhook_secret,
                resend_signature_tolerance_secs: tolerance as i64,
                router_signing_secret,
                destinations,
                delivery_worker_count: workers as usize,
                delivery_claim_limit: claim_limit as i64,
                delivery_timeout_secs: timeout as u64,
                retry_window_secs: retry_window as u64,
                warn_after_attempts: warn_after as i32,
                stale_delivery_lock_secs: stale_lock as i64,
                worker_drain_timeout_secs: drain_timeout as u64,
            },
        )
    }
}

fn parse_bind_addr(environment: &Environment, bind: &Result<(), String>) -> (r: AppResult<String>)
    ensures
        match r {
            Ok(text) => bind is Ok && text@ == environment.bind_text(),
            Err(error) => environment.bind_error(*bind) is Some && error@ == ErrorView::Config(
                environment.bind_error(*bind)->Some_0,
            ),
        },
{
    match bind {
        Ok(_) => Ok(environment.bind_candidate()),
        Err(words) => {
            if optional_env(&environment.server_bind).is_some() {
                Err(AppError::config("invalid SERVER_BIND: ".to_owned().concat(words.as_str())))
            } else {
                Err(AppError::config("invalid PORT: ".to_owned().concat(words.as_str())))
            }
        },
    }
}

fn parse_destinations(
    environment: &Environment,
    destinations: &Result<Vec<DestinationConfig>, String>,
) -> (r: AppResult<Vec<DestinationConfig>>)
    ensures
        match r {
            Ok(list) => {
                &&& environment.destinations_error(*destinations) is None
                &&& destinations is Ok
                &&& destination_views(list@) == destination_views(destinations->Ok_0@)
            },
            Err(error) => {
                &&& environment.destinations_error(*destinations) is Some
                &&& error@ == ErrorView::Config(
                    environment.destinations_error(*destinations)->Some_0,
                )
            },
        },
{
    if environment.destinations_source().is_none() {
        return Err(AppError::config("missing DESTINATIONS_JSON".to_owned()));
    }
    match destinations {
        Ok(list) => Ok(copied_destinations(list)),
        Err(words) => Err(
            AppError::config("invalid DESTINATIONS_JSON: ".to_owned().concat(words.as_str())),
        ),
    }
}

/// Settings are read only where the database, both secrets and the destinations are set.
pub proof fn required_settings_are_set(
    environment: Environment,
    bind: Result<(), String>,
    destinations: Result<Vec<DestinationConfig>, String>,
)
    requires
        environment.error(bind, destinations) is None,
    ensures
        environment.database_url is Some,
        environment.resend_webhook_secret is Some,
        environment.router_signing_secret is Some,
        environment.destinations_json is Some,
        environment.destinations_text() is Some,
{
}

} // verus!
