use resend_router::config::{validate_domains, Config, DestinationConfig};
use resend_router::environment::{Environment, THREE_DAYS_SECS};
use resend_router::error::AppError;
use resend_router::router::normalize_domain;

fn destination(name: &str, url: &str) -> DestinationConfig {
    DestinationConfig {
        name: name.to_string(),
        url: url.to_string(),
        from_domains: vec!["example.com".to_string()],
        to_domains: vec![],
        event_types: vec![],
        catch_all: false,
    }
}

fn config() -> Config {
    Config {
        database_url: "postgres://localhost/router".to_string(),
        database_max_connections: 5,
        server_bind: "0.0.0.0:3000".to_string(),
        resend_webhook_secret: "whsec_c2VjcmV0".to_string(),
        resend_signature_tolerance_secs: 300,
        router_signing_secret: "0123456789abcdef0123456789abcdef".to_string(),
        destinations: vec![destination("app", "https://example.com/hook")],
        delivery_worker_count: 2,
        delivery_claim_limit: 5,
        delivery_timeout_secs: 20,
        retry_window_secs: THREE_DAYS_SECS,
        warn_after_attempts: 10,
        stale_delivery_lock_secs: 300,
        worker_drain_timeout_secs: 30,
    }
}

fn config_message(result: Result<(), AppError>) -> String {
    match result {
        Err(AppError::Config(words)) => words,
        other => panic!("not a configuration error: {other:?}"),
    }
}

fn refused(destination: &DestinationConfig) -> String {
    config_message(destination.validate())
}

#[test]
fn destination_requires_criteria() {
    let destination = DestinationConfig {
        name: "empty".to_string(),
        url: "https://example.com/webhook".to_string(),
        from_domains: vec![],
        to_domains: vec![],
        event_types: vec![],
        catch_all: false,
    };

    assert!(destination.validate().is_err());
}

#[test]
fn destination_errors_have_their_words() {
    assert!(destination("a-Z_0.9", "http://example.com").validate().is_ok());
    assert_eq!(refused(&destination(" \u{3000}", "https://a.b")), "destination name cannot be empty");
    assert_eq!(
        refused(&destination("a b", "https://a.b")),
        "destination `a b` name may only contain ASCII letters, numbers, dots, dashes, and underscores"
    );
    assert_eq!(
        refused(&destination("a", "no url")),
        "destination `a` has invalid url: relative URL without a base"
    );
    assert_eq!(
        refused(&destination("a", "ftp://example.com")),
        "destination `a` uses unsupported url scheme `ftp`"
    );
    let mut bare = destination("a", "https://a.b");
    bare.from_domains = vec![];
    assert_eq!(
        refused(&bare),
        "destination `a` needs at least one match criterion or catch_all=true"
    );
    bare.catch_all = true;
    assert!(bare.validate().is_ok());
    bare.from_domains = vec!["example.com".to_string(), " @@.. ".to_string()];
    assert_eq!(refused(&bare), "destination `a` has an empty from_domains entry");
    bare.from_domains = vec![];
    bare.to_domains = vec!["".to_string()];
    assert_eq!(refused(&bare), "destination `a` has an empty to_domains entry");
    bare.to_domains = vec![];
    bare.event_types = vec!["\t".to_string()];
    assert_eq!(refused(&bare), "destination `a` has an empty event type");
}

#[test]
fn url_schemes_are_in_small_letters() {
    assert!(destination("a", "HTTPS://Example.com").validate().is_ok());
    assert_eq!(
        refused(&destination("a", "MAILTO:me")),
        "destination `a` uses unsupported url scheme `mailto`"
    );
}

#[test]
fn destination_is_tested_with_a_given_scheme() {
    let own = destination("a", "https://a.b");
    assert!(own.validate_with(&Ok("http".to_string())).is_ok());
    assert!(own.validate_with(&Ok("https".to_string())).is_ok());
    assert_eq!(
        config_message(own.validate_with(&Ok("file".to_string()))),
        "destination `a` uses unsupported url scheme `file`"
    );
    assert_eq!(
        config_message(own.validate_with(&Err("bad".to_string()))),
        "destination `a` has invalid url: bad"
    );
}

#[test]
fn accepted_settings_are_valid() {
    assert!(config().validate().is_ok());
    let own = config();
    assert_eq!(own.retry_window(), 259_200);
    assert_eq!(own.delivery_timeout(), 20);
    assert_eq!(own.worker_drain_timeout(), 30);
}

#[test]
fn retry_window_beyond_the_signed_range_wraps() {
    let mut own = config();
    own.retry_window_secs = u64::MAX;
    assert_eq!(own.retry_window(), u64::MAX as i64);
    own.retry_window_secs = i64::MAX as u64 + 1;
    assert_eq!(own.retry_window(), i64::MIN);
    own.retry_window_secs = i64::MAX as u64;
    assert_eq!(own.retry_window(), i64::MAX);
}

#[test]
fn settings_errors_have_their_words() {
    let mut own = config();
    own.destinations = vec![];
    assert_eq!(
        config_message(own.validate()),
        "DESTINATIONS_JSON must contain at least one destination"
    );

    let mut own = config();
    own.router_signing_secret = "x".repeat(31);
    assert_eq!(
        config_message(own.validate()),
        "ROUTER_SIGNING_SECRET should be at least 32 characters"
    );
    own.router_signing_secret = "\u{e9}".repeat(16);
    assert!(own.validate().is_ok());

    let mut own = config();
    own.delivery_worker_count = 0;
    assert_eq!(config_message(own.validate()), "DELIVERY_WORKERS must be greater than zero");

    let mut own = config();
    own.database_max_connections = 0;
    assert_eq!(
        config_message(own.validate()),
        "DATABASE_MAX_CONNECTIONS must be greater than zero"
    );

    let mut own = config();
    own.delivery_claim_limit = 0;
    assert_eq!(config_message(own.validate()), "DELIVERY_CLAIM_LIMIT must be greater than zero");
    own.delivery_claim_limit = 101;
    assert_eq!(config_message(own.validate()), "DELIVERY_CLAIM_LIMIT must be 100 or lower");
    own.delivery_claim_limit = 100;
    assert!(own.validate().is_ok());

    let mut own = config();
    own.delivery_timeout_secs = 0;
    assert_eq!(config_message(own.validate()), "DELIVERY_TIMEOUT_SECS must be greater than zero");

    let mut own = config();
    own.retry_window_secs = 0;
    assert_eq!(config_message(own.validate()), "RETRY_WINDOW_SECS must be greater than zero");

    let mut own = config();
    own.resend_signature_tolerance_secs = 0;
    assert_eq!(
        config_message(own.validate()),
        "RESEND_SIGNATURE_TOLERANCE_SECS must be positive"
    );

    let mut own = config();
    own.warn_after_attempts = -1;
    assert_eq!(config_message(own.validate()), "WARN_AFTER_ATTEMPTS must be positive");

    let mut own = config();
    own.stale_delivery_lock_secs = 0;
    assert_eq!(config_message(own.validate()), "STALE_DELIVERY_LOCK_SECS must be positive");

    let mut own = config();
    own.worker_drain_timeout_secs = 0;
    assert_eq!(config_message(own.validate()), "WORKER_DRAIN_TIMEOUT_SECS must be positive");
}

#[test]
fn locks_outlast_requests() {
    let mut own = config();
    own.stale_delivery_lock_secs = 25;
    assert_eq!(
        config_message(own.validate()),
        "STALE_DELIVERY_LOCK_SECS must be at least DELIVERY_TIMEOUT_SECS + 5"
    );
    own.stale_delivery_lock_secs = 26;
    assert!(own.validate().is_ok());
}

#[test]
fn names_of_destinations_are_unique() {
    let mut own = config();
    own.destinations = vec![
        destination("app", "https://a.b"),
        destination("other", "https://a.b"),
        destination("app", "https://c.d"),
    ];
    assert_eq!(config_message(own.validate()), "duplicate destination name `app`");
    own.destinations[2].name = "third".to_string();
    assert!(own.validate().is_ok());
}

#[test]
fn first_broken_destination_counts() {
    let mut own = config();
    own.destinations = vec![
        destination("app", "https://a.b"),
        destination("app", "ftp://a.b"),
        destination("", "https://a.b"),
    ];
    assert_eq!(
        config_message(own.validate()),
        "destination `app` uses unsupported url scheme `ftp`"
    );
}

#[test]
fn copies_are_equal() {
    let own = config();
    let copy = own.clone();
    assert_eq!(copy.destinations, own.destinations);
    assert_eq!(copy.server_bind, own.server_bind);
    assert_eq!(copy.stale_delivery_lock_secs, own.stale_delivery_lock_secs);
}

fn environment() -> Environment {
    Environment {
        database_url: Some("postgres://localhost/router".to_string()),
        database_max_connections: None,
        server_bind: None,
        port: None,
        resend_webhook_secret: Some("whsec_c2VjcmV0".to_string()),
        resend_signature_tolerance_secs: None,
        router_signing_secret: Some("0123456789abcdef0123456789abcdef".to_string()),
        destinations_json: Some("[]".to_string()),
        delivery_workers: None,
        delivery_claim_limit: None,
        delivery_timeout_secs: None,
        retry_window_secs: None,
        warn_after_attempts: None,
        stale_delivery_lock_secs: None,
        worker_drain_timeout_secs: None,
    }
}

fn read(environment: &Environment) -> Result<Config, String> {
    let destinations = Ok(vec![destination("app", "https://example.com/hook")]);
    match Config::from_env(environment, &Ok(()), &destinations) {
        Ok(config) => Ok(config),
        Err(AppError::Config(words)) => Err(words),
        Err(other) => panic!("not a configuration error: {other:?}"),
    }
}

#[test]
fn settings_have_defaults() {
    let own = read(&environment()).unwrap();
    assert_eq!(own.database_url, "postgres://localhost/router");
    assert_eq!(own.database_max_connections, 5);
    assert_eq!(own.server_bind, "0.0.0.0:3000");
    assert_eq!(own.resend_webhook_secret, "whsec_c2VjcmV0");
    assert_eq!(own.resend_signature_tolerance_secs, 300);
    assert_eq!(own.router_signing_secret, "0123456789abcdef0123456789abcdef");
    assert_eq!(own.destinations, vec![destination("app", "https://example.com/hook")]);
    assert_eq!(own.delivery_worker_count, 2);
    assert_eq!(own.delivery_claim_limit, 5);
    assert_eq!(own.delivery_timeout_secs, 20);
    assert_eq!(own.retry_window_secs, 3 * 24 * 60 * 60);
    assert_eq!(own.warn_after_attempts, 10);
    assert_eq!(own.stale_delivery_lock_secs, 300);
    assert_eq!(own.worker_drain_timeout_secs, 30);
}

#[test]
fn settings_are_read() {
    let mut env = environment();
    env.database_max_connections = Some("7".to_string());
    env.server_bind = Some("127.0.0.1:9".to_string());
    env.resend_signature_tolerance_secs = Some("+60".to_string());
    env.delivery_workers = Some("3".to_string());
    env.delivery_claim_limit = Some("8".to_string());
    env.delivery_timeout_secs = Some("10".to_string());
    env.retry_window_secs = Some("3600".to_string());
    env.warn_after_attempts = Some("4".to_string());
    env.stale_delivery_lock_secs = Some("99".to_string());
    env.worker_drain_timeout_secs = Some("1".to_string());
    let own = read(&env).unwrap();
    assert_eq!(own.database_max_connections, 7);
    assert_eq!(own.server_bind, "127.0.0.1:9");
    assert_eq!(own.resend_signature_tolerance_secs, 60);
    assert_eq!(own.delivery_worker_count, 3);
    assert_eq!(own.delivery_claim_limit, 8);
    assert_eq!(own.delivery_timeout_secs, 10);
    assert_eq!(own.retry_window_secs, 3600);
    assert_eq!(own.warn_after_attempts, 4);
    assert_eq!(own.stale_delivery_lock_secs, 99);
    assert_eq!(own.worker_drain_timeout_secs, 1);
}

#[test]
fn blank_settings_count_as_unset() {
    let mut env = environment();
    env.delivery_workers = Some("  ".to_string());
    env.port = Some("\n".to_string());
    env.server_bind = Some("".to_string());
    let own = read(&env).unwrap();
    assert_eq!(own.delivery_worker_count, 2);
    assert_eq!(own.server_bind, "0.0.0.0:3000");
}

#[test]
fn required_settings_must_be_set() {
    let mut env = environment();
    env.database_url = None;
    assert_eq!(read(&env).unwrap_err(), "missing required env var DATABASE_URL");
    let mut env = environment();
    env.resend_webhook_secret = None;
    assert_eq!(read(&env).unwrap_err(), "missing required env var RESEND_WEBHOOK_SECRET");
    let mut env = environment();
    env.router_signing_secret = None;
    assert_eq!(read(&env).unwrap_err(), "missing required env var ROUTER_SIGNING_SECRET");
    let mut env = environment();
    env.destinations_json = Some(" ".to_string());
    assert_eq!(read(&env).unwrap_err(), "missing DESTINATIONS_JSON");
}

#[test]
fn unreadable_settings_have_their_words() {
    let mut env = environment();
    env.database_max_connections = Some("-1".to_string());
    assert_eq!(
        read(&env).unwrap_err(),
        "invalid DATABASE_MAX_CONNECTIONS: invalid digit found in string"
    );
    let mut env = environment();
    env.resend_signature_tolerance_secs = Some("9223372036854775808".to_string());
    assert_eq!(
        read(&env).unwrap_err(),
        "invalid RESEND_SIGNATURE_TOLERANCE_SECS: number too large to fit in target type"
    );
    let mut env = environment();
    env.delivery_workers = Some(" 2".to_string());
    assert_eq!(
        read(&env).unwrap_err(),
        "invalid DELIVERY_WORKERS: invalid digit found in string"
    );
    let mut env = environment();
    env.delivery_claim_limit = Some("-9223372036854775809".to_string());
    assert_eq!(
        read(&env).unwrap_err(),
        "invalid DELIVERY_CLAIM_LIMIT: number too small to fit in target type"
    );
    let mut env = environment();
    env.delivery_timeout_secs = Some("18446744073709551616".to_string());
    assert_eq!(
        read(&env).unwrap_err(),
        "invalid DELIVERY_TIMEOUT_SECS: number too large to fit in target type"
    );
    let mut env = environment();
    env.retry_window_secs = Some("3 days".to_string());
    assert_eq!(
        read(&env).unwrap_err(),
        "invalid RETRY_WINDOW_SECS: invalid digit found in string"
    );
    let mut env = environment();
    env.warn_after_attempts = Some("2147483648".to_string());
    assert_eq!(
        read(&env).unwrap_err(),
        "invalid WARN_AFTER_ATTEMPTS: number too large to fit in target type"
    );
    let mut env = environment();
    env.stale_delivery_lock_secs = Some("x".to_string());
    assert_eq!(
        read(&env).unwrap_err(),
        "invalid STALE_DELIVERY_LOCK_SECS: invalid digit found in string"
    );
    let mut env = environment();
    env.worker_drain_timeout_secs = Some("+".to_string());
    assert_eq!(
        read(&env).unwrap_err(),
        "invalid WORKER_DRAIN_TIMEOUT_SECS: invalid digit found in string"
    );
}

#[test]
fn address_comes_from_bind_or_port() {
    let mut env = environment();
    assert_eq!(env.bind_candidate(), "0.0.0.0:3000");
    env.port = Some("8080".to_string());
    assert_eq!(env.bind_candidate(), "0.0.0.0:8080");
    env.server_bind = Some("[::1]:80".to_string());
    assert_eq!(env.bind_candidate(), "[::1]:80");
}

#[test]
fn unreadable_address_names_its_variable() {
    let destinations = Ok(vec![]);
    let bad = Err("invalid socket address syntax".to_string());
    let mut env = environment();
    let error = Config::from_env(&env, &bad, &destinations).unwrap_err();
    assert_eq!(error.message(), "configuration error: invalid PORT: invalid socket address syntax");
    env.server_bind = Some("nowhere".to_string());
    let error = Config::from_env(&env, &bad, &destinations).unwrap_err();
    assert_eq!(
        error.message(),
        "configuration error: invalid SERVER_BIND: invalid socket address syntax"
    );
}

#[test]
fn destinations_come_under_one_name() {
    let mut env = environment();
    env.destinations_json = Some(" [1] ".to_string());
    assert_eq!(env.destinations_source(), Some(" [1] ".to_string()));
    env.destinations_json = Some("\t".to_string());
    assert_eq!(env.destinations_source(), None);
    env.destinations_json = None;
    assert_eq!(env.destinations_source(), None);
    assert_eq!(read(&env).unwrap_err(), "missing DESTINATIONS_JSON");
}

#[test]
fn domains_pass_where_none_is_dropped() {
    let list = |domains: &[&str]| -> Vec<String> {
        domains.iter().map(|domain| domain.to_string()).collect()
    };
    for domains in [
        list(&[]),
        list(&["a.com", "@B.com."]),
        list(&["a.com", " @. "]),
        list(&[""]),
        list(&["@ x"]),
    ] {
        let kept = domains.iter().all(|domain| normalize_domain(domain).is_some());
        assert_eq!(validate_domains("app", "to_domains", &domains).is_ok(), kept);
    }
    let error = validate_domains("app", "to_domains", &list(&["@"])).unwrap_err();
    assert_eq!(
        error.message(),
        "configuration error: destination `app` has an empty to_domains entry"
    );
}

#[test]
fn unreadable_destinations_have_their_words() {
    let bad = Err("expected value at line 1 column 1".to_string());
    let error = Config::from_env(&environment(), &Ok(()), &bad).unwrap_err();
    assert_eq!(
        error.message(),
        "configuration error: invalid DESTINATIONS_JSON: expected value at line 1 column 1"
    );
}

#[test]
fn first_unreadable_setting_counts() {
    let mut env = environment();
    env.worker_drain_timeout_secs = Some("x".to_string());
    env.database_max_connections = Some("x".to_string());
    env.router_signing_secret = None;
    assert_eq!(
        read(&env).unwrap_err(),
        "invalid DATABASE_MAX_CONNECTIONS: invalid digit found in string"
    );
    env.database_max_connections = None;
    assert_eq!(read(&env).unwrap_err(), "missing required env var ROUTER_SIGNING_SECRET");
}

#[test]
fn read_settings_are_tested() {
    let mut env = environment();
    env.delivery_workers = Some("0".to_string());
    assert_eq!(read(&env).unwrap_err(), "DELIVERY_WORKERS must be greater than zero");
    let untested = Config::read_env(&env, &Ok(()), &Ok(vec![])).unwrap();
    assert_eq!(untested.delivery_worker_count, 0);
}
