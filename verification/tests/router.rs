use resend_router::config::DestinationConfig;
use resend_router::resend::{extract_email_domain, ResendEventForRouting};
use resend_router::router::{
    destination_matches, normalize_destination, normalize_domain, RouteMatcher,
};

#[test]
fn matches_from_domain() {
    let matcher = RouteMatcher::new(vec![DestinationConfig {
        name: "app".to_string(),
        url: "https://app.example.com/webhooks/resend".to_string(),
        from_domains: vec!["Example.COM".to_string()],
        to_domains: vec![],
        event_types: vec![],
        catch_all: false,
    }]);
    let event = ResendEventForRouting {
        event_id: Some("email_123".to_string()),
        event_type: Some("email.delivered".to_string()),
        from_domain: Some("example.com".to_string()),
        to_domains: vec!["customer.com".to_string()],
    };

    let matched = matcher.match_destinations(&event);

    assert_eq!(matched.len(), 1);
    assert_eq!(matched[0].name, "app");
}

#[test]
fn event_type_is_an_additional_constraint() {
    let matcher = RouteMatcher::new(vec![DestinationConfig {
        name: "app".to_string(),
        url: "https://app.example.com/webhooks/resend".to_string(),
        from_domains: vec!["example.com".to_string()],
        to_domains: vec![],
        event_types: vec!["email.bounced".to_string()],
        catch_all: false,
    }]);
    let event = ResendEventForRouting {
        event_id: Some("email_123".to_string()),
        event_type: Some("email.delivered".to_string()),
        from_domain: Some("example.com".to_string()),
        to_domains: vec![],
    };

    assert!(matcher.match_destinations(&event).is_empty());
}

fn destination(name: &str) -> DestinationConfig {
    DestinationConfig {
        name: name.to_string(),
        url: "https://app.example.com/hook".to_string(),
        from_domains: vec![],
        to_domains: vec![],
        event_types: vec![],
        catch_all: false,
    }
}

fn event(kind: Option<&str>, from: Option<&str>, to: &[&str]) -> ResendEventForRouting {
    ResendEventForRouting {
        event_id: None,
        event_type: kind.map(str::to_string),
        from_domain: from.map(str::to_string),
        to_domains: to.iter().map(|domain| domain.to_string()).collect(),
    }
}

#[test]
fn matched_destinations_keep_their_order() {
    let mut all = destination("all");
    all.catch_all = true;
    let mut sender = destination("sender");
    sender.from_domains = vec!["a.com".to_string(), "@B.com.".to_string()];
    let mut recipient = destination("recipient");
    recipient.to_domains = vec!["c.com".to_string()];
    let mut typed = destination("typed");
    typed.event_types = vec!["email.sent".to_string()];
    let matcher = RouteMatcher::new(vec![typed, recipient, all, sender]);

    let names = |e: &ResendEventForRouting| -> Vec<String> {
        matcher.match_destinations(e).into_iter().map(|d| d.name).collect()
    };
    assert_eq!(
        names(&event(Some("email.sent"), Some("b.com"), &["x.com", "c.com"])),
        ["typed", "recipient", "all", "sender"]
    );
    assert_eq!(names(&event(None, None, &[])), ["all"]);
    assert_eq!(names(&event(Some("email.sent "), Some("A.com"), &["C.com"])), ["all"]);
    assert_eq!(names(&event(None, Some("a.com"), &[])), ["all", "sender"]);
}

#[test]
fn all_constraints_must_hold() {
    let mut own = destination("app");
    own.from_domains = vec!["a.com".to_string()];
    own.to_domains = vec!["b.com".to_string()];
    own.event_types = vec!["email.sent".to_string()];
    assert!(destination_matches(&own, &event(Some("email.sent"), Some("a.com"), &["b.com"])));
    assert!(!destination_matches(&own, &event(None, Some("a.com"), &["b.com"])));
    assert!(!destination_matches(&own, &event(Some("email.sent"), None, &["b.com"])));
    assert!(!destination_matches(&own, &event(Some("email.sent"), Some("a.com"), &[])));
    assert!(!destination_matches(&own, &event(Some("other"), Some("a.com"), &["b.com"])));
    own.event_types = vec![];
    assert!(destination_matches(&own, &event(None, Some("a.com"), &["b.com"])));
    own.catch_all = true;
    assert!(destination_matches(&own, &event(None, None, &[])));
}

#[test]
fn wildcards_are_not_expanded() {
    let mut own = destination("app");
    own.from_domains = vec!["*.a.com".to_string()];
    let matcher = RouteMatcher::new(vec![own]);
    assert!(matcher.match_destinations(&event(None, Some("x.a.com"), &[])).is_empty());
    assert!(matcher.match_destinations(&event(None, Some("a.com"), &[])).is_empty());
}

#[test]
fn domains_are_normalized() {
    assert_eq!(normalize_domain(" @Example.COM. "), Some("example.com".to_string()));
    assert_eq!(normalize_domain("@@x..."), Some("x".to_string()));
    assert_eq!(normalize_domain("@example.com"), normalize_domain("EXAMPLE.com"));
    assert_eq!(normalize_domain("@ x"), Some(" x".to_string()));
    assert_eq!(normalize_domain("x ."), Some("x ".to_string()));
    assert_eq!(normalize_domain(" @. "), None);
    assert_eq!(normalize_domain(""), None);
}

#[test]
fn blank_domains_are_left_out() {
    let mut own = destination("app");
    own.from_domains = vec!["A".to_string(), "@".to_string(), "B.".to_string()];
    own.to_domains = vec!["".to_string()];
    let normalized = normalize_destination(&own);
    assert_eq!(normalized.from_domains, ["a", "b"]);
    assert!(normalized.to_domains.is_empty());
    assert_eq!(normalized.name, "app");
    assert_eq!(normalized.url, own.url);
}

#[test]
fn read_domains_are_normalized() {
    for field in ["a@Example.COM.", "X <y@z.org>", "q@w;", "a@b, c@d"] {
        let domain = extract_email_domain(field).unwrap();
        assert_eq!(normalize_domain(&domain), Some(domain));
    }
}

#[test]
fn matchers_can_be_copied() {
    let mut all = destination("all");
    all.catch_all = true;
    let matcher = RouteMatcher::new(vec![all]).clone();
    assert_eq!(matcher.match_destinations(&event(None, None, &[])).len(), 1);
}
