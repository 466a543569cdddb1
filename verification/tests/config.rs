use rate_limiting::config::{
    default_429, default_empty, default_false, default_limit_by, default_msg,
    default_negative_1, default_policy, default_true, Config, RateLimitingRoot,
};
use rate_limiting::http::{get_prop, IdentityLookup, RateLimitingHttp};
use rate_limiting::window::WindowKind;

#[test]
fn defaults_of_the_settings() {
    assert_eq!(default_negative_1(), -1);
    assert_eq!(default_empty(), "");
    assert_eq!(default_limit_by(), "ip");
    assert_eq!(default_policy(), "local");
    assert!(default_true());
    assert!(!default_false());
    assert_eq!(default_429(), 429);
    assert_eq!(default_msg(), "Rust informs: API rate limit exceeded!");
}

#[test]
fn the_default_configuration_enforces_nothing() {
    let config = Config::default();
    let limits = config.limits();
    for kind in [
        WindowKind::Second,
        WindowKind::Minute,
        WindowKind::Hour,
        WindowKind::Day,
        WindowKind::Month,
        WindowKind::Year,
    ] {
        assert_eq!(*limits.get(kind), -1);
    }
    assert_eq!(config.limit_by, "ip");
    assert_eq!(config.header_name, "");
    assert_eq!(config.path, "");
    assert_eq!(config.policy, "local");
    assert!(config.fault_tolerant);
    assert!(!config.hide_client_headers);
    assert_eq!(config.error_code, 429);
    assert_eq!(config.error_message, "Rust informs: API rate limit exceeded!");
    assert!(config.supported());
}

#[test]
fn limits_are_taken_window_by_window() {
    let mut config = Config::default();
    config.second = 1;
    config.minute = 2;
    config.hour = 3;
    config.day = 4;
    config.month = 5;
    config.year = 6;
    let limits = config.limits();
    assert_eq!(
        (limits.second, limits.minute, limits.hour, limits.day, limits.month, limits.year),
        (1, 2, 3, 4, 5, 6)
    );
}

#[test]
fn a_configuration_with_the_local_policy_is_accepted() {
    let mut root = RateLimitingRoot::new();
    assert!(root.config.is_none());
    let mut config = Config::default();
    config.minute = 30;
    assert!(root.on_configure(Some(config)));
    assert_eq!(root.config.as_ref().unwrap().minute, 30);
}

#[test]
fn another_policy_is_refused() {
    let mut root = RateLimitingRoot::new();
    let mut config = Config::default();
    config.policy = "cluster".to_string();
    assert!(!config.supported());
    assert!(!root.on_configure(Some(config)));
    assert!(root.config.is_none());
    assert!(root.create_http_context(1).is_none());
}

#[test]
fn a_refused_configuration_leaves_the_accepted_one() {
    let mut root = RateLimitingRoot::new();
    let mut good = Config::default();
    good.hour = 7;
    assert!(root.on_configure(Some(good)));
    let mut bad = Config::default();
    bad.policy = "redis".to_string();
    bad.hour = 9;
    assert!(!root.on_configure(Some(bad)));
    assert!(!root.on_configure(None));
    assert_eq!(root.config.as_ref().unwrap().hour, 7);
}

#[test]
fn a_missing_configuration_is_refused() {
    let mut root = RateLimitingRoot::new();
    assert!(!root.on_configure(None));
    assert!(root.config.is_none());
}

#[test]
fn a_request_context_takes_its_limits_from_the_configuration() {
    let mut root = RateLimitingRoot::new();
    let mut config = Config::default();
    config.second = 5;
    config.year = 1_000_000;
    config.error_code = 503;
    assert!(root.on_configure(Some(config)));
    let http = root.create_http_context(42).unwrap();
    assert_eq!(http.context_id, 42);
    assert_eq!(http.limits.second, 5);
    assert_eq!(http.limits.minute, -1);
    assert_eq!(http.limits.year, 1_000_000);
    assert_eq!(http.config.error_code, 503);
    assert!(http.headers.is_none());
}

#[test]
fn a_copy_of_a_configuration_holds_the_same_settings() {
    let mut config = Config::default();
    config.limit_by = "header".to_string();
    config.header_name = "x-api-key".to_string();
    config.day = 77;
    let copy = config.clone();
    assert_eq!(copy.limit_by, "header");
    assert_eq!(copy.header_name, "x-api-key");
    assert_eq!(copy.day, 77);
    assert_eq!(copy.error_message, config.error_message);
}

fn context(limit_by: &str, header_name: &str, path: &str) -> RateLimitingHttp {
    let mut config = Config::default();
    config.limit_by = limit_by.to_string();
    config.header_name = header_name.to_string();
    config.path = path.to_string();
    RateLimitingHttp { context_id: 1, limits: config.limits(), config, headers: None }
}

#[test]
fn identity_by_header_is_the_value_of_the_header() {
    let http = context("header", "x-api-key", "");
    match http.identifier_lookup() {
        IdentityLookup::Header(name) => assert_eq!(name, "x-api-key"),
        other => panic!("unexpected {:?}", other),
    }
    assert_eq!(http.get_identifier(Some("secret".to_string())), Some("secret".to_string()));
    assert_eq!(http.get_identifier(None), None);
}

#[test]
fn identity_by_path_is_the_configured_path_only() {
    let http = context("path", "", "/orders");
    assert!(matches!(http.identifier_lookup(), IdentityLookup::Path));
    assert_eq!(http.get_identifier(Some("/orders".to_string())), Some("/orders".to_string()));
    assert_eq!(http.get_identifier(Some("/orders/7".to_string())), None);
    assert_eq!(http.get_identifier(None), None);
}

#[test]
fn identity_falls_back_to_the_source_address() {
    let http = context("ip", "x-api-key", "/orders");
    assert!(matches!(http.identifier_lookup(), IdentityLookup::RemoteAddress));
    assert_eq!(http.get_identifier(Some("/orders".to_string())), None);
    let http = context("consumer", "", "");
    assert!(matches!(http.identifier_lookup(), IdentityLookup::RemoteAddress));
    assert_eq!(http.get_identifier(Some("anything".to_string())), None);
}

#[test]
fn a_property_is_the_text_that_its_bytes_spell() {
    assert_eq!(get_prop(Some(b"10.0.0.7".to_vec())), "10.0.0.7");
    assert_eq!(get_prop(Some("gr\u{fc}n \u{2713}".as_bytes().to_vec())), "gr\u{fc}n \u{2713}");
    assert_eq!(get_prop(Some(Vec::new())), "");
}

#[test]
fn a_missing_or_unreadable_property_is_empty() {
    assert_eq!(get_prop(None), "");
    assert_eq!(get_prop(Some(vec![0xff, 0xfe])), "");
    assert_eq!(get_prop(Some(vec![b'a', 0xc3])), "");
    assert_eq!(get_prop(Some(vec![0xed, 0xa0, 0x80])), "");
}
