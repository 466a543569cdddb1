use rate_limiting::clock::{get_timestamps, Instant};
use rate_limiting::config::{Config, RateLimitingRoot};
use rate_limiting::http::{get_prop, IdentityLookup, RequestOutcome};
use rate_limiting::increment::IncrementStep;
use rate_limiting::store::{
    decode_counter, encode_counter, get_local_key, usage, usage_key, CasOutcome,
};
use rate_limiting::window::WindowKind;
use std::collections::HashMap;

// 2023-11-14 22:13:20 UTC
const NOW: i64 = 1_700_000_000;

/// A counter store with conditional writes, as the engine expects it.
struct FakeStore {
    cells: HashMap<String, (Vec<u8>, u32)>,
    reads_fail: bool,
    conflicts_to_inject: u32,
    reads: usize,
    writes: usize,
}

impl FakeStore {
    fn new() -> FakeStore {
        FakeStore {
            cells: HashMap::new(),
            reads_fail: false,
            conflicts_to_inject: 0,
            reads: 0,
            writes: 0,
        }
    }

    fn get(&mut self, key: &str) -> Result<(Option<Vec<u8>>, Option<u32>), String> {
        self.reads += 1;
        if self.reads_fail {
            return Err("store unavailable".to_string());
        }
        match self.cells.get(key) {
            Some((data, version)) => Ok((Some(data.clone()), Some(*version))),
            None => Ok((None, None)),
        }
    }

    fn compare_and_swap(&mut self, key: &str, data: Vec<u8>, cas: Option<u32>) -> CasOutcome {
        self.writes += 1;
        if self.conflicts_to_inject > 0 {
            self.conflicts_to_inject -= 1;
            return CasOutcome::VersionConflict;
        }
        let current = self.cells.get(key).map(|(_, version)| *version);
        if current != cas {
            return CasOutcome::VersionConflict;
        }
        self.cells.insert(key.to_string(), (data, current.unwrap_or(0) + 1));
        CasOutcome::Stored
    }

    fn count(&self, key: &str) -> Option<i32> {
        self.cells.get(key).map(|(data, _)| decode_counter(data))
    }
}

struct Served {
    allowed: bool,
    fatal: Option<String>,
    status: Option<u32>,
    body: Option<String>,
    headers: Vec<(String, String)>,
    failed: Vec<WindowKind>,
}

impl Served {
    fn header(&self, name: &str) -> Option<&str> {
        self.headers.iter().find(|(n, _)| n == name).map(|(_, v)| v.as_str())
    }
}

/// Handles one request the way a host does: it reads the clock, looks
/// the identity up, and carries the requests of the engine to the store.
fn serve(root: &RateLimitingRoot, store: &mut FakeStore, header: Option<&str>, now: i64) -> Served {
    let mut http = root.create_http_context(1).unwrap();
    let ts = get_timestamps(&Instant::new(now, 0).unwrap());
    let found = match http.identifier_lookup() {
        IdentityLookup::Header(_) => header.map(|value| value.to_string()),
        IdentityLookup::Path => Some("/orders".to_string()),
        IdentityLookup::RemoteAddress => None,
    };
    let id = match http.get_identifier(found) {
        Some(id) => id,
        None => get_prop(Some(b"192.0.2.1".to_vec())),
    };
    let key = |kind: WindowKind| usage_key("route", "service", &id, kind, &ts);

    let mut evaluation = http.get_usages();
    while let Some(kind) = evaluation.pending() {
        evaluation.record(usage(store.get(&key(kind))));
    }
    let outcome = http.on_http_request_headers(evaluation.finish(), &ts);

    let mut served = Served {
        allowed: false,
        fatal: None,
        status: None,
        body: None,
        headers: Vec::new(),
        failed: Vec::new(),
    };
    match outcome {
        RequestOutcome::Fatal(fault) => served.fatal = Some(fault),
        RequestOutcome::Pause { status, body } => {
            served.status = Some(status);
            served.body = Some(body);
        }
        RequestOutcome::Continue { increment } => {
            served.allowed = true;
            if let Some(mut increment) = increment {
                loop {
                    match increment.step() {
                        IncrementStep::Write { kind, value, cas } => {
                            let outcome =
                                store.compare_and_swap(&key(kind), encode_counter(value), cas);
                            increment.written(outcome);
                        }
                        IncrementStep::Read { kind } => {
                            increment.reread(usage(store.get(&key(kind))));
                        }
                        IncrementStep::Done => break,
                    }
                }
                for kind in [
                    WindowKind::Second,
                    WindowKind::Minute,
                    WindowKind::Hour,
                    WindowKind::Day,
                    WindowKind::Month,
                    WindowKind::Year,
                ] {
                    if *increment.failed.get(kind) {
                        served.failed.push(kind);
                    }
                }
            }
        }
    }
    served.headers = http
        .on_http_response_headers(true)
        .into_iter()
        .map(|line| (line.name, line.value))
        .collect();
    served
}

fn configured(change: impl FnOnce(&mut Config)) -> RateLimitingRoot {
    let mut config = Config::default();
    change(&mut config);
    let mut root = RateLimitingRoot::new();
    assert!(root.on_configure(Some(config)));
    root
}

fn minute_key(id: &str) -> String {
    get_local_key("route", "service", id, WindowKind::Minute, 1_699_999_980)
}

#[test]
fn two_requests_a_minute_then_the_third_is_blocked() {
    let root = configured(|config| config.minute = 2);
    let mut store = FakeStore::new();

    let first = serve(&root, &mut store, None, NOW);
    assert!(first.allowed);
    assert_eq!(first.header("RateLimit-Remaining"), Some("1"));
    assert_eq!(first.header("RateLimit-Limit"), Some("2"));
    assert_eq!(first.header("X-RateLimit-Remaining-Minute"), Some("1"));
    assert_eq!(first.header("Retry-After"), None);
    assert_eq!(store.count(&minute_key("192.0.2.1")), Some(1));

    let second = serve(&root, &mut store, None, NOW + 5);
    assert!(second.allowed);
    assert_eq!(second.header("RateLimit-Remaining"), Some("0"));
    assert_eq!(store.count(&minute_key("192.0.2.1")), Some(2));

    let third = serve(&root, &mut store, None, NOW + 10);
    assert!(!third.allowed);
    assert_eq!(third.status, Some(429));
    assert_eq!(third.body.as_deref(), Some("Rust informs: API rate limit exceeded!"));
    assert_eq!(third.header("RateLimit-Remaining"), Some("0"));
    let retry_after: i64 = third.header("Retry-After").unwrap().parse().unwrap();
    assert_eq!(retry_after, 30);
    assert!(retry_after <= 60);
    assert_eq!(store.count(&minute_key("192.0.2.1")), Some(2));
}

#[test]
fn a_blocked_request_is_answered_as_configured() {
    let root = configured(|config| {
        config.minute = 0;
        config.error_code = 503;
        config.error_message = "slow down".to_string();
    });
    let mut store = FakeStore::new();
    let served = serve(&root, &mut store, None, NOW);
    assert!(!served.allowed);
    assert_eq!(served.status, Some(503));
    assert_eq!(served.body.as_deref(), Some("slow down"));
    assert_eq!(store.writes, 0);
}

#[test]
fn the_next_minute_starts_from_zero() {
    let root = configured(|config| config.minute = 1);
    let mut store = FakeStore::new();
    assert!(serve(&root, &mut store, None, NOW).allowed);
    assert!(!serve(&root, &mut store, None, NOW + 39).allowed);
    let later = serve(&root, &mut store, None, NOW + 40);
    assert!(later.allowed);
    assert_eq!(later.header("RateLimit-Reset"), Some("60"));
}

#[test]
fn identities_are_counted_apart() {
    let root = configured(|config| {
        config.minute = 1;
        config.limit_by = "header".to_string();
        config.header_name = "x-api-key".to_string();
    });
    let mut store = FakeStore::new();
    assert!(serve(&root, &mut store, Some("alice"), NOW).allowed);
    assert!(serve(&root, &mut store, Some("bob"), NOW).allowed);
    assert!(!serve(&root, &mut store, Some("alice"), NOW).allowed);
    assert!(serve(&root, &mut store, None, NOW).allowed);
    assert_eq!(store.count(&minute_key("alice")), Some(1));
    assert_eq!(store.count(&minute_key("bob")), Some(1));
    assert_eq!(store.count(&minute_key("192.0.2.1")), Some(1));
}

#[test]
fn disabled_windows_are_never_read_written_or_shown() {
    let root = configured(|config| config.hour = 10);
    let mut store = FakeStore::new();
    let served = serve(&root, &mut store, None, NOW);
    assert!(served.allowed);
    assert_eq!(store.reads, 1);
    assert_eq!(store.writes, 1);
    assert_eq!(store.cells.len(), 1);
    let names: Vec<&str> = served.headers.iter().map(|(name, _)| name.as_str()).collect();
    assert_eq!(
        names,
        vec![
            "X-RateLimit-Limit-Hour",
            "X-RateLimit-Remaining-Hour",
            "RateLimit-Limit",
            "RateLimit-Remaining",
            "RateLimit-Reset",
        ]
    );
}

#[test]
fn with_nothing_enforced_every_request_passes() {
    let root = configured(|_| {});
    let mut store = FakeStore::new();
    for _ in 0..5 {
        assert!(serve(&root, &mut store, None, NOW).allowed);
    }
    assert_eq!(store.reads, 0);
    assert_eq!(store.writes, 0);
}

#[test]
fn a_tolerated_store_fault_lets_every_request_pass_without_headers() {
    let root = configured(|config| {
        config.minute = 2;
        config.fault_tolerant = true;
    });
    let mut store = FakeStore::new();
    store.reads_fail = true;
    for _ in 0..5 {
        let served = serve(&root, &mut store, None, NOW);
        assert!(served.allowed);
        assert!(served.fatal.is_none());
        assert!(served.headers.is_empty());
    }
    assert_eq!(store.writes, 0);
}

#[test]
fn an_untolerated_store_fault_is_fatal() {
    let root = configured(|config| {
        config.minute = 2;
        config.fault_tolerant = false;
    });
    let mut store = FakeStore::new();
    store.reads_fail = true;
    let served = serve(&root, &mut store, None, NOW);
    assert!(!served.allowed);
    assert_eq!(served.fatal.as_deref(), Some("store unavailable"));
    assert!(served.status.is_none());
    assert!(served.headers.is_empty());
    assert_eq!(store.writes, 0);
}

#[test]
fn every_enforced_window_is_counted() {
    let root = configured(|config| {
        config.second = 10;
        config.minute = 10;
        config.hour = 10;
        config.day = 10;
        config.month = 10;
        config.year = 10;
    });
    let mut store = FakeStore::new();
    for _ in 0..3 {
        assert!(serve(&root, &mut store, None, NOW).allowed);
    }
    assert_eq!(store.cells.len(), 6);
    let ts = get_timestamps(&Instant::new(NOW, 0).unwrap());
    for kind in [
        WindowKind::Second,
        WindowKind::Minute,
        WindowKind::Hour,
        WindowKind::Day,
        WindowKind::Month,
        WindowKind::Year,
    ] {
        let key = get_local_key("route", "service", "192.0.2.1", kind, ts.start(kind));
        assert_eq!(store.count(&key), Some(3));
    }
}

#[test]
fn injected_conflicts_are_retried() {
    let root = configured(|config| config.minute = 5);
    let mut store = FakeStore::new();
    store.conflicts_to_inject = 3;
    let served = serve(&root, &mut store, None, NOW);
    assert!(served.allowed);
    assert!(served.failed.is_empty());
    assert_eq!(store.writes, 4);
    assert_eq!(store.count(&minute_key("192.0.2.1")), Some(1));
}

#[test]
fn an_increment_that_keeps_failing_is_given_up_and_reported() {
    let root = configured(|config| config.minute = 5);
    let mut store = FakeStore::new();
    store.conflicts_to_inject = 10;
    let served = serve(&root, &mut store, None, NOW);
    assert!(served.allowed);
    assert_eq!(served.failed, vec![WindowKind::Minute]);
    assert_eq!(store.writes, 10);
    assert_eq!(store.count(&minute_key("192.0.2.1")), None);
    let next = serve(&root, &mut store, None, NOW);
    assert!(next.allowed);
    assert_eq!(next.header("RateLimit-Remaining"), Some("4"));
}

#[test]
fn hidden_headers_still_tell_a_blocked_client_when_to_retry() {
    let root = configured(|config| {
        config.minute = 1;
        config.hide_client_headers = true;
    });
    let mut store = FakeStore::new();
    let first = serve(&root, &mut store, None, NOW);
    assert!(first.allowed);
    assert!(first.headers.is_empty());
    let second = serve(&root, &mut store, None, NOW);
    assert!(!second.allowed);
    assert_eq!(second.headers, vec![("Retry-After".to_string(), "40".to_string())]);
}
