use rate_limiting::window::{PerWindow, WindowKind, WINDOW_COUNT};

const KINDS: [WindowKind; 6] = [
    WindowKind::Second,
    WindowKind::Minute,
    WindowKind::Hour,
    WindowKind::Day,
    WindowKind::Month,
    WindowKind::Year,
];

#[test]
fn durations_of_the_six_kinds() {
    let seconds: Vec<i64> = KINDS.iter().map(|kind| kind.duration()).collect();
    assert_eq!(seconds, vec![1, 60, 3_600, 86_400, 2_592_000, 31_536_000]);
}

#[test]
fn names_of_the_six_kinds() {
    let names: Vec<&str> = KINDS.iter().map(|kind| kind.name()).collect();
    assert_eq!(names, vec!["second", "minute", "hour", "day", "month", "year"]);
}

#[test]
fn header_names_of_the_six_kinds() {
    let limits: Vec<&str> = KINDS.iter().map(|kind| kind.limit_header()).collect();
    assert_eq!(
        limits,
        vec![
            "X-RateLimit-Limit-Second",
            "X-RateLimit-Limit-Minute",
            "X-RateLimit-Limit-Hour",
            "X-RateLimit-Limit-Day",
            "X-RateLimit-Limit-Month",
            "X-RateLimit-Limit-Year",
        ]
    );
    let remaining: Vec<&str> = KINDS.iter().map(|kind| kind.remaining_header()).collect();
    assert_eq!(
        remaining,
        vec![
            "X-RateLimit-Remaining-Second",
            "X-RateLimit-Remaining-Minute",
            "X-RateLimit-Remaining-Hour",
            "X-RateLimit-Remaining-Day",
            "X-RateLimit-Remaining-Month",
            "X-RateLimit-Remaining-Year",
        ]
    );
}

#[test]
fn positions_run_from_finest_to_coarsest() {
    assert_eq!(WINDOW_COUNT, 6);
    for (position, kind) in KINDS.iter().enumerate() {
        assert_eq!(kind.index(), position);
        assert_eq!(WindowKind::from_index(position), *kind);
    }
}

#[test]
fn a_value_per_window_is_read_and_set_by_kind() {
    let mut values: PerWindow<i32> = PerWindow::filled(-1);
    for kind in KINDS {
        assert_eq!(*values.get(kind), -1);
    }
    values.set(WindowKind::Hour, 12);
    values.set(WindowKind::Year, 99);
    assert_eq!(values.hour, 12);
    assert_eq!(*values.get(WindowKind::Hour), 12);
    assert_eq!(*values.get(WindowKind::Year), 99);
    assert_eq!(*values.get(WindowKind::Day), -1);
    let copy = values;
    assert_eq!(copy.year, 99);
}
