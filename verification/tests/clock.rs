use rate_limiting::clock::{
    get_timestamps, Instant, WindowBoundary, MAX_EPOCH_SECONDS, MIN_EPOCH_SECONDS,
};
use rate_limiting::window::WindowKind;

const KINDS: [WindowKind; 6] = [
    WindowKind::Second,
    WindowKind::Minute,
    WindowKind::Hour,
    WindowKind::Day,
    WindowKind::Month,
    WindowKind::Year,
];

fn boundary(seconds: i64) -> WindowBoundary {
    get_timestamps(&Instant::new(seconds, 0).unwrap())
}

fn starts(seconds: i64) -> [i64; 6] {
    let ts = boundary(seconds);
    [
        ts.start(WindowKind::Second),
        ts.start(WindowKind::Minute),
        ts.start(WindowKind::Hour),
        ts.start(WindowKind::Day),
        ts.start(WindowKind::Month),
        ts.start(WindowKind::Year),
    ]
}

#[test]
fn window_starts_of_a_known_instant() {
    // 2023-11-14 22:13:20 UTC
    let now = Instant::new(1_700_000_000, 123_456_789).unwrap();
    let ts = get_timestamps(&now);
    assert_eq!(ts.now, 1_700_000_000);
    assert_eq!(ts.start(WindowKind::Second), 1_700_000_000);
    assert_eq!(ts.start(WindowKind::Minute), 1_699_999_980);
    assert_eq!(ts.start(WindowKind::Hour), 1_699_999_200);
    assert_eq!(ts.start(WindowKind::Day), 1_699_920_000);
    assert_eq!(ts.start(WindowKind::Month), 1_698_796_800);
    assert_eq!(ts.start(WindowKind::Year), 1_672_531_200);
}

#[test]
fn sub_second_precision_is_dropped() {
    let whole = get_timestamps(&Instant::new(1_700_000_000, 0).unwrap());
    let late = get_timestamps(&Instant::new(1_700_000_000, 999_999_999).unwrap());
    assert_eq!(whole.now, late.now);
    for kind in KINDS {
        assert_eq!(whole.start(kind), late.start(kind));
    }
}

#[test]
fn window_starts_on_a_leap_day() {
    // 2024-02-29 13:45:59 UTC
    assert_eq!(
        starts(1_709_214_359),
        [1_709_214_359, 1_709_214_300, 1_709_211_600, 1_709_164_800, 1_706_745_600, 1_704_067_200]
    );
}

#[test]
fn window_starts_on_the_last_second_of_a_leap_year() {
    // 2024-12-31 23:59:59 UTC
    let found = starts(1_735_689_599);
    assert_eq!(found[3], 1_735_603_200);
    assert_eq!(found[4], 1_733_011_200);
    assert_eq!(found[5], 1_704_067_200);
}

#[test]
fn window_starts_before_the_epoch() {
    // 1969-12-31 23:59:59 UTC
    assert_eq!(starts(-1), [-1, -60, -3_600, -86_400, -2_678_400, -31_536_000]);
}

#[test]
fn century_years_are_leap_only_every_fourth() {
    // 1900-03-01 00:00:01 UTC, in a year without a leap day
    let found = starts(-2_203_891_199);
    assert_eq!(found[3], -2_203_891_200);
    assert_eq!(found[4], -2_203_891_200);
    assert_eq!(found[5], -2_208_988_800);
    assert_eq!((found[4] - found[5]) / 86_400, 59);
    // 2000-03-01 05:00:00 UTC, in a year with one
    let found = starts(951_886_800);
    assert_eq!(found[4], 951_868_800);
    assert_eq!(found[5], 946_684_800);
    assert_eq!((found[4] - found[5]) / 86_400, 60);
}

#[test]
fn window_starts_at_the_ends_of_the_range() {
    let first = get_timestamps(&Instant::new(MIN_EPOCH_SECONDS, 0).unwrap());
    assert_eq!(first.start(WindowKind::Year), MIN_EPOCH_SECONDS);
    assert_eq!(first.start(WindowKind::Month), MIN_EPOCH_SECONDS);
    let last = get_timestamps(&Instant::new(MAX_EPOCH_SECONDS, 999_999_999).unwrap());
    assert_eq!(last.start(WindowKind::Second), MAX_EPOCH_SECONDS);
    assert_eq!(last.start(WindowKind::Day), MAX_EPOCH_SECONDS - 86_399);
    assert_eq!(last.start(WindowKind::Month), MAX_EPOCH_SECONDS - 31 * 86_400 + 1);
    assert_eq!(last.start(WindowKind::Year), MAX_EPOCH_SECONDS - 365 * 86_400 + 1);
}

#[test]
fn instants_outside_the_range_are_refused() {
    assert!(Instant::new(MIN_EPOCH_SECONDS, 0).is_some());
    assert!(Instant::new(MAX_EPOCH_SECONDS, 999_999_999).is_some());
    assert!(Instant::new(MIN_EPOCH_SECONDS - 1, 0).is_none());
    assert!(Instant::new(MAX_EPOCH_SECONDS + 1, 0).is_none());
    assert!(Instant::new(0, 1_000_000_000).is_none());
    assert!(Instant::new(i64::MIN, 0).is_none());
    assert!(Instant::new(i64::MAX, 0).is_none());
}

#[test]
fn truncation_is_idempotent_and_nested() {
    for now in [1_700_000_000i64, 1_709_214_359, -1, 0, 951_886_800, -2_203_891_199] {
        let first = starts(now);
        for coarse in 0..6 {
            let again = starts(first[coarse]);
            for fine in 0..=coarse {
                assert_eq!(again[fine], first[coarse]);
            }
            for coarser in coarse..6 {
                assert_eq!(again[coarser], first[coarser]);
            }
        }
    }
}

#[test]
fn truncating_to_the_day_then_the_hour_gives_the_day() {
    let day = boundary(1_700_000_000).start(WindowKind::Day);
    assert_eq!(boundary(day).start(WindowKind::Hour), day);
    assert_eq!(day, 1_699_920_000);
}

#[test]
fn coarser_windows_start_no_later() {
    for now in [1_700_000_000i64, 1_709_214_359, -1, 0, MIN_EPOCH_SECONDS, MAX_EPOCH_SECONDS] {
        let found = starts(now);
        assert!(found[0] <= now);
        for i in 1..6 {
            assert!(found[i] <= found[i - 1]);
        }
        assert!(now - found[4] < 31 * 86_400);
        assert!(now - found[5] < 366 * 86_400);
    }
}
