use rate_limiting::increment::{
    Increment, IncrementStep, Retry, RetryPhase, RetryStep, MAX_ATTEMPTS,
};
use rate_limiting::store::CasOutcome;
use rate_limiting::usage::{Usage, UsageMap};
use rate_limiting::window::{PerWindow, WindowKind};

fn write_of(retry: &Retry) -> (i32, Option<u32>) {
    match retry.step() {
        RetryStep::Write { value, cas } => (value, cas),
        other => panic!("expected a write, found {:?}", other),
    }
}

#[test]
fn the_first_write_is_one_more_than_was_read() {
    let retry = Retry::begin(5, Some(3));
    assert_eq!(write_of(&retry), (6, Some(3)));
    let fresh = Retry::begin(0, None);
    assert_eq!(write_of(&fresh), (1, None));
}

#[test]
fn a_stored_write_ends_the_increment() {
    let mut retry = Retry::begin(5, Some(3));
    retry.written(CasOutcome::Stored);
    assert!(retry.finished());
    assert_eq!(retry.phase, RetryPhase::Stored);
    assert!(matches!(retry.step(), RetryStep::Done { saved: true }));
    assert_eq!(retry.attempts, 0);
}

#[test]
fn a_conflict_leads_to_a_fresh_read_and_a_new_write() {
    let mut retry = Retry::begin(5, Some(3));
    retry.written(CasOutcome::VersionConflict);
    assert!(matches!(retry.step(), RetryStep::Read));
    assert_eq!(retry.attempts, 1);
    retry.reread(Ok((9, Some(8))));
    assert_eq!(write_of(&retry), (10, Some(8)));
    retry.written(CasOutcome::Stored);
    assert!(matches!(retry.step(), RetryStep::Done { saved: true }));
}

#[test]
fn a_fresh_read_of_a_missing_counter_starts_from_zero() {
    let mut retry = Retry::begin(5, Some(3));
    retry.written(CasOutcome::VersionConflict);
    retry.reread(Ok((0, None)));
    assert_eq!(write_of(&retry), (1, None));
}

#[test]
fn a_failed_read_keeps_what_was_known() {
    let mut retry = Retry::begin(5, Some(3));
    retry.written(CasOutcome::VersionConflict);
    retry.reread(Err("no answer".to_string()));
    assert_eq!(write_of(&retry), (6, Some(3)));
    assert_eq!(retry.attempts, 1);
}

#[test]
fn another_failure_repeats_the_write() {
    let mut retry = Retry::begin(5, Some(3));
    retry.written(CasOutcome::OtherError);
    assert_eq!(write_of(&retry), (6, Some(3)));
    assert_eq!(retry.attempts, 1);
    assert!(!retry.finished());
}

#[test]
fn the_increment_is_given_up_after_ten_attempts() {
    assert_eq!(MAX_ATTEMPTS, 10);
    let mut retry = Retry::begin(0, None);
    let mut writes = 0;
    let mut reads = 0;
    loop {
        match retry.step() {
            RetryStep::Write { .. } => {
                writes += 1;
                retry.written(CasOutcome::VersionConflict);
            }
            RetryStep::Read => {
                reads += 1;
                retry.reread(Ok((writes, Some(writes as u32))));
            }
            RetryStep::Done { saved } => {
                assert!(!saved);
                break;
            }
        }
    }
    assert_eq!(writes, 10);
    assert_eq!(reads, 9);
    assert_eq!(retry.phase, RetryPhase::GaveUp);
    assert_eq!(retry.attempts, 10);
}

#[test]
fn ten_other_failures_give_up_too() {
    let mut retry = Retry::begin(3, Some(1));
    for _ in 0..9 {
        retry.written(CasOutcome::OtherError);
        assert_eq!(write_of(&retry), (4, Some(1)));
    }
    retry.written(CasOutcome::OtherError);
    assert!(matches!(retry.step(), RetryStep::Done { saved: false }));
}

#[test]
fn the_tenth_attempt_can_still_be_stored() {
    let mut retry = Retry::begin(3, Some(1));
    for _ in 0..9 {
        retry.written(CasOutcome::OtherError);
    }
    retry.written(CasOutcome::Stored);
    assert!(matches!(retry.step(), RetryStep::Done { saved: true }));
}

#[test]
fn answers_out_of_turn_change_nothing() {
    let mut retry = Retry::begin(5, Some(3));
    retry.reread(Ok((50, Some(30))));
    assert_eq!(write_of(&retry), (6, Some(3)));
    retry.written(CasOutcome::Stored);
    retry.written(CasOutcome::VersionConflict);
    retry.reread(Ok((50, Some(30))));
    assert_eq!(retry.phase, RetryPhase::Stored);
    assert_eq!(retry.attempts, 0);
}

#[test]
fn a_full_counter_stays_full() {
    let retry = Retry::begin(i32::MAX, Some(3));
    assert_eq!(write_of(&retry), (i32::MAX, Some(3)));
    let almost = Retry::begin(i32::MAX - 1, Some(3));
    assert_eq!(write_of(&almost), (i32::MAX, Some(3)));
}

fn counters(entries: &[(WindowKind, i32, i32, Option<u32>)]) -> UsageMap {
    let mut counters: UsageMap = PerWindow::filled(None);
    for (kind, limit, used, cas) in entries {
        counters.set(*kind, Some(Usage::new(*limit, *used, *cas)));
    }
    counters
}

#[test]
fn each_evaluated_window_is_incremented_in_turn() {
    let counters = counters(&[
        (WindowKind::Minute, 10, 4, Some(2)),
        (WindowKind::Day, 100, 0, None),
    ]);
    let mut increment = Increment::begin(&counters);
    match increment.step() {
        IncrementStep::Write { kind, value, cas } => {
            assert_eq!((kind, value, cas), (WindowKind::Minute, 5, Some(2)))
        }
        other => panic!("unexpected {:?}", other),
    }
    increment.written(CasOutcome::Stored);
    match increment.step() {
        IncrementStep::Write { kind, value, cas } => {
            assert_eq!((kind, value, cas), (WindowKind::Day, 1, None))
        }
        other => panic!("unexpected {:?}", other),
    }
    increment.written(CasOutcome::Stored);
    assert!(matches!(increment.step(), IncrementStep::Done));
    assert!(!increment.failed.minute);
    assert!(!increment.failed.day);
}

#[test]
fn without_counters_there_is_nothing_to_increment() {
    let increment = Increment::begin(&PerWindow::filled(None));
    assert!(matches!(increment.step(), IncrementStep::Done));
}

#[test]
fn a_window_that_is_given_up_is_marked_and_the_next_goes_on() {
    let counters = counters(&[
        (WindowKind::Second, 10, 1, Some(1)),
        (WindowKind::Hour, 10, 2, Some(1)),
    ]);
    let mut increment = Increment::begin(&counters);
    let mut writes_to_second = 0;
    loop {
        match increment.step() {
            IncrementStep::Write { kind: WindowKind::Second, .. } => {
                writes_to_second += 1;
                increment.written(CasOutcome::VersionConflict);
            }
            IncrementStep::Read { kind } => {
                assert_eq!(kind, WindowKind::Second);
                increment.reread(Ok((1, Some(1))));
            }
            IncrementStep::Write { kind, value, cas } => {
                assert_eq!((kind, value, cas), (WindowKind::Hour, 3, Some(1)));
                increment.written(CasOutcome::Stored);
            }
            IncrementStep::Done => break,
        }
    }
    assert_eq!(writes_to_second, 10);
    assert!(increment.failed.second);
    assert!(!increment.failed.hour);
    assert!(!increment.failed.minute);
}

struct Counter {
    value: i32,
    version: u32,
}

impl Counter {
    fn read(&self) -> Result<(i32, Option<u32>), String> {
        if self.version == 0 {
            Ok((0, None))
        } else {
            Ok((self.value, Some(self.version)))
        }
    }

    fn write(&mut self, value: i32, cas: Option<u32>) -> CasOutcome {
        let current = if self.version == 0 { None } else { Some(self.version) };
        if cas == current {
            self.value = value;
            self.version += 1;
            CasOutcome::Stored
        } else {
            CasOutcome::VersionConflict
        }
    }
}

struct Dice(u64);

impl Dice {
    fn roll(&mut self, sides: u64) -> u64 {
        self.0 = self.0.wrapping_mul(6364136223846793005).wrapping_add(1442695040888963407);
        (self.0 >> 33) % sides
    }
}

#[test]
fn interleaved_increments_lose_no_update() {
    for seed in 0..200u64 {
        let mut dice = Dice(seed);
        let requests = 2 + dice.roll(7) as usize;
        let mut counter = Counter { value: 0, version: 0 };
        let mut sessions: Vec<Option<Retry>> = vec![None; requests];
        let mut stored = 0;
        let mut running = requests;
        while running > 0 {
            let i = dice.roll(requests as u64) as usize;
            let injected = dice.roll(5) == 0;
            match &mut sessions[i] {
                None => {
                    let (value, cas) = counter.read().unwrap();
                    sessions[i] = Some(Retry::begin(value, cas));
                }
                Some(retry) => match retry.step() {
                    RetryStep::Write { value, cas } => {
                        let outcome = if injected {
                            CasOutcome::VersionConflict
                        } else {
                            counter.write(value, cas)
                        };
                        retry.written(outcome);
                        if retry.finished() {
                            running -= 1;
                            if retry.phase == RetryPhase::Stored {
                                stored += 1;
                            }
                        }
                    }
                    RetryStep::Read => retry.reread(counter.read()),
                    RetryStep::Done { .. } => {}
                },
            }
            assert_eq!(counter.value, stored);
        }
        assert_eq!(counter.value, stored);
    }
}

#[test]
fn every_request_is_counted_when_the_store_injects_nothing() {
    for seed in 0..200u64 {
        let mut dice = Dice(seed ^ 0x5eed);
        let requests = 1 + dice.roll(9) as usize;
        let mut counter = Counter { value: 0, version: 0 };
        let mut sessions: Vec<Option<Retry>> = vec![None; requests];
        let mut running = requests;
        while running > 0 {
            let i = dice.roll(requests as u64) as usize;
            match &mut sessions[i] {
                None => {
                    let (value, cas) = counter.read().unwrap();
                    sessions[i] = Some(Retry::begin(value, cas));
                }
                Some(retry) => match retry.step() {
                    RetryStep::Write { value, cas } => {
                        retry.written(counter.write(value, cas));
                        if retry.finished() {
                            assert_eq!(retry.phase, RetryPhase::Stored);
                            running -= 1;
                        }
                    }
                    RetryStep::Read => retry.reread(counter.read()),
                    RetryStep::Done { .. } => {}
                },
            }
        }
        assert_eq!(counter.value as usize, requests);
    }
}
