//! The window clock: aligned window starts for an instant, in UTC.

use crate::calendar::{
    day_in_month, days_before_month, days_before_year, first_day_of_month,
    lemma_day_has_month, lemma_month_length, lemma_month_unique, lemma_year_length,
    lemma_years_increase, month_of_day, year_of_day,
};
use crate::window::{PerWindow, WindowKind};
use chrono::{DateTime, Datelike, Timelike, Utc};
use vstd::arithmetic::div_mod::{lemma_fundamental_div_mod, lemma_fundamental_div_mod_converse};
use vstd::prelude::*;

verus! {

/// Epoch second of the earliest instant the clock handles,
/// 1 January of year -262143 at midnight.
pub const MIN_EPOCH_SECONDS: i64 = -8334601228800;

/// Epoch second of the latest instant the clock handles,
/// the last second of year 262142.
pub const MAX_EPOCH_SECONDS: i64 = 8210266876799;

/// Whether the clock handles epoch second `t`.
pub open spec fn valid_epoch(t: int) -> bool {
    MIN_EPOCH_SECONDS <= t <= MAX_EPOCH_SECONDS
}

/// Day number of the day that holds epoch second `t`.
pub open spec fn epoch_day(t: int) -> int {
    t / 86400
}

/// Zero-based day of the month of epoch second `t`.
pub open spec fn day_of_month0(t: int) -> int {
    let day = epoch_day(t);
    day - first_day_of_month(year_of_day(day), month_of_day(day))
}

/// Start of the window of `kind` that holds epoch second `t`.
pub open spec fn truncate(t: int, kind: WindowKind) -> int {
    let day = epoch_day(t);
    match kind {
        WindowKind::Second => t,
        WindowKind::Minute => t - t % 60,
        WindowKind::Hour => t - t % 3600,
        WindowKind::Day => t - t % 86400,
        WindowKind::Month => 86400 * first_day_of_month(year_of_day(day), month_of_day(day)),
        WindowKind::Year => 86400 * days_before_year(year_of_day(day)),
    }
}

/// An instant of wall-clock time: whole seconds since the epoch and the
/// nanoseconds past them.
#[derive(Clone, Copy, Debug)]
pub struct Instant {
    pub seconds: i64,
    pub nanos: u32,
}

impl Instant {
    pub open spec fn wf(&self) -> bool {
        valid_epoch(self.seconds as int) && self.nanos < 1_000_000_000
    }

    /// The instant `nanos` nanoseconds after epoch second `seconds`, if
    /// the clock handles it.
    pub fn new(seconds: i64, nanos: u32) -> (instant: Option<Instant>)
        ensures
            instant is Some <==> valid_epoch(seconds as int) && nanos < 1_000_000_000,
            instant matches Some(i) ==> i.seconds == seconds && i.nanos == nanos && i.wf(),
    {
        if MIN_EPOCH_SECONDS <= seconds && seconds <= MAX_EPOCH_SECONDS && nanos < 1_000_000_000 {
            Some(Instant { seconds, nanos })
        } else {
            None
        }
    }
}

/// The current instant in whole seconds, and the aligned start of the
/// window of each kind that holds it.
#[derive(Debug)]
pub struct WindowBoundary {
    pub now: i64,
    pub starts: PerWindow<i64>,
}

impl WindowBoundary {
    pub open spec fn wf(&self) -> bool {
        &&& valid_epoch(self.now as int)
        &&& forall|kind: WindowKind| self.starts.at(kind) == truncate(self.now as int, kind)
    }

    /// Start of the current window of `kind`.
    pub fn start(&self, kind: WindowKind) -> (t: i64)
        ensures
            t == self.starts.at(kind),
    {
        *self.starts.get(kind)
    }
}

/// `chrono::DateTime::<Utc>::with_nanosecond`, on the instant that
/// `DateTime::from_timestamp(seconds, nanos)` makes and with the result
/// read back by `DateTime::timestamp`, as in the five functions below:
/// the whole second stays, whatever the nanoseconds become. Values
/// from a whole second on, which stand for a leap second, are left
/// out.
#[verifier::external_body]
fn with_nanosecond(seconds: i64, nanos: u32, nano: u32) -> (t: i64)
    requires
        valid_epoch(seconds as int),
        nanos < 1_000_000_000,
        nano < 1_000_000_000,
    ensures
        t == seconds,
{
    DateTime::<Utc>::from_timestamp(seconds, nanos)
        .unwrap()
        .with_nanosecond(nano)
        .unwrap()
        .timestamp()
}

/// `chrono::DateTime::<Utc>::with_second` on the whole second
/// `seconds`: the second of the minute becomes `second`, the minute
/// stays. Epoch seconds count no leap seconds, so minutes, hours and
/// days are 60, 3600 and 86400 of them.
#[verifier::external_body]
fn with_second(seconds: i64, second: u32) -> (t: i64)
    requires
        valid_epoch(seconds as int),
        second < 60,
    ensures
        t == seconds - seconds % 60 + second,
{
    DateTime::<Utc>::from_timestamp(seconds, 0).unwrap().with_second(second).unwrap().timestamp()
}

/// `chrono::DateTime::<Utc>::with_minute` on the whole second
/// `seconds`: the minute of the hour becomes `minute`, hour and second
/// stay.
#[verifier::external_body]
fn with_minute(seconds: i64, minute: u32) -> (t: i64)
    requires
        valid_epoch(seconds as int),
        minute < 60,
    ensures
        t == seconds - seconds % 3600 + 60 * minute + seconds % 60,
{
    DateTime::<Utc>::from_timestamp(seconds, 0).unwrap().with_minute(minute).unwrap().timestamp()
}

/// `chrono::DateTime::<Utc>::with_hour` on the whole second `seconds`:
/// the hour of the day becomes `hour`; day, minute and second stay.
#[verifier::external_body]
fn with_hour(seconds: i64, hour: u32) -> (t: i64)
    requires
        valid_epoch(seconds as int),
        hour < 24,
    ensures
        t == seconds - seconds % 86400 + 3600 * hour + seconds % 3600,
{
    DateTime::<Utc>::from_timestamp(seconds, 0).unwrap().with_hour(hour).unwrap().timestamp()
}

/// `chrono::DateTime::<Utc>::with_day` on the whole second `seconds`:
/// the day of the month becomes `day`; month and time of day stay,
/// months being those of the proleptic Gregorian calendar. Days past
/// the 28th are left out, as not every month has them.
#[verifier::external_body]
fn with_day(seconds: i64, day: u32) -> (t: i64)
    requires
        valid_epoch(seconds as int),
        1 <= day <= 28,
    ensures
        t == seconds + 86400 * (day - 1 - day_of_month0(seconds as int)),
{
    DateTime::<Utc>::from_timestamp(seconds, 0).unwrap().with_day(day).unwrap().timestamp()
}

/// `chrono::DateTime::<Utc>::with_month` on the whole second
/// `seconds`: the month becomes `month`; year, day of the month and
/// time of day stay. Instants past the 28th of a month are left out,
/// as not every month has such a day.
#[verifier::external_body]
fn with_month(seconds: i64, month: u32) -> (t: i64)
    requires
        valid_epoch(seconds as int),
        1 <= month <= 12,
        day_of_month0(seconds as int) < 28,
    ensures
        t == seconds + 86400 * (days_before_month(
            year_of_day(epoch_day(seconds as int)),
            month as int,
        ) - days_before_month(
            year_of_day(epoch_day(seconds as int)),
            month_of_day(epoch_day(seconds as int)),
        )),
{
    DateTime::<Utc>::from_timestamp(seconds, 0).unwrap().with_month(month).unwrap().timestamp()
}

/// Multiples of a day are aligned to days, hours and minutes.
proof fn lemma_day_multiple(x: int)
    ensures
        (86400 * x) % 86400 == 0,
        (86400 * x) % 3600 == 0,
        (86400 * x) % 60 == 0,
        (86400 * x) / 86400 == x,
{
}

/// Rounding down to a unit of `fine` seconds keeps what lies above a
/// unit of `fine * count` seconds, and rounding down to the larger
/// unit leaves a multiple of the smaller.
proof fn lemma_floor_units(t: int, fine: int, count: int)
    requires
        fine > 0,
        count > 0,
    ensures
        (t % (fine * count)) % fine == t % fine,
        (t - t % fine) % (fine * count) == t % (fine * count) - t % fine,
        (t - t % fine) / (fine * count) == t / (fine * count),
        (t - t % fine) % fine == 0,
        (t - t % (fine * count)) % fine == 0,
{
    let coarse = fine * count;
    assert(coarse > 0) by (nonlinear_arith)
        requires
            coarse == fine * count,
            fine > 0,
            count > 0,
    ;
    let q = t / coarse;
    let r = t % coarse;
    let q2 = r / fine;
    let r2 = r % fine;
    lemma_fundamental_div_mod(t, coarse);
    lemma_fundamental_div_mod(r, fine);
    assert(t == (count * q + q2) * fine + r2) by (nonlinear_arith)
        requires
            t == coarse * q + r,
            r == fine * q2 + r2,
            coarse == fine * count,
    ;
    lemma_fundamental_div_mod_converse(t, fine, count * q + q2, r2);
    assert(t - r2 == q * coarse + fine * q2) by (nonlinear_arith)
        requires
            t == coarse * q + r,
            r == fine * q2 + r2,
    ;
    assert(0 <= fine * q2 < coarse) by (nonlinear_arith)
        requires
            r == fine * q2 + r2,
            0 <= r < coarse,
            0 <= r2 < fine,
            fine > 0,
    ;
    lemma_fundamental_div_mod_converse(t - r2, coarse, q, fine * q2);
    lemma_fundamental_div_mod_converse(t - r2, fine, count * q + q2, 0);
    assert(t - r == (count * q) * fine + 0) by (nonlinear_arith)
        requires
            t == coarse * q + r,
            coarse == fine * count,
    ;
    lemma_fundamental_div_mod_converse(t - r, fine, count * q, 0);
}

/// How rounding down to minutes, hours and days acts on one another.
proof fn lemma_clock_floors(t: int)
    ensures
        (t - t % 60) % 60 == 0,
        (t - t % 3600) % 60 == 0,
        (t - t % 3600) % 3600 == 0,
        (t - t % 86400) % 60 == 0,
        (t - t % 86400) % 3600 == 0,
        (t - t % 86400) % 86400 == 0,
        (t - t % 60) / 86400 == t / 86400,
        (t - t % 3600) / 86400 == t / 86400,
        (t - t % 86400) / 86400 == t / 86400,
        (t - t % 60) % 3600 == t % 3600 - t % 60,
        (t - t % 60) % 86400 == t % 86400 - t % 60,
        (t - t % 3600) % 86400 == t % 86400 - t % 3600,
{
    lemma_floor_units(t, 60, 1);
    lemma_floor_units(t, 3600, 1);
    lemma_floor_units(t, 86400, 1);
    lemma_floor_units(t, 60, 60);
    lemma_floor_units(t, 60, 1440);
    lemma_floor_units(t, 3600, 24);
}

/// The first day of the month of `t` and the first day of its year,
/// with the day numbers that bound them.
proof fn lemma_calendar_starts(t: int)
    ensures
        truncate(t, WindowKind::Year) <= truncate(t, WindowKind::Month) <= truncate(
            t,
            WindowKind::Day,
        ),
        truncate(t, WindowKind::Day) - truncate(t, WindowKind::Month) <= 30 * 86400,
        truncate(t, WindowKind::Day) - truncate(t, WindowKind::Year) <= 365 * 86400,
        day_in_month(epoch_day(t), year_of_day(epoch_day(t)), month_of_day(epoch_day(t))),
        epoch_day(truncate(t, WindowKind::Month)) == first_day_of_month(
            year_of_day(epoch_day(t)),
            month_of_day(epoch_day(t)),
        ),
        epoch_day(truncate(t, WindowKind::Year)) == days_before_year(year_of_day(epoch_day(t))),
        year_of_day(epoch_day(truncate(t, WindowKind::Month))) == year_of_day(epoch_day(t)),
        month_of_day(epoch_day(truncate(t, WindowKind::Month))) == month_of_day(epoch_day(t)),
        year_of_day(epoch_day(truncate(t, WindowKind::Year))) == year_of_day(epoch_day(t)),
        month_of_day(epoch_day(truncate(t, WindowKind::Year))) == 1,
{
    let day = epoch_day(t);
    lemma_day_has_month(day);
    let year = year_of_day(day);
    let month = month_of_day(day);
    lemma_month_length(year, month);
    lemma_month_length(year, 1);
    lemma_year_length(year);
    lemma_fundamental_div_mod(t, 86400);
    lemma_day_multiple(first_day_of_month(year, month));
    lemma_day_multiple(days_before_year(year));
    lemma_month_unique(first_day_of_month(year, month), year, month);
    lemma_month_unique(days_before_year(year), year, 1);
}

/// A window start is never later than the instant it was taken from,
/// and less than the longest window of its kind before it.
pub proof fn lemma_truncate_never_later(t: int, kind: WindowKind)
    ensures
        truncate(t, kind) <= t,
        t - truncate(t, kind) < 366 * 86400,
        kind.spec_index() <= WindowKind::Day.spec_index() ==> t - truncate(t, kind)
            < kind.spec_duration(),
        kind == WindowKind::Month ==> t - truncate(t, kind) < 31 * 86400,
{
    lemma_calendar_starts(t);
}

/// The start of a window is the start of the window that holds it, and
/// of every finer window that holds it.
pub proof fn lemma_truncate_nested(t: int, coarse: WindowKind, fine: WindowKind)
    requires
        fine.spec_index() <= coarse.spec_index(),
    ensures
        truncate(truncate(t, coarse), fine) == truncate(t, coarse),
{
    let start = truncate(t, coarse);
    match coarse {
        WindowKind::Month | WindowKind::Year => {
            lemma_calendar_starts(t);
            lemma_day_multiple(epoch_day(start));
            let year = year_of_day(epoch_day(t));
            lemma_month_length(year, 1);
        },
        _ => {
            lemma_clock_floors(t);
        },
    }
}

/// Truncating to a window and then to a coarser one gives the start of
/// the coarser window.
pub proof fn lemma_truncate_coarser(t: int, fine: WindowKind, coarse: WindowKind)
    requires
        fine.spec_index() <= coarse.spec_index(),
    ensures
        truncate(truncate(t, fine), coarse) == truncate(t, coarse),
{
    match fine {
        WindowKind::Month | WindowKind::Year => {
            lemma_calendar_starts(t);
            let year = year_of_day(epoch_day(t));
            lemma_month_length(year, 1);
        },
        _ => {
            lemma_clock_floors(t);
            lemma_floor_units(t, 60, 60);
            lemma_floor_units(t, 60, 1440);
            lemma_floor_units(t, 3600, 24);
        },
    }
}

/// Truncating twice to the same window changes nothing the second time.
pub proof fn lemma_truncate_idempotent(t: int, kind: WindowKind)
    ensures
        truncate(truncate(t, kind), kind) == truncate(t, kind),
{
    lemma_truncate_nested(t, kind, kind);
}

/// Truncating to a coarser window and then to a finer one never gives
/// a later instant than the one started from.
pub proof fn lemma_truncate_coarse_then_fine(t: int, coarse: WindowKind, fine: WindowKind)
    requires
        fine.spec_index() <= coarse.spec_index(),
    ensures
        truncate(truncate(t, coarse), fine) <= t,
{
    lemma_truncate_nested(t, coarse, fine);
    lemma_truncate_never_later(t, coarse);
}

/// A coarser window starts no later than a finer one.
pub proof fn lemma_truncate_ordered(t: int, fine: WindowKind, coarse: WindowKind)
    requires
        fine.spec_index() <= coarse.spec_index(),
    ensures
        truncate(t, coarse) <= truncate(t, fine),
{
    lemma_truncate_coarser(t, fine, coarse);
    lemma_truncate_never_later(truncate(t, fine), coarse);
}

/// Window starts of instants the clock handles are instants it handles.
pub proof fn lemma_truncate_stays_valid(t: int, kind: WindowKind)
    requires
        valid_epoch(t),
    ensures
        valid_epoch(truncate(t, kind)),
{
    lemma_truncate_never_later(t, kind);
    lemma_truncate_ordered(t, kind, WindowKind::Year);
    let day = epoch_day(t);
    lemma_day_has_month(day);
    let year = year_of_day(day);
    assert(days_before_year(-262143) * 86400 == MIN_EPOCH_SECONDS);
    if year < -262143 {
        lemma_years_increase(year + 1, -262143);
    }
}

/// The window starts for the instant `now`: each the start of the
/// window of its kind that holds `now`, in UTC.
pub fn get_timestamps(now: &Instant) -> (ts: WindowBoundary)
    requires
        now.wf(),
    ensures
        ts.wf(),
        ts.now == now.seconds,
{
    let ghost t = now.seconds as int;
    proof {
        lemma_truncate_stays_valid(t, WindowKind::Minute);
        lemma_truncate_stays_valid(t, WindowKind::Hour);
        lemma_truncate_stays_valid(t, WindowKind::Day);
        lemma_truncate_stays_valid(t, WindowKind::Month);
        lemma_clock_floors(t);
    }
    let second: i64 = with_nanosecond(now.seconds, now.nanos, 0);
    let minute: i64 = with_second(second, 0);
    let hour: i64 = with_minute(minute, 0);
    let day: i64 = with_hour(hour, 0);
    proof {
        lemma_truncate_coarser(t, WindowKind::Day, WindowKind::Month);
        lemma_calendar_starts(day as int);
    }
    let month: i64 = with_day(day, 1);
    assert(month == truncate(t, WindowKind::Month)) by {
        lemma_floor_units(t, 86400, 1);
        lemma_day_multiple(epoch_day(t));
        lemma_fundamental_div_mod(day as int, 86400);
    }
    proof {
        lemma_calendar_starts(t);
    }
    let year: i64 = with_month(month, 1);
    WindowBoundary {
        now: now.seconds,
        starts: PerWindow { second, minute, hour, day, month, year },
    }
}

} // verus!
