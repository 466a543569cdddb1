//! The six window kinds and their constant tables.

use vstd::prelude::*;

verus! {

/// One of the six fixed granularities over which usage is tracked.
#[derive(Clone, Copy, Debug, PartialEq, Eq, Structural, Hash)]
pub enum WindowKind {
    Second,
    Minute,
    Hour,
    Day,
    Month,
    Year,
}

/// Number of window kinds.
pub const WINDOW_COUNT: usize = 6;

impl WindowKind {
    /// Position of the kind in evaluation order, finest first.
    pub open spec fn spec_index(self) -> int {
        match self {
            WindowKind::Second => 0,
            WindowKind::Minute => 1,
            WindowKind::Hour => 2,
            WindowKind::Day => 3,
            WindowKind::Month => 4,
            WindowKind::Year => 5,
        }
    }

    /// The kind at a position of the evaluation order.
    pub open spec fn spec_from_index(i: int) -> WindowKind {
        if i == 0 {
            WindowKind::Second
        } else if i == 1 {
            WindowKind::Minute
        } else if i == 2 {
            WindowKind::Hour
        } else if i == 3 {
            WindowKind::Day
        } else if i == 4 {
            WindowKind::Month
        } else {
            WindowKind::Year
        }
    }

    /// Nominal length of a window of this kind, in seconds.
    pub open spec fn spec_duration(self) -> int {
        match self {
            WindowKind::Second => 1,
            WindowKind::Minute => 60,
            WindowKind::Hour => 3600,
            WindowKind::Day => 86400,
            WindowKind::Month => 2592000,
            WindowKind::Year => 31536000,
        }
    }

    /// Lower-case name of the kind, as it appears in counter keys.
    pub open spec fn spec_name(self) -> Seq<char> {
        match self {
            WindowKind::Second => "second"@,
            WindowKind::Minute => "minute"@,
            WindowKind::Hour => "hour"@,
            WindowKind::Day => "day"@,
            WindowKind::Month => "month"@,
            WindowKind::Year => "year"@,
        }
    }

    /// Name of the per-window header that carries the limit.
    pub open spec fn spec_limit_header(self) -> Seq<char> {
        match self {
            WindowKind::Second => "X-RateLimit-Limit-Second"@,
            WindowKind::Minute => "X-RateLimit-Limit-Minute"@,
            WindowKind::Hour => "X-RateLimit-Limit-Hour"@,
            WindowKind::Day => "X-RateLimit-Limit-Day"@,
            WindowKind::Month => "X-RateLimit-Limit-Month"@,
            WindowKind::Year => "X-RateLimit-Limit-Year"@,
        }
    }

    /// Name of the per-window header that carries the remaining capacity.
    pub open spec fn spec_remaining_header(self) -> Seq<char> {
        match self {
            WindowKind::Second => "X-RateLimit-Remaining-Second"@,
            WindowKind::Minute => "X-RateLimit-Remaining-Minute"@,
            WindowKind::Hour => "X-RateLimit-Remaining-Hour"@,
            WindowKind::Day => "X-RateLimit-Remaining-Day"@,
            WindowKind::Month => "X-RateLimit-Remaining-Month"@,
            WindowKind::Year => "X-RateLimit-Remaining-Year"@,
        }
    }

    pub fn index(self) -> (i: usize)
        ensures
            i == self.spec_index(),
            i < WINDOW_COUNT,
    {
        match self {
            WindowKind::Second => 0,
            WindowKind::Minute => 1,
            WindowKind::Hour => 2,
            WindowKind::Day => 3,
            WindowKind::Month => 4,
            WindowKind::Year => 5,
        }
    }

    /// The kind at position `i` of the evaluation order.
    pub fn from_index(i: usize) -> (kind: WindowKind)
        requires
            i < WINDOW_COUNT,
        ensures
            kind == Self::spec_from_index(i as int),
            kind.spec_index() == i,
    {
        if i == 0 {
            WindowKind::Second
        } else if i == 1 {
            WindowKind::Minute
        } else if i == 2 {
            WindowKind::Hour
        } else if i == 3 {
            WindowKind::Day
        } else if i == 4 {
            WindowKind::Month
        } else {
            WindowKind::Year
        }
    }

    pub fn duration(self) -> (seconds: i64)
        ensures
            seconds == self.spec_duration(),
    {
        match self {
            WindowKind::Second => 1,
            WindowKind::Minute => 60,
            WindowKind::Hour => 3600,
            WindowKind::Day => 86400,
            WindowKind::Month => 2592000,
            WindowKind::Year => 31536000,
        }
    }

    pub fn name(self) -> (text: &'static str)
        ensures
            text@ == self.spec_name(),
    {
        match self {
            WindowKind::Second => "second",
            WindowKind::Minute => "minute",
            WindowKind::Hour => "hour",
            WindowKind::Day => "day",
            WindowKind::Month => "month",
            WindowKind::Year => "year",
        }
    }

    pub fn limit_header(self) -> (text: &'static str)
        ensures
            text@ == self.spec_limit_header(),
    {
        match self {
            WindowKind::Second => "X-RateLimit-Limit-Second",
            WindowKind::Minute => "X-RateLimit-Limit-Minute",
            WindowKind::Hour => "X-RateLimit-Limit-Hour",
            WindowKind::Day => "X-RateLimit-Limit-Day",
            WindowKind::Month => "X-RateLimit-Limit-Month",
            WindowKind::Year => "X-RateLimit-Limit-Year",
        }
    }

    pub fn remaining_header(self) -> (text: &'static str)
        ensures
            text@ == self.spec_remaining_header(),
    {
        match self {
            WindowKind::Second => "X-RateLimit-Remaining-Second",
            WindowKind::Minute => "X-RateLimit-Remaining-Minute",
            WindowKind::Hour => "X-RateLimit-Remaining-Hour",
            WindowKind::Day => "X-RateLimit-Remaining-Day",
            WindowKind::Month => "X-RateLimit-Remaining-Month",
            WindowKind::Year => "X-RateLimit-Remaining-Year",
        }
    }
}

/// Distinct kinds have distinct durations, and a coarser kind has the
/// longer one.
pub proof fn lemma_duration_orders_kinds(a: WindowKind, b: WindowKind)
    ensures
        a.spec_index() < b.spec_index() <==> a.spec_duration() < b.spec_duration(),
        a.spec_duration() == b.spec_duration() <==> a == b,
{
}

/// The names of the kinds are six different words of lower-case
/// letters.
pub proof fn lemma_names_differ(a: WindowKind, b: WindowKind)
    ensures
        a.spec_name() == b.spec_name() ==> a == b,
        forall|i: int| 0 <= i < a.spec_name().len() ==> #[trigger] a.spec_name()[i] != ':',
{
    reveal_strlit("second");
    reveal_strlit("minute");
    reveal_strlit("hour");
    reveal_strlit("day");
    reveal_strlit("month");
    reveal_strlit("year");
    if a.spec_name() == b.spec_name() {
        assert(a.spec_name()[0] == b.spec_name()[0]);
        assert(a.spec_name()[1] == b.spec_name()[1]);
    }
}

/// The header names of the kinds are twelve different names, which
/// start with `X-RateLimit-`.
pub proof fn lemma_header_names_differ(a: WindowKind, b: WindowKind)
    ensures
        a.spec_limit_header() != b.spec_remaining_header(),
        a.spec_limit_header() == b.spec_limit_header() ==> a == b,
        a.spec_remaining_header() == b.spec_remaining_header() ==> a == b,
        a.spec_limit_header().len() > 0 && a.spec_limit_header()[0] == 'X',
        a.spec_remaining_header().len() > 0 && a.spec_remaining_header()[0] == 'X',
{
    reveal_strlit("X-RateLimit-Limit-Second");
    reveal_strlit("X-RateLimit-Limit-Minute");
    reveal_strlit("X-RateLimit-Limit-Hour");
    reveal_strlit("X-RateLimit-Limit-Day");
    reveal_strlit("X-RateLimit-Limit-Month");
    reveal_strlit("X-RateLimit-Limit-Year");
    reveal_strlit("X-RateLimit-Remaining-Second");
    reveal_strlit("X-RateLimit-Remaining-Minute");
    reveal_strlit("X-RateLimit-Remaining-Hour");
    reveal_strlit("X-RateLimit-Remaining-Day");
    reveal_strlit("X-RateLimit-Remaining-Month");
    reveal_strlit("X-RateLimit-Remaining-Year");
    if a.spec_limit_header() == b.spec_remaining_header() {
        assert(a.spec_limit_header()[12] == b.spec_remaining_header()[12]);
    }
    if a.spec_limit_header() == b.spec_limit_header() {
        assert(a.spec_limit_header()[18] == b.spec_limit_header()[18]);
        assert(a.spec_limit_header()[19] == b.spec_limit_header()[19]);
    }
    if a.spec_remaining_header() == b.spec_remaining_header() {
        assert(a.spec_remaining_header()[22] == b.spec_remaining_header()[22]);
        assert(a.spec_remaining_header()[23] == b.spec_remaining_header()[23]);
    }
}

/// One value of type `T` for each window kind.
#[derive(Debug)]
pub struct PerWindow<T> {
    pub second: T,
    pub minute: T,
    pub hour: T,
    pub day: T,
    pub month: T,
    pub year: T,
}

impl<T: Copy> Clone for PerWindow<T> {
    fn clone(&self) -> (copy: Self)
        ensures
            copy == *self,
    {
        *self
    }
}

impl<T: Copy> Copy for PerWindow<T> {

}

impl<T> PerWindow<T> {
    /// The value held for `kind`.
    pub open spec fn at(self, kind: WindowKind) -> T {
        match kind {
            WindowKind::Second => self.second,
            WindowKind::Minute => self.minute,
            WindowKind::Hour => self.hour,
            WindowKind::Day => self.day,
            WindowKind::Month => self.month,
            WindowKind::Year => self.year,
        }
    }

    pub fn get(&self, kind: WindowKind) -> (value: &T)
        ensures
            *value == self.at(kind),
    {
        match kind {
            WindowKind::Second => &self.second,
            WindowKind::Minute => &self.minute,
            WindowKind::Hour => &self.hour,
            WindowKind::Day => &self.day,
            WindowKind::Month => &self.month,
            WindowKind::Year => &self.year,
        }
    }

    /// The same values but for `kind`, which gets `value`.
    pub open spec fn with(self, kind: WindowKind, value: T) -> Self {
        PerWindow {
            second: if kind == WindowKind::Second {
                value
            } else {
                self.second
            },
            minute: if kind == WindowKind::Minute {
                value
            } else {
                self.minute
            },
            hour: if kind == WindowKind::Hour {
                value
            } else {
                self.hour
            },
            day: if kind == WindowKind::Day {
                value
            } else {
                self.day
            },
            month: if kind == WindowKind::Month {
                value
            } else {
                self.month
            },
            year: if kind == WindowKind::Year {
                value
            } else {
                self.year
            },
        }
    }

    /// A value for every kind, the same for all.
    pub open spec fn spec_filled(value: T) -> Self {
        PerWindow {
            second: value,
            minute: value,
            hour: value,
            day: value,
            month: value,
            year: value,
        }
    }

    pub fn set(&mut self, kind: WindowKind, value: T)
        ensures
            *final(self) == old(self).with(kind, value),
            final(self).at(kind) == value,
            forall|other: WindowKind|
                other != kind ==> #[trigger] final(self).at(other) == old(self).at(other),
    {
        match kind {
            WindowKind::Second => self.second = value,
            WindowKind::Minute => self.minute = value,
            WindowKind::Hour => self.hour = value,
            WindowKind::Day => self.day = value,
            WindowKind::Month => self.month = value,
            WindowKind::Year => self.year = value,
        }
    }
}

/// Two assignments of values to the kinds are the same where they
/// agree on every kind.
pub proof fn lemma_same_at_every_kind<T>(a: PerWindow<T>, b: PerWindow<T>)
    requires
        forall|kind: WindowKind| a.at(kind) == b.at(kind),
    ensures
        a == b,
{
    assert(a.at(WindowKind::Second) == b.at(WindowKind::Second));
    assert(a.at(WindowKind::Minute) == b.at(WindowKind::Minute));
    assert(a.at(WindowKind::Hour) == b.at(WindowKind::Hour));
    assert(a.at(WindowKind::Day) == b.at(WindowKind::Day));
    assert(a.at(WindowKind::Month) == b.at(WindowKind::Month));
    assert(a.at(WindowKind::Year) == b.at(WindowKind::Year));
}

impl<T: Copy> PerWindow<T> {
    pub fn filled(value: T) -> (all: Self)
        ensures
            all == Self::spec_filled(value),
    {
        PerWindow {
            second: value,
            minute: value,
            hour: value,
            day: value,
            month: value,
            year: value,
        }
    }
}

} // verus!
