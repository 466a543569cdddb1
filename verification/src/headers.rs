//! The rate-limit headers of a response and the rule that picks the
//! window they speak for.

use crate::clock::WindowBoundary;
use crate::text::{decimal, decimal_string};
use crate::usage::UsageMap;
use crate::window::{lemma_header_names_differ, PerWindow, WindowKind, WINDOW_COUNT};
use vstd::prelude::*;
use vstd::string::StringExecFns;

verus! {

/// Limit and remaining capacity of one window, as sent to the client.
#[derive(Clone, Copy, Debug)]
pub struct WindowHeader {
    pub limit: i32,
    pub remaining: i64,
}

/// The headers that speak for all windows at once: limit and remaining
/// capacity of the representative window, and the seconds until it
/// starts anew.
#[derive(Clone, Copy, Debug)]
pub struct Summary {
    pub limit: i32,
    pub remaining: i64,
    pub reset: i64,
}

/// The headers attached to a response.
#[derive(Clone, Copy, Debug)]
pub struct Headers {
    pub windows: PerWindow<Option<WindowHeader>>,
    pub summary: Option<Summary>,
    pub retry_after: Option<i64>,
}

/// What remains of a window once the current request is counted:
/// one less than before where the request is counted against the
/// window, which is every window of a request that is let through and
/// the blocking window of one that is not; never less than zero.
pub open spec fn effective_remaining(
    counters: UsageMap,
    stop: Option<WindowKind>,
    kind: WindowKind,
) -> int
    recommends
        counters.at(kind) is Some,
{
    let before: int = counters.at(kind)->0.remaining as int;
    let after = if stop is None || stop == Some(kind) {
        before - 1
    } else {
        before
    };
    if after < 0 {
        0
    } else {
        after
    }
}

/// Whether window `a` is to be shown rather than window `b`: it has
/// less left, or as much left and the longer duration.
pub open spec fn outranks(
    counters: UsageMap,
    stop: Option<WindowKind>,
    a: WindowKind,
    b: WindowKind,
) -> bool {
    let left_a = effective_remaining(counters, stop, a);
    let left_b = effective_remaining(counters, stop, b);
    left_a < left_b || (left_a == left_b && a.spec_duration() >= b.spec_duration())
}

/// Whether `kind` is the evaluated window that outranks all others.
pub open spec fn is_representative(
    counters: UsageMap,
    stop: Option<WindowKind>,
    kind: WindowKind,
) -> bool {
    &&& counters.at(kind) is Some
    &&& forall|other: WindowKind|
        (#[trigger] counters.at(other)) is Some ==> outranks(counters, stop, kind, other)
}

/// The representative window: the most restrictive one, and of
/// several the one with the longest horizon. None when no window is
/// evaluated.
pub open spec fn representative(counters: UsageMap, stop: Option<WindowKind>) -> Option<
    WindowKind,
> {
    if exists|kind: WindowKind| is_representative(counters, stop, kind) {
        Some(choose|kind: WindowKind| is_representative(counters, stop, kind))
    } else {
        None
    }
}

/// Seconds until the current window of `kind` ends, going by its
/// nominal duration, and at least one.
pub open spec fn reset_seconds(ts: WindowBoundary, kind: WindowKind) -> int {
    let left = kind.spec_duration() - (ts.now - ts.starts.at(kind));
    if left < 1 {
        1
    } else {
        left
    }
}

/// The reset value of the representative window, zero without one.
pub open spec fn representative_reset(
    counters: UsageMap,
    stop: Option<WindowKind>,
    ts: WindowBoundary,
) -> int {
    match representative(counters, stop) {
        Some(kind) => reset_seconds(ts, kind),
        None => 0,
    }
}

pub open spec fn summary_of(counters: UsageMap, stop: Option<WindowKind>, ts: WindowBoundary)
    -> Summary {
    match representative(counters, stop) {
        Some(kind) => Summary {
            limit: counters.at(kind)->0.limit,
            remaining: effective_remaining(counters, stop, kind) as i64,
            reset: reset_seconds(ts, kind) as i64,
        },
        None => Summary { limit: 0, remaining: 0, reset: 0 },
    }
}

pub open spec fn window_header_of(counters: UsageMap, stop: Option<WindowKind>, kind: WindowKind)
    -> Option<WindowHeader> {
    match counters.at(kind) {
        Some(u) => Some(
            WindowHeader {
                limit: u.limit,
                remaining: effective_remaining(counters, stop, kind) as i64,
            },
        ),
        None => None,
    }
}

pub open spec fn no_window_headers() -> PerWindow<Option<WindowHeader>> {
    PerWindow::spec_filled(None)
}

pub open spec fn window_headers_of(counters: UsageMap, stop: Option<WindowKind>) -> PerWindow<
    Option<WindowHeader>,
> {
    PerWindow {
        second: window_header_of(counters, stop, WindowKind::Second),
        minute: window_header_of(counters, stop, WindowKind::Minute),
        hour: window_header_of(counters, stop, WindowKind::Hour),
        day: window_header_of(counters, stop, WindowKind::Day),
        month: window_header_of(counters, stop, WindowKind::Month),
        year: window_header_of(counters, stop, WindowKind::Year),
    }
}

/// The headers of a context after a request was decided, `before`
/// being those it held. Unless they are hidden, the client headers of
/// this request replace them. A blocked request adds when to retry,
/// hidden or not.
pub open spec fn headers_after(
    before: Option<Headers>,
    hide_client_headers: bool,
    counters: UsageMap,
    stop: Option<WindowKind>,
    ts: WindowBoundary,
) -> Option<Headers> {
    let shown = if hide_client_headers {
        before
    } else {
        Some(
            Headers {
                windows: window_headers_of(counters, stop),
                summary: Some(summary_of(counters, stop, ts)),
                retry_after: None,
            },
        )
    };
    if stop is Some {
        let base = match shown {
            Some(headers) => headers,
            None => Headers { windows: no_window_headers(), summary: None, retry_after: None },
        };
        Some(
            Headers {
                retry_after: Some(representative_reset(counters, stop, ts) as i64),
                ..base
            },
        )
    } else {
        shown
    }
}

/// No two windows outrank each other, so only one can be
/// representative.
pub proof fn lemma_representative_unique(
    counters: UsageMap,
    stop: Option<WindowKind>,
    kind: WindowKind,
)
    requires
        is_representative(counters, stop, kind),
    ensures
        representative(counters, stop) == Some(kind),
{
    let chosen = choose|k: WindowKind| is_representative(counters, stop, k);
    assert(outranks(counters, stop, chosen, kind));
    assert(outranks(counters, stop, kind, chosen));
}

/// Without an evaluated window there is no representative.
pub proof fn lemma_representative_none(counters: UsageMap, stop: Option<WindowKind>)
    requires
        forall|kind: WindowKind| (#[trigger] counters.at(kind)) is None,
    ensures
        representative(counters, stop) is None,
{
}

/// One header as it goes out: its name and its value.
#[derive(Debug)]
pub struct HeaderLine {
    pub name: String,
    pub value: String,
}

/// The headers of one window: its limit, then what remains of it.
pub open spec fn window_lines(header: Option<WindowHeader>, kind: WindowKind) -> Seq<
    (Seq<char>, Seq<char>),
> {
    match header {
        Some(window) => seq![
            (kind.spec_limit_header(), decimal(window.limit as int)),
            (kind.spec_remaining_header(), decimal(window.remaining as int)),
        ],
        None => seq![],
    }
}

/// The headers of the windows before position `end` of the evaluation
/// order, finest window first.
pub open spec fn window_lines_before(windows: PerWindow<Option<WindowHeader>>, end: int) -> Seq<
    (Seq<char>, Seq<char>),
>
    decreases end,
{
    if end <= 0 {
        seq![]
    } else {
        window_lines_before(windows, end - 1) + window_lines(
            windows.at(WindowKind::spec_from_index(end - 1)),
            WindowKind::spec_from_index(end - 1),
        )
    }
}

pub open spec fn summary_lines(summary: Option<Summary>) -> Seq<(Seq<char>, Seq<char>)> {
    match summary {
        Some(shown) => seq![
            ("RateLimit-Limit"@, decimal(shown.limit as int)),
            ("RateLimit-Remaining"@, decimal(shown.remaining as int)),
            ("RateLimit-Reset"@, decimal(shown.reset as int)),
        ],
        None => seq![],
    }
}

pub open spec fn retry_lines(retry_after: Option<i64>) -> Seq<(Seq<char>, Seq<char>)> {
    match retry_after {
        Some(seconds) => seq![("Retry-After"@, decimal(seconds as int))],
        None => seq![],
    }
}

/// Whether `lines` holds the names and values of `expected`, in order.
pub open spec fn shows(lines: Seq<HeaderLine>, expected: Seq<(Seq<char>, Seq<char>)>) -> bool {
    &&& lines.len() == expected.len()
    &&& forall|i: int|
        0 <= i < lines.len() ==> (#[trigger] lines[i]).name@ == expected[i].0 && lines[i].value@
            == expected[i].1
}

fn push_line(lines: &mut Vec<HeaderLine>, name: &str, value: i64, Ghost(shown): Ghost<
    Seq<(Seq<char>, Seq<char>)>,
>)
    requires
        shows(old(lines)@, shown),
    ensures
        shows(final(lines)@, shown.push((name@, decimal(value as int)))),
{
    lines.push(HeaderLine { name: String::from_str(name), value: decimal_string(value) });
}

impl Headers {
    /// Names and values of the headers, in the order in which they go
    /// out: the windows from finest to coarsest, then the summary, then
    /// when to retry.
    pub open spec fn spec_lines(&self) -> Seq<(Seq<char>, Seq<char>)> {
        window_lines_before(self.windows, 6) + summary_lines(self.summary) + retry_lines(
            self.retry_after,
        )
    }

    pub fn lines(&self) -> (lines: Vec<HeaderLine>)
        ensures
            shows(lines@, self.spec_lines()),
    {
        let mut lines: Vec<HeaderLine> = Vec::new();
        let ghost mut shown: Seq<(Seq<char>, Seq<char>)> = seq![];
        let mut i: usize = 0;
        while i < WINDOW_COUNT
            invariant
                i <= WINDOW_COUNT,
                shows(lines@, shown),
                shown == window_lines_before(self.windows, i as int),
            decreases WINDOW_COUNT - i,
        {
            let kind = WindowKind::from_index(i);
            match self.windows.get(kind) {
                Some(window) => {
                    push_line(&mut lines, kind.limit_header(), window.limit as i64, Ghost(shown));
                    proof {
                        shown = shown.push(
                            (kind.spec_limit_header(), decimal(window.limit as int)),
                        );
                    }
                    push_line(&mut lines, kind.remaining_header(), window.remaining, Ghost(shown));
                    proof {
                        shown = shown.push(
                            (kind.spec_remaining_header(), decimal(window.remaining as int)),
                        );
                    }
                },
                None => {},
            }
            i = i + 1;
        }
        match self.summary {
            Some(summary) => {
                push_line(&mut lines, "RateLimit-Limit", summary.limit as i64, Ghost(shown));
                proof {
                    shown = shown.push(("RateLimit-Limit"@, decimal(summary.limit as int)));
                }
                push_line(&mut lines, "RateLimit-Remaining", summary.remaining, Ghost(shown));
                proof {
                    shown = shown.push(("RateLimit-Remaining"@, decimal(summary.remaining as int)));
                }
                push_line(&mut lines, "RateLimit-Reset", summary.reset, Ghost(shown));
                proof {
                    shown = shown.push(("RateLimit-Reset"@, decimal(summary.reset as int)));
                }
            },
            None => {},
        }
        match self.retry_after {
            Some(seconds) => {
                push_line(&mut lines, "Retry-After", seconds, Ghost(shown));
                proof {
                    shown = shown.push(("Retry-After"@, decimal(seconds as int)));
                }
            },
            None => {},
        }
        lines
    }
}

/// Whether a header of the name `name` is among `lines`.
pub open spec fn names(lines: Seq<(Seq<char>, Seq<char>)>, name: Seq<char>) -> bool {
    exists|i: int| 0 <= i < lines.len() && (#[trigger] lines[i]).0 == name
}

proof fn lemma_window_lines_skip(
    windows: PerWindow<Option<WindowHeader>>,
    kind: WindowKind,
    end: int,
)
    requires
        windows.at(kind) is None,
        0 <= end <= 6,
    ensures
        !names(window_lines_before(windows, end), kind.spec_limit_header()),
        !names(window_lines_before(windows, end), kind.spec_remaining_header()),
    decreases end,
{
    if end > 0 {
        lemma_window_lines_skip(windows, kind, end - 1);
        let other = WindowKind::spec_from_index(end - 1);
        lemma_header_names_differ(other, kind);
        lemma_header_names_differ(kind, other);
        let before = window_lines_before(windows, end - 1);
        let added = window_lines(windows.at(other), other);
        assert forall|i: int| 0 <= i < (before + added).len() implies (#[trigger] (before
            + added)[i]).0 != kind.spec_limit_header() && (before + added)[i].0
            != kind.spec_remaining_header() by {
            if i < before.len() {
                assert((before + added)[i] == before[i]);
            } else {
                assert((before + added)[i] == added[i - before.len()]);
            }
        }
    }
}

/// A window without headers is not named in what goes out: none of the
/// headers bears one of its two names.
pub proof fn lemma_window_without_headers_is_not_named(headers: Headers, kind: WindowKind)
    requires
        headers.windows.at(kind) is None,
    ensures
        !names(headers.spec_lines(), kind.spec_limit_header()),
        !names(headers.spec_lines(), kind.spec_remaining_header()),
{
    lemma_window_lines_skip(headers.windows, kind, 6);
    lemma_header_names_differ(kind, kind);
    reveal_strlit("RateLimit-Limit");
    reveal_strlit("RateLimit-Remaining");
    reveal_strlit("RateLimit-Reset");
    reveal_strlit("Retry-After");
    let first = window_lines_before(headers.windows, 6);
    let second = summary_lines(headers.summary);
    let third = retry_lines(headers.retry_after);
    let lines = headers.spec_lines();
    assert forall|i: int| 0 <= i < lines.len() implies (#[trigger] lines[i]).0
        != kind.spec_limit_header() && lines[i].0 != kind.spec_remaining_header() by {
        if i < first.len() {
            assert(lines[i] == first[i]);
        } else if i < first.len() + second.len() {
            assert(lines[i] == second[i - first.len()]);
            assert(lines[i].0[0] == 'R');
        } else {
            assert(lines[i] == third[i - first.len() - second.len()]);
            assert(lines[i].0[0] == 'R');
        }
    }
}

} // verus!
