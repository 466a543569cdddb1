//! Per-window usage and the verdict of an evaluation.

use crate::window::{lemma_same_at_every_kind, PerWindow, WindowKind, WINDOW_COUNT};
use vstd::prelude::*;

verus! {

/// The limit configured for each window kind; a negative limit, by
/// convention -1, means that the window is not enforced.
pub type Limits = PerWindow<i32>;

/// Whether `limits` enforces the window of `kind`.
pub open spec fn configured(limits: Limits, kind: WindowKind) -> bool {
    limits.at(kind) >= 0
}

/// What one window has used of its limit, before the current request
/// is counted.
#[derive(Clone, Copy, Debug)]
pub struct Usage {
    pub limit: i32,
    pub remaining: i64,
    pub usage: i32,
    /// Version of the counter that `usage` was read at.
    pub cas: Option<u32>,
}

impl Usage {
    pub open spec fn wf(&self) -> bool {
        self.limit >= 0 && self.remaining == self.limit - self.usage
    }

    /// A window is exhausted when nothing remains of its limit.
    pub open spec fn exhausted(&self) -> bool {
        self.remaining <= 0
    }

    pub fn new(limit: i32, usage: i32, cas: Option<u32>) -> (u: Usage)
        requires
            limit >= 0,
        ensures
            u.wf(),
            u.limit == limit,
            u.usage == usage,
            u.cas == cas,
    {
        Usage { limit, remaining: limit as i64 - usage as i64, usage, cas }
    }
}

/// The usage of each enforced window.
pub type UsageMap = PerWindow<Option<Usage>>;

pub open spec fn counters_wf(counters: UsageMap) -> bool {
    forall|kind: WindowKind| (#[trigger] counters.at(kind)) matches Some(u) ==> u.wf()
}

/// Whether the window of `kind` is evaluated and exhausted.
pub open spec fn is_exhausted(counters: UsageMap, kind: WindowKind) -> bool {
    counters.at(kind) matches Some(u) && u.exhausted()
}

/// The blocking window: the first exhausted one in evaluation order,
/// which runs from the finest window to the coarsest.
pub open spec fn first_exhausted(counters: UsageMap) -> Option<WindowKind> {
    if is_exhausted(counters, WindowKind::Second) {
        Some(WindowKind::Second)
    } else if is_exhausted(counters, WindowKind::Minute) {
        Some(WindowKind::Minute)
    } else if is_exhausted(counters, WindowKind::Hour) {
        Some(WindowKind::Hour)
    } else if is_exhausted(counters, WindowKind::Day) {
        Some(WindowKind::Day)
    } else if is_exhausted(counters, WindowKind::Month) {
        Some(WindowKind::Month)
    } else if is_exhausted(counters, WindowKind::Year) {
        Some(WindowKind::Year)
    } else {
        None
    }
}

/// The verdict of an evaluation: the usage of the windows that were
/// read, the blocking window if one is exhausted, and the fault of
/// the store if reading failed.
#[derive(Debug)]
pub struct Usages {
    pub counters: UsageMap,
    pub stop: Option<WindowKind>,
    pub err: Option<String>,
}

/// Position of the first enforced window at or after position `from`
/// of the evaluation order, 6 when there is none.
pub open spec fn next_configured(limits: Limits, from: int) -> int
    decreases 6 - from,
{
    if from >= 6 {
        6
    } else if configured(limits, WindowKind::spec_from_index(from)) {
        from
    } else {
        next_configured(limits, from + 1)
    }
}

/// The usage of a window with limit `limit` whose counter was read as
/// `used` at version `cas`.
pub open spec fn usage_of(limit: i32, used: i32, cas: Option<u32>) -> Usage {
    Usage { limit, remaining: (limit - used) as i64, usage: used, cas }
}

/// An evaluation under way. The windows are read one after the other,
/// finest first; `cursor` is the position of the one to read next.
#[derive(Debug)]
pub struct Evaluation {
    pub limits: Limits,
    pub cursor: usize,
    pub usages: Usages,
}

impl Evaluation {
    pub open spec fn wf(&self) -> bool {
        &&& self.cursor <= 6
        &&& self.cursor < 6 ==> configured(
            self.limits,
            WindowKind::spec_from_index(self.cursor as int),
        )
        &&& counters_wf(self.usages.counters)
        &&& forall|kind: WindowKind|
            kind.spec_index() < self.cursor ==> ((#[trigger] self.usages.counters.at(kind)) is Some
                <==> configured(self.limits, kind))
        &&& forall|kind: WindowKind|
            kind.spec_index() >= self.cursor ==> (#[trigger] self.usages.counters.at(kind)) is None
        &&& forall|kind: WindowKind|
            (#[trigger] self.usages.counters.at(kind)) matches Some(u) ==> u.limit
                == self.limits.at(kind)
        &&& self.usages.stop == first_exhausted(self.usages.counters)
    }

    /// The window whose counter is to be read next. None once every
    /// enforced window is read, or once a read has failed.
    pub open spec fn spec_pending(&self) -> Option<WindowKind> {
        if self.usages.err is None && self.cursor < 6 {
            Some(WindowKind::spec_from_index(self.cursor as int))
        } else {
            None
        }
    }

    /// The evaluation after `reading` came back for the pending window.
    /// A count is recorded with what it leaves of the limit, and makes
    /// the window the blocking one if it leaves nothing and no earlier
    /// window blocks. A fault ends the evaluation.
    pub open spec fn recorded(self, reading: Result<(i32, Option<u32>), String>) -> Evaluation {
        let kind = WindowKind::spec_from_index(self.cursor as int);
        match reading {
            Ok((used, cas)) => {
                let usage = usage_of(self.limits.at(kind), used, cas);
                Evaluation {
                    limits: self.limits,
                    cursor: next_configured(self.limits, self.cursor + 1) as usize,
                    usages: Usages {
                        counters: self.usages.counters.with(kind, Some(usage)),
                        stop: if self.usages.stop is None && usage.exhausted() {
                            Some(kind)
                        } else {
                            self.usages.stop
                        },
                        err: None,
                    },
                }
            },
            Err(fault) => Evaluation {
                limits: self.limits,
                cursor: self.cursor,
                usages: Usages {
                    counters: self.usages.counters,
                    stop: self.usages.stop,
                    err: Some(fault),
                },
            },
        }
    }

    pub open spec fn spec_begin(limits: Limits) -> Evaluation {
        Evaluation {
            limits,
            cursor: next_configured(limits, 0) as usize,
            usages: Usages { counters: PerWindow::spec_filled(None), stop: None, err: None },
        }
    }

    /// An evaluation against `limits` that has read nothing yet.
    pub fn begin(limits: Limits) -> (evaluation: Evaluation)
        ensures
            evaluation == Self::spec_begin(limits),
            evaluation.wf(),
    {
        let cursor = first_configured(&limits, 0);
        Evaluation {
            limits,
            cursor,
            usages: Usages {
                counters: PerWindow::filled(None),
                stop: None,
                err: None,
            },
        }
    }

    pub fn pending(&self) -> (kind: Option<WindowKind>)
        requires
            self.wf(),
        ensures
            kind == self.spec_pending(),
    {
        if self.usages.err.is_none() && self.cursor < WINDOW_COUNT {
            Some(WindowKind::from_index(self.cursor))
        } else {
            None
        }
    }

    /// Takes in what the store answered for the pending window.
    pub fn record(&mut self, reading: Result<(i32, Option<u32>), String>)
        requires
            old(self).wf(),
            old(self).spec_pending() is Some,
        ensures
            *final(self) == old(self).recorded(reading),
            final(self).wf(),
            final(self).spec_pending() is None || final(self).cursor > old(self).cursor,
    {
        let kind = WindowKind::from_index(self.cursor);
        match reading {
            Ok((used, cas)) => {
                let limit: i32 = *self.limits.get(kind);
                let usage = Usage::new(limit, used, cas);
                if usage.remaining <= 0 && self.usages.stop.is_none() {
                    self.usages.stop = Some(kind);
                }
                self.usages.counters.set(kind, Some(usage));
                self.cursor = first_configured(&self.limits, self.cursor + 1);
            },
            Err(fault) => {
                self.usages.err = Some(fault);
            },
        }
    }

    /// The verdict, once nothing is pending. Unless a read failed, it
    /// holds the usage of exactly the enforced windows.
    pub fn finish(self) -> (usages: Usages)
        requires
            self.wf(),
            self.spec_pending() is None,
        ensures
            usages == self.usages,
            counters_wf(usages.counters),
            usages.stop == first_exhausted(usages.counters),
            forall|kind: WindowKind|
                (#[trigger] usages.counters.at(kind)) matches Some(u) ==> configured(
                    self.limits,
                    kind,
                ) && u.limit == self.limits.at(kind),
            usages.err is None ==> forall|kind: WindowKind|
                configured(self.limits, kind) ==> (#[trigger] usages.counters.at(kind)) is Some,
    {
        self.usages
    }
}

/// Position of the first enforced window at or after position `from`.
fn first_configured(limits: &Limits, from: usize) -> (position: usize)
    requires
        from <= 6,
    ensures
        position == next_configured(*limits, from as int),
        from <= position <= 6,
        position < 6 ==> configured(*limits, WindowKind::spec_from_index(position as int)),
        forall|kind: WindowKind|
            from <= kind.spec_index() < position ==> !configured(*limits, kind),
{
    let mut position: usize = from;
    while position < WINDOW_COUNT && *limits.get(WindowKind::from_index(position)) < 0
        invariant
            from <= position <= 6,
            next_configured(*limits, position as int) == next_configured(*limits, from as int),
            forall|kind: WindowKind|
                from <= kind.spec_index() < position ==> !configured(*limits, kind),
        decreases 6 - position,
    {
        position = position + 1;
    }
    position
}

/// Where the next enforced window is found: at or after `from`, with
/// no enforced window in between.
pub proof fn lemma_next_configured(limits: Limits, from: int)
    requires
        0 <= from <= 6,
    ensures
        from <= next_configured(limits, from) <= 6,
        next_configured(limits, from) < 6 ==> configured(
            limits,
            WindowKind::spec_from_index(next_configured(limits, from)),
        ),
        forall|kind: WindowKind|
            from <= kind.spec_index() < next_configured(limits, from) ==> !configured(
                limits,
                kind,
            ),
    decreases 6 - from,
{
    if from < 6 && !configured(limits, WindowKind::spec_from_index(from)) {
        lemma_next_configured(limits, from + 1);
    }
}

/// Taking in a reading keeps an evaluation well formed, and either
/// ends it or moves it on to a later window.
pub proof fn lemma_recorded_wf(evaluation: Evaluation, reading: Result<(i32, Option<u32>), String>)
    requires
        evaluation.wf(),
        evaluation.spec_pending() is Some,
    ensures
        evaluation.recorded(reading).wf(),
        evaluation.recorded(reading).limits == evaluation.limits,
        reading is Err ==> evaluation.recorded(reading).spec_pending() is None,
        reading is Ok ==> evaluation.recorded(reading).cursor > evaluation.cursor,
{
    lemma_next_configured(evaluation.limits, evaluation.cursor + 1);
}

/// The usage that an evaluation against `limits` holds for the window
/// of `kind` once the store has answered `reading` for it: none for a
/// window that is not enforced.
pub open spec fn entry_of(limits: Limits, kind: WindowKind, reading: (i32, Option<u32>)) -> Option<
    Usage,
> {
    if configured(limits, kind) {
        Some(usage_of(limits.at(kind), reading.0, reading.1))
    } else {
        None
    }
}

/// The verdict of an evaluation against `limits` in which the store
/// answers every read, `readings` holding its answer for each window:
/// the usage of every enforced window, and as blocking window the
/// first one that is exhausted.
pub open spec fn verdict_of(limits: Limits, readings: PerWindow<(i32, Option<u32>)>) -> Usages {
    let counters = PerWindow {
        second: entry_of(limits, WindowKind::Second, readings.second),
        minute: entry_of(limits, WindowKind::Minute, readings.minute),
        hour: entry_of(limits, WindowKind::Hour, readings.hour),
        day: entry_of(limits, WindowKind::Day, readings.day),
        month: entry_of(limits, WindowKind::Month, readings.month),
        year: entry_of(limits, WindowKind::Year, readings.year),
    };
    Usages { counters, stop: first_exhausted(counters), err: None }
}

/// The evaluation after it has asked for the pending window and taken
/// in the answer of `readings` for it, up to `steps` times.
pub open spec fn fed(
    evaluation: Evaluation,
    readings: PerWindow<(i32, Option<u32>)>,
    steps: nat,
) -> Evaluation
    decreases steps,
{
    if steps == 0 {
        evaluation
    } else {
        match evaluation.spec_pending() {
            Some(kind) => fed(
                evaluation.recorded(Ok(readings.at(kind))),
                readings,
                (steps - 1) as nat,
            ),
            None => evaluation,
        }
    }
}

proof fn lemma_fed(evaluation: Evaluation, readings: PerWindow<(i32, Option<u32>)>, steps: nat)
    requires
        evaluation.wf(),
        evaluation.usages.err is None,
        6 - evaluation.cursor <= steps,
        forall|kind: WindowKind|
            kind.spec_index() < evaluation.cursor ==> #[trigger] evaluation.usages.counters.at(kind)
                == entry_of(evaluation.limits, kind, readings.at(kind)),
    ensures
        fed(evaluation, readings, steps).spec_pending() is None,
        fed(evaluation, readings, steps).usages == verdict_of(evaluation.limits, readings),
    decreases steps,
{
    let limits = evaluation.limits;
    match evaluation.spec_pending() {
        Some(kind) => {
            let next = evaluation.recorded(Ok(readings.at(kind)));
            lemma_recorded_wf(evaluation, Ok(readings.at(kind)));
            lemma_next_configured(limits, evaluation.cursor + 1);
            assert forall|other: WindowKind| other.spec_index() < next.cursor implies (
            #[trigger] next.usages.counters.at(other)) == entry_of(
                limits,
                other,
                readings.at(other),
            ) by {
                if other != kind && other.spec_index() >= evaluation.cursor {
                    assert(evaluation.usages.counters.at(other) is None);
                }
            }
            lemma_fed(next, readings, (steps - 1) as nat);
        },
        None => {
            let counters = evaluation.usages.counters;
            let verdict = verdict_of(limits, readings);
            lemma_same_at_every_kind(counters, verdict.counters);
        },
    }
}

/// An evaluation that every read of is answered ends after at most six
/// reads, and its verdict holds the usage of exactly the enforced
/// windows, each as it was read, and as blocking window the first
/// exhausted one.
pub proof fn lemma_evaluation_verdict(limits: Limits, readings: PerWindow<(i32, Option<u32>)>)
    ensures
        fed(Evaluation::spec_begin(limits), readings, 6).spec_pending() is None,
        fed(Evaluation::spec_begin(limits), readings, 6).usages == verdict_of(limits, readings),
{
    let evaluation = Evaluation::spec_begin(limits);
    lemma_next_configured(limits, 0);
    lemma_fed(evaluation, readings, 6);
}

} // verus!
