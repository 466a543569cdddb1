//! The counter incrementer: a conditional write per window, tried
//! again a bounded number of times when the store reports a conflict.

use crate::store::CasOutcome;
use crate::usage::UsageMap;
use crate::window::{lemma_same_at_every_kind, PerWindow, WindowKind, WINDOW_COUNT};
use vstd::prelude::*;

verus! {

/// How often the write of one counter is attempted.
pub const MAX_ATTEMPTS: u32 = 10;

/// The count after one more request; a full counter stays full.
pub open spec fn incremented(value: i32) -> i32 {
    if value < i32::MAX {
        (value + 1) as i32
    } else {
        i32::MAX
    }
}

/// Where the increment of one counter stands.
#[derive(Clone, Copy, Debug, PartialEq, Eq, Structural)]
pub enum RetryPhase {
    /// The next step is a conditional write.
    Write,
    /// A write met a conflict; the next step is a fresh read.
    Reread,
    /// The increment is stored.
    Stored,
    /// Every attempt failed; the increment is given up.
    GaveUp,
}

/// What the increment of one counter asks of the store next.
#[derive(Clone, Copy, Debug)]
pub enum RetryStep {
    /// Write `value` if the counter is at version `cas`, or, without a
    /// version, if the store holds no such counter.
    Write { value: i32, cas: Option<u32> },
    /// Read the counter.
    Read,
    /// Nothing more; `saved` tells whether the increment is stored.
    Done { saved: bool },
}

/// The increment of one counter: the count and version last seen, and
/// the attempts made so far.
#[derive(Clone, Copy, Debug)]
pub struct Retry {
    pub value: i32,
    pub cas: Option<u32>,
    pub attempts: u32,
    pub phase: RetryPhase,
}

impl Retry {
    pub open spec fn wf(&self) -> bool {
        &&& self.attempts <= MAX_ATTEMPTS
        &&& (self.phase is Write || self.phase is Reread) ==> self.attempts < MAX_ATTEMPTS
        &&& self.phase is Reread ==> self.attempts >= 1
    }

    pub open spec fn spec_begin(value: i32, cas: Option<u32>) -> Retry {
        Retry { value, cas, attempts: 0, phase: RetryPhase::Write }
    }

    /// A state that asks nothing of the store.
    pub open spec fn spec_idle() -> Retry {
        Retry { value: 0, cas: None, attempts: 0, phase: RetryPhase::Stored }
    }

    pub open spec fn spec_finished(&self) -> bool {
        self.phase is Stored || self.phase is GaveUp
    }

    /// How many answers of the store the increment takes in at most
    /// before it is finished.
    pub open spec fn steps_left(&self) -> nat {
        match self.phase {
            RetryPhase::Write => (2 * (MAX_ATTEMPTS - self.attempts) - 1) as nat,
            RetryPhase::Reread => (2 * (MAX_ATTEMPTS - self.attempts)) as nat,
            RetryPhase::Stored => 0,
            RetryPhase::GaveUp => 0,
        }
    }

    pub open spec fn spec_step(&self) -> RetryStep {
        match self.phase {
            RetryPhase::Write => RetryStep::Write { value: incremented(self.value), cas: self.cas },
            RetryPhase::Reread => RetryStep::Read,
            RetryPhase::Stored => RetryStep::Done { saved: true },
            RetryPhase::GaveUp => RetryStep::Done { saved: false },
        }
    }

    /// The state after the store answered a write. A stored write ends
    /// the increment. Any failure uses up an attempt; after the last
    /// one the increment is given up. Before that, a conflict leads to
    /// a fresh read, and another failure to the same write again.
    pub open spec fn after_write(self, outcome: CasOutcome) -> Retry {
        if !(self.phase is Write) {
            self
        } else if outcome is Stored {
            Retry { phase: RetryPhase::Stored, ..self }
        } else if self.attempts + 1 >= MAX_ATTEMPTS {
            Retry { attempts: MAX_ATTEMPTS, phase: RetryPhase::GaveUp, ..self }
        } else if outcome is VersionConflict {
            Retry { attempts: (self.attempts + 1) as u32, phase: RetryPhase::Reread, ..self }
        } else {
            Retry { attempts: (self.attempts + 1) as u32, ..self }
        }
    }

    /// The state after the store answered the fresh read: the next
    /// write goes by the count and version read; after a failed read
    /// it goes by those known before.
    pub open spec fn after_read(self, reading: Result<(i32, Option<u32>), String>) -> Retry {
        if !(self.phase is Reread) {
            self
        } else {
            match reading {
                Ok((value, cas)) => Retry { value, cas, phase: RetryPhase::Write, ..self },
                Err(_) => Retry { phase: RetryPhase::Write, ..self },
            }
        }
    }

    /// The increment of a counter last read as `value` at version `cas`.
    pub fn begin(value: i32, cas: Option<u32>) -> (retry: Retry)
        ensures
            retry == Self::spec_begin(value, cas),
            retry.wf(),
    {
        Retry { value, cas, attempts: 0, phase: RetryPhase::Write }
    }

    pub fn finished(&self) -> (done: bool)
        ensures
            done == self.spec_finished(),
    {
        match self.phase {
            RetryPhase::Stored | RetryPhase::GaveUp => true,
            _ => false,
        }
    }

    /// What to ask of the store next.
    pub fn step(&self) -> (step: RetryStep)
        ensures
            step == self.spec_step(),
    {
        match self.phase {
            RetryPhase::Write => {
                let value: i32 = if self.value < i32::MAX {
                    self.value + 1
                } else {
                    i32::MAX
                };
                RetryStep::Write { value, cas: self.cas }
            },
            RetryPhase::Reread => RetryStep::Read,
            RetryPhase::Stored => RetryStep::Done { saved: true },
            RetryPhase::GaveUp => RetryStep::Done { saved: false },
        }
    }

    /// Takes in the answer of the store to the write asked for.
    pub fn written(&mut self, outcome: CasOutcome)
        requires
            old(self).wf(),
        ensures
            *final(self) == old(self).after_write(outcome),
            final(self).wf(),
    {
        match self.phase {
            RetryPhase::Write => {
                match outcome {
                    CasOutcome::Stored => {
                        self.phase = RetryPhase::Stored;
                    },
                    _ => {
                        if self.attempts + 1 >= MAX_ATTEMPTS {
                            self.attempts = MAX_ATTEMPTS;
                            self.phase = RetryPhase::GaveUp;
                        } else {
                            self.attempts = self.attempts + 1;
                            match outcome {
                                CasOutcome::VersionConflict => {
                                    self.phase = RetryPhase::Reread;
                                },
                                _ => {},
                            }
                        }
                    },
                }
            },
            _ => {},
        }
    }

    /// Takes in the answer of the store to the read asked for.
    pub fn reread(&mut self, reading: Result<(i32, Option<u32>), String>)
        requires
            old(self).wf(),
        ensures
            *final(self) == old(self).after_read(reading),
            final(self).wf(),
    {
        match self.phase {
            RetryPhase::Reread => {
                match reading {
                    Ok((value, cas)) => {
                        self.value = value;
                        self.cas = cas;
                    },
                    Err(_) => {},
                }
                self.phase = RetryPhase::Write;
            },
            _ => {},
        }
    }
}

/// Position of the first evaluated window at or after position `from`
/// of the evaluation order, 6 when there is none.
pub open spec fn next_counter(counters: UsageMap, from: int) -> int
    decreases 6 - from,
{
    if from >= 6 {
        6
    } else if counters.at(WindowKind::spec_from_index(from)) is Some {
        from
    } else {
        next_counter(counters, from + 1)
    }
}

/// The window found is one that was evaluated, at or after `from`.
pub proof fn lemma_next_counter(counters: UsageMap, from: int)
    requires
        0 <= from,
    ensures
        from <= next_counter(counters, from) <= 6 || (from > 6 && next_counter(counters, from)
            == 6),
        next_counter(counters, from) < 6 ==> counters.at(
            WindowKind::spec_from_index(next_counter(counters, from)),
        ) is Some,
    decreases 6 - from,
{
    if from < 6 && !(counters.at(WindowKind::spec_from_index(from)) is Some) {
        lemma_next_counter(counters, from + 1);
    }
}

/// The increment of the counter at position `cursor`, as it begins.
pub open spec fn retry_at(counters: UsageMap, cursor: int) -> Retry {
    if cursor < 6 {
        match counters.at(WindowKind::spec_from_index(cursor)) {
            Some(usage) => Retry::spec_begin(usage.usage, usage.cas),
            None => Retry::spec_idle(),
        }
    } else {
        Retry::spec_idle()
    }
}

/// What the incrementer asks of the store next.
#[derive(Clone, Copy, Debug)]
pub enum IncrementStep {
    /// Write `value` to the counter of the window of `kind` if it is
    /// at version `cas`, or, without a version, if there is none yet.
    Write { kind: WindowKind, value: i32, cas: Option<u32> },
    /// Read the counter of the window of `kind`.
    Read { kind: WindowKind },
    /// Every counter is dealt with.
    Done,
}

/// The increments of the counters of an admitted request, one window
/// after the other; `cursor` is the position of the window at work.
#[derive(Clone, Copy, Debug)]
pub struct Increment {
    pub counters: UsageMap,
    pub cursor: usize,
    pub retry: Retry,
    /// The windows whose increment was given up.
    pub failed: PerWindow<bool>,
}

impl Increment {
    pub open spec fn wf(&self) -> bool {
        &&& self.cursor <= 6
        &&& self.retry.wf()
        &&& self.cursor < 6 ==> {
            &&& self.counters.at(WindowKind::spec_from_index(self.cursor as int)) is Some
            &&& !self.retry.spec_finished()
        }
    }

    /// How many answers of the store the incrementer takes in at most
    /// before every counter is dealt with.
    pub open spec fn steps_left(&self) -> nat {
        if self.cursor < 6 {
            self.retry.steps_left() + 20 * (5 - self.cursor) as nat
        } else {
            0
        }
    }

    pub open spec fn spec_begin(counters: UsageMap) -> Increment {
        let cursor = next_counter(counters, 0);
        Increment {
            counters,
            cursor: cursor as usize,
            retry: retry_at(counters, cursor),
            failed: PerWindow::spec_filled(false),
        }
    }

    pub open spec fn spec_step(&self) -> IncrementStep {
        let kind = WindowKind::spec_from_index(self.cursor as int);
        if self.cursor >= 6 {
            IncrementStep::Done
        } else {
            match self.retry.spec_step() {
                RetryStep::Write { value, cas } => IncrementStep::Write { kind, value, cas },
                RetryStep::Read => IncrementStep::Read { kind },
                RetryStep::Done { .. } => IncrementStep::Done,
            }
        }
    }

    /// The state after `retry`, the increment at work, has taken in an
    /// answer: once it is finished, the window is marked if it was given
    /// up, and the next evaluated window is at work.
    pub open spec fn settled(self, retry: Retry) -> Increment {
        let kind = WindowKind::spec_from_index(self.cursor as int);
        if self.cursor >= 6 {
            self
        } else if retry.spec_finished() {
            let cursor = next_counter(self.counters, self.cursor + 1);
            Increment {
                counters: self.counters,
                cursor: cursor as usize,
                retry: retry_at(self.counters, cursor),
                failed: self.failed.with(kind, retry.phase is GaveUp),
            }
        } else {
            Increment { retry, ..self }
        }
    }

    pub open spec fn after_write(self, outcome: CasOutcome) -> Increment {
        self.settled(self.retry.after_write(outcome))
    }

    pub open spec fn after_read(self, reading: Result<(i32, Option<u32>), String>) -> Increment {
        self.settled(self.retry.after_read(reading))
    }

    /// The increments of the counters in `counters`, none attempted yet.
    pub fn begin(counters: &UsageMap) -> (increment: Increment)
        ensures
            increment == Self::spec_begin(*counters),
            increment.wf(),
    {
        let cursor = first_counter(counters, 0);
        Increment {
            counters: *counters,
            cursor,
            retry: begin_at(counters, cursor),
            failed: PerWindow::filled(false),
        }
    }

    /// What to ask of the store next.
    pub fn step(&self) -> (step: IncrementStep)
        requires
            self.wf(),
        ensures
            step == self.spec_step(),
    {
        if self.cursor >= WINDOW_COUNT {
            IncrementStep::Done
        } else {
            let kind = WindowKind::from_index(self.cursor);
            match self.retry.step() {
                RetryStep::Write { value, cas } => IncrementStep::Write { kind, value, cas },
                RetryStep::Read => IncrementStep::Read { kind },
                RetryStep::Done { .. } => IncrementStep::Done,
            }
        }
    }

    fn settle(&mut self, retry: Retry)
        requires
            old(self).wf(),
            retry.wf(),
        ensures
            *final(self) == old(self).settled(retry),
            final(self).wf(),
    {
        if self.cursor < WINDOW_COUNT {
            if retry.finished() {
                let kind = WindowKind::from_index(self.cursor);
                let gave_up = match retry.phase {
                    RetryPhase::GaveUp => true,
                    _ => false,
                };
                self.failed.set(kind, gave_up);
                self.cursor = first_counter(&self.counters, self.cursor + 1);
                self.retry = begin_at(&self.counters, self.cursor);
            } else {
                self.retry = retry;
            }
        }
    }

    /// Takes in the answer of the store to the write asked for.
    pub fn written(&mut self, outcome: CasOutcome)
        requires
            old(self).wf(),
        ensures
            *final(self) == old(self).after_write(outcome),
            final(self).wf(),
    {
        let mut retry = self.retry;
        retry.written(outcome);
        self.settle(retry);
    }

    /// Takes in the answer of the store to the read asked for.
    pub fn reread(&mut self, reading: Result<(i32, Option<u32>), String>)
        requires
            old(self).wf(),
        ensures
            *final(self) == old(self).after_read(reading),
            final(self).wf(),
    {
        let mut retry = self.retry;
        retry.reread(reading);
        self.settle(retry);
    }
}

fn first_counter(counters: &UsageMap, from: usize) -> (position: usize)
    requires
        from <= 6,
    ensures
        position == next_counter(*counters, from as int),
        from <= position <= 6,
        position < 6 ==> counters.at(WindowKind::spec_from_index(position as int)) is Some,
{
    let mut position: usize = from;
    while position < WINDOW_COUNT && counters.get(WindowKind::from_index(position)).is_none()
        invariant
            from <= position <= 6,
            next_counter(*counters, position as int) == next_counter(*counters, from as int),
        decreases 6 - position,
    {
        position = position + 1;
    }
    position
}

fn begin_at(counters: &UsageMap, cursor: usize) -> (retry: Retry)
    requires
        cursor <= 6,
        cursor < 6 ==> counters.at(WindowKind::spec_from_index(cursor as int)) is Some,
    ensures
        retry == retry_at(*counters, cursor as int),
        retry.wf(),
        cursor < 6 ==> !retry.spec_finished(),
{
    if cursor < WINDOW_COUNT {
        match counters.get(WindowKind::from_index(cursor)) {
            Some(usage) => Retry::begin(usage.usage, usage.cas),
            None => Retry { value: 0, cas: None, attempts: 0, phase: RetryPhase::Stored },
        }
    } else {
        Retry { value: 0, cas: None, attempts: 0, phase: RetryPhase::Stored }
    }
}

/// The increment of a counter ends: it asks for at most ten writes and
/// nine reads, since every answer to what it asked for brings it
/// nearer to its end.
pub proof fn lemma_retry_ends(
    retry: Retry,
    outcome: CasOutcome,
    reading: Result<(i32, Option<u32>), String>,
)
    requires
        retry.wf(),
    ensures
        retry.steps_left() <= 19,
        retry.spec_finished() <==> retry.steps_left() == 0,
        retry.phase is Write ==> retry.after_write(outcome).steps_left() < retry.steps_left(),
        retry.phase is Reread ==> retry.after_read(reading).steps_left() < retry.steps_left(),
        retry.phase is Write && !(outcome is Stored) ==> retry.after_write(outcome).attempts
            == retry.attempts + 1,
{
}

/// The incrementer ends: every answer to what it asked for brings it
/// nearer to the point where every counter is dealt with.
pub proof fn lemma_increment_ends(
    increment: Increment,
    outcome: CasOutcome,
    reading: Result<(i32, Option<u32>), String>,
)
    requires
        increment.wf(),
    ensures
        increment.steps_left() <= 119,
        increment.spec_step() is Done <==> increment.steps_left() == 0,
        increment.spec_step() is Write ==> increment.after_write(outcome).steps_left()
            < increment.steps_left(),
        increment.spec_step() is Read ==> increment.after_read(reading).steps_left()
            < increment.steps_left(),
{
    lemma_retry_ends(increment.retry, outcome, reading);
    if increment.cursor < 6 {
        lemma_next_counter(increment.counters, increment.cursor + 1);
    }
}

/// The writes that increment the counters of `counters` from position
/// `from` of the evaluation order on, where the store accepts them
/// all: for each evaluated window one write, of one more than was
/// read, against the version that was read.
pub open spec fn expected_writes(counters: UsageMap, from: int) -> Seq<
    (WindowKind, i32, Option<u32>),
>
    decreases 6 - from,
{
    if from >= 6 {
        seq![]
    } else {
        let kind = WindowKind::spec_from_index(from);
        let first = match counters.at(kind) {
            Some(usage) => seq![(kind, incremented(usage.usage), usage.cas)],
            None => seq![],
        };
        first + expected_writes(counters, from + 1)
    }
}

/// The writes that the incrementer asks for, up to `steps` of them,
/// while the store accepts each.
pub open spec fn writes_accepted(increment: Increment, steps: nat) -> Seq<
    (WindowKind, i32, Option<u32>),
>
    decreases steps,
{
    if steps == 0 {
        seq![]
    } else {
        match increment.spec_step() {
            IncrementStep::Write { kind, value, cas } => seq![(kind, value, cas)]
                + writes_accepted(increment.after_write(CasOutcome::Stored), (steps - 1) as nat),
            _ => seq![],
        }
    }
}

/// The incrementer after the store has accepted up to `steps` of its
/// writes.
pub open spec fn all_accepted(increment: Increment, steps: nat) -> Increment
    decreases steps,
{
    if steps == 0 {
        increment
    } else {
        match increment.spec_step() {
            IncrementStep::Write { .. } => all_accepted(
                increment.after_write(CasOutcome::Stored),
                (steps - 1) as nat,
            ),
            _ => increment,
        }
    }
}

proof fn lemma_expected_writes_skip(counters: UsageMap, from: int)
    requires
        0 <= from <= 6,
    ensures
        expected_writes(counters, next_counter(counters, from)) == expected_writes(counters, from),
    decreases 6 - from,
{
    if from < 6 && !(counters.at(WindowKind::spec_from_index(from)) is Some) {
        lemma_expected_writes_skip(counters, from + 1);
        assert(expected_writes(counters, from) =~= expected_writes(counters, from + 1));
    }
}

proof fn lemma_writes_accepted(increment: Increment, steps: nat)
    requires
        increment.wf(),
        increment.retry == retry_at(increment.counters, increment.cursor as int),
        6 - increment.cursor <= steps,
        forall|kind: WindowKind| !increment.failed.at(kind),
    ensures
        writes_accepted(increment, steps) == expected_writes(
            increment.counters,
            increment.cursor as int,
        ),
        all_accepted(increment, steps).spec_step() is Done,
        forall|kind: WindowKind| !all_accepted(increment, steps).failed.at(kind),
    decreases steps,
{
    let counters = increment.counters;
    if increment.cursor < 6 {
        let next = increment.after_write(CasOutcome::Stored);
        lemma_next_counter(counters, increment.cursor + 1);
        lemma_expected_writes_skip(counters, increment.cursor + 1);
        assert forall|other: WindowKind| !next.failed.at(other) by {
            assert(!increment.failed.at(other));
        }
        lemma_writes_accepted(next, (steps - 1) as nat);
    }
}

/// Where the store accepts every write, the incrementer asks for one
/// write per evaluated window, finest window first, each of one more
/// than was read against the version that was read; then it is done,
/// with no window given up.
pub proof fn lemma_commit_writes_each_counter_once(counters: UsageMap)
    ensures
        writes_accepted(Increment::spec_begin(counters), 6) == expected_writes(counters, 0),
        all_accepted(Increment::spec_begin(counters), 6).spec_step() is Done,
        all_accepted(Increment::spec_begin(counters), 6).failed == PerWindow::spec_filled(false),
{
    let increment = Increment::spec_begin(counters);
    lemma_next_counter(counters, 0);
    lemma_expected_writes_skip(counters, 0);
    lemma_writes_accepted(increment, 6);
    lemma_same_at_every_kind(all_accepted(increment, 6).failed, PerWindow::spec_filled(false));
}

} // verus!
