//! Many requests at once on one counter: a model of a store with
//! conditional writes, and the proof that no increment is lost however
//! the steps of the requests interleave.

use crate::increment::{Retry, RetryStep};
use crate::store::CasOutcome;
use vstd::prelude::*;

verus! {

/// A counter as the store holds it. Each write gives it a new
/// version; version 0 stands for a counter that was never written.
pub struct StoredCounter {
    pub value: i32,
    pub version: u32,
}

impl StoredCounter {
    pub open spec fn absent() -> StoredCounter {
        StoredCounter { value: 0, version: 0 }
    }

    /// What a read gives: count and version, and for a counter that
    /// was never written a count of zero and no version.
    pub open spec fn read(self) -> (i32, Option<u32>) {
        if self.version == 0 {
            (0, None)
        } else {
            (self.value, Some(self.version))
        }
    }

    /// Whether a write against version `cas` goes through: the counter
    /// is at that version, or, without a version, was never written.
    pub open spec fn accepts(self, cas: Option<u32>) -> bool {
        match cas {
            Some(version) => self.version != 0 && version == self.version,
            None => self.version == 0,
        }
    }

    pub open spec fn written(self, value: i32) -> StoredCounter {
        StoredCounter { value, version: (self.version + 1) as u32 }
    }
}

/// One step of one request, and how the store behaves at it.
pub enum Event {
    /// The request takes its next step and the store answers as it
    /// should.
    Step { session: int },
    /// The request takes its next step; if that is a write, the store
    /// reports a conflict and writes nothing.
    Conflict { session: int },
    /// The request takes its next step and the store fails.
    Fault { session: int, fault: String },
}

impl Event {
    pub open spec fn session(self) -> int {
        match self {
            Event::Step { session } => session,
            Event::Conflict { session } => session,
            Event::Fault { session, .. } => session,
        }
    }
}

/// The counter and the requests that are to increment it. A request
/// that has not read the counter yet has no state.
pub struct World {
    pub counter: StoredCounter,
    pub sessions: Seq<Option<Retry>>,
}

pub open spec fn initial(requests: nat) -> World {
    World {
        counter: StoredCounter::absent(),
        sessions: Seq::new(requests, |i: int| None::<Retry>),
    }
}

/// The world after one event. A request first reads the counter, then
/// goes by its own steps: a write reaches the store unless the event
/// has the store refuse it, and is stored exactly when the store
/// accepts its version.
pub open spec fn step(world: World, event: Event) -> World {
    let i = event.session();
    if !(0 <= i < world.sessions.len()) {
        world
    } else {
        match world.sessions[i] {
            None => match event {
                Event::Fault { .. } => world,
                _ => {
                    let (value, cas) = world.counter.read();
                    World {
                        counter: world.counter,
                        sessions: world.sessions.update(i, Some(Retry::spec_begin(value, cas))),
                    }
                },
            },
            Some(retry) => match retry.spec_step() {
                RetryStep::Write { value, cas } => match event {
                    Event::Step { .. } => if world.counter.accepts(cas) {
                        World {
                            counter: world.counter.written(value),
                            sessions: world.sessions.update(
                                i,
                                Some(retry.after_write(CasOutcome::Stored)),
                            ),
                        }
                    } else {
                        World {
                            counter: world.counter,
                            sessions: world.sessions.update(
                                i,
                                Some(retry.after_write(CasOutcome::VersionConflict)),
                            ),
                        }
                    },
                    Event::Conflict { .. } => World {
                        counter: world.counter,
                        sessions: world.sessions.update(
                            i,
                            Some(retry.after_write(CasOutcome::VersionConflict)),
                        ),
                    },
                    Event::Fault { .. } => World {
                        counter: world.counter,
                        sessions: world.sessions.update(
                            i,
                            Some(retry.after_write(CasOutcome::OtherError)),
                        ),
                    },
                },
                RetryStep::Read => match event {
                    Event::Fault { fault, .. } => World {
                        counter: world.counter,
                        sessions: world.sessions.update(i, Some(retry.after_read(Err(fault)))),
                    },
                    _ => World {
                        counter: world.counter,
                        sessions: world.sessions.update(
                            i,
                            Some(retry.after_read(Ok(world.counter.read()))),
                        ),
                    },
                },
                RetryStep::Done { .. } => world,
            },
        }
    }
}

/// The world after the events of `events`, in order.
pub open spec fn run(world: World, events: Seq<Event>) -> World
    decreases events.len(),
{
    if events.len() == 0 {
        world
    } else {
        step(run(world, events.drop_last()), events.last())
    }
}

/// Whether the increment of a request is stored.
pub open spec fn is_stored(session: Option<Retry>) -> bool {
    session matches Some(retry) && retry.phase is Stored
}

/// How many of the requests have their increment stored.
pub open spec fn stored_count(sessions: Seq<Option<Retry>>) -> nat
    decreases sessions.len(),
{
    if sessions.len() == 0 {
        0
    } else {
        stored_count(sessions.drop_last()) + if is_stored(sessions.last()) {
            1nat
        } else {
            0nat
        }
    }
}

proof fn lemma_count_bounds(sessions: Seq<Option<Retry>>)
    ensures
        stored_count(sessions) <= sessions.len(),
        (forall|i: int| 0 <= i < sessions.len() ==> is_stored(#[trigger] sessions[i]))
            ==> stored_count(sessions) == sessions.len(),
    decreases sessions.len(),
{
    if sessions.len() > 0 {
        lemma_count_bounds(sessions.drop_last());
        if forall|i: int| 0 <= i < sessions.len() ==> is_stored(#[trigger] sessions[i]) {
            assert forall|i: int| 0 <= i < sessions.drop_last().len() implies is_stored(
                #[trigger] sessions.drop_last()[i],
            ) by {
                assert(sessions.drop_last()[i] == sessions[i]);
            }
        }
    }
}

proof fn lemma_count_update(sessions: Seq<Option<Retry>>, i: int, session: Option<Retry>)
    requires
        0 <= i < sessions.len(),
    ensures
        stored_count(sessions.update(i, session)) + (if is_stored(sessions[i]) {
            1int
        } else {
            0int
        }) == stored_count(sessions) + (if is_stored(session) {
            1int
        } else {
            0int
        }),
    decreases sessions.len(),
{
    let updated = sessions.update(i, session);
    if i == sessions.len() - 1 {
        assert(updated.drop_last() =~= sessions.drop_last());
    } else {
        assert(updated.drop_last() =~= sessions.drop_last().update(i, session));
        lemma_count_update(sessions.drop_last(), i, session);
    }
}

proof fn lemma_count_initial(requests: nat)
    ensures
        stored_count(initial(requests).sessions) == 0,
    decreases requests,
{
    if requests > 0 {
        assert(initial(requests).sessions.drop_last() =~= initial((requests - 1) as nat).sessions);
        lemma_count_initial((requests - 1) as nat);
    }
}

/// What a request that is not finished knows of the counter is not
/// ahead of the store, and is the stored count where its version is
/// the current one.
pub open spec fn informed(counter: StoredCounter, retry: Retry) -> bool {
    match retry.cas {
        Some(version) => 1 <= version <= counter.version && (version == counter.version
            ==> retry.value == counter.value),
        None => retry.value == 0,
    }
}

/// What holds of every world that the requests can reach.
pub open spec fn consistent(world: World, requests: nat) -> bool {
    &&& world.sessions.len() == requests
    &&& world.counter.version == stored_count(world.sessions)
    &&& world.counter.value == stored_count(world.sessions)
    &&& forall|i: int|
        0 <= i < world.sessions.len() ==> ((#[trigger] world.sessions[i]) matches Some(retry)
            ==> retry.wf() && (!retry.spec_finished() ==> informed(world.counter, retry)))
}

proof fn lemma_step_consistent(world: World, event: Event, requests: nat)
    requires
        consistent(world, requests),
        requests <= i32::MAX,
    ensures
        consistent(step(world, event), requests),
{
    let i = event.session();
    let next = step(world, event);
    if 0 <= i < world.sessions.len() {
        lemma_count_update(world.sessions, i, next.sessions[i]);
        lemma_count_bounds(next.sessions);
        assert forall|j: int| 0 <= j < next.sessions.len() implies ((
        #[trigger] next.sessions[j]) matches Some(retry) ==> retry.wf() && (!retry.spec_finished()
            ==> informed(next.counter, retry))) by {
            if j != i {
                assert(next.sessions[j] == world.sessions[j]);
            }
        }
    }
}

proof fn lemma_run_consistent(requests: nat, events: Seq<Event>)
    requires
        requests <= i32::MAX,
    ensures
        consistent(run(initial(requests), events), requests),
    decreases events.len(),
{
    if events.len() == 0 {
        lemma_count_initial(requests);
    } else {
        lemma_run_consistent(requests, events.drop_last());
        lemma_step_consistent(run(initial(requests), events.drop_last()), events.last(), requests);
    }
}

/// No increment is lost. Whatever number of requests work on one
/// counter that the store did not hold before, however their steps
/// interleave, and whatever conflicts and faults the store reports,
/// the stored count is the number of requests whose increment was
/// stored; once that is all of them, it is their number.
pub proof fn lemma_no_lost_updates(requests: nat, events: Seq<Event>)
    requires
        requests <= i32::MAX,
    ensures
        run(initial(requests), events).sessions.len() == requests,
        run(initial(requests), events).counter.value == stored_count(
            run(initial(requests), events).sessions,
        ),
        (forall|i: int|
            0 <= i < requests ==> is_stored(#[trigger] run(initial(requests), events).sessions[i]))
            ==> run(initial(requests), events).counter.value == requests,
{
    lemma_run_consistent(requests, events);
    lemma_count_bounds(run(initial(requests), events).sessions);
}

} // verus!
