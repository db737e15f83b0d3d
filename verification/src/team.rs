//! The search as a team of workers that take turns at the dispatcher: a
//! model of every order in which the workers of a search can come to act,
//! and what holds of the search in all of them.
//!
//! A turn is one action of a worker on the dispatcher together with the step
//! that the worker takes on the answer. The steps of a worker touch nothing
//! that is shared, so whatever the workers do at the same time comes to the
//! same as some order of turns.

use crate::digits::matches_at;
use crate::dispatcher::{
    lemma_cursor_after_acquire, lemma_cursor_from_start, DispatchView, NO_INDEX,
};
use crate::matrix::MAX_INDEX;
use crate::dispatcher::Dispatcher;
use crate::search::{none_match, perform, perform_spec};
use crate::worker::{chunk_in_range, step_spec, Action, Event, Worker, WorkerState, WorkerView};
use vstd::prelude::*;

verus! {

/// A worker of the team, with the action that it has asked for and that is
/// performed at its next turn: `None` once the worker has come to its end.
pub struct SeatView {
    pub worker: WorkerView,
    pub action: Option<Action>,
}

/// A dispatcher and the workers that share it.
pub struct TeamView {
    pub dispatcher: DispatchView,
    pub seats: Seq<SeatView>,
}

/// The team at the beginning of a search: nothing handed out, nothing found,
/// and every worker about to read the found flag.
pub open spec fn fresh_team(threads: nat, needle: Seq<u8>, chunk: int, start: int) -> TeamView {
    TeamView {
        dispatcher: DispatchView {
            start,
            chunk,
            dispatched: 0,
            found: false,
            found_idx: NO_INDEX as int,
        },
        seats: Seq::new(
            threads,
            |k: int|
                SeatView {
                    worker: WorkerView { chunk, needle, state: WorkerState::Polling },
                    action: Some(Action::Poll { progress: None }),
                },
        ),
    }
}

/// The seat after its action was performed with the answer `answer`: the
/// worker takes its step on the answer and asks for the next action, or has
/// come to its end where there is no answer.
pub open spec fn answered(seat: SeatView, answer: Option<Event>) -> SeatView {
    match answer {
        Some(event) => SeatView {
            worker: WorkerView { state: step_spec(seat.worker, event).0, ..seat.worker },
            action: Some(step_spec(seat.worker, event).1),
        },
        None => SeatView { worker: seat.worker, action: None },
    }
}

/// The team after a turn of the worker on seat `who`: what the worker has
/// asked for is performed on the dispatcher, and the worker takes its step
/// on the answer. A worker at its end, or a seat that the team does not
/// have, changes nothing.
pub open spec fn turn(team: TeamView, who: int) -> TeamView {
    if 0 <= who < team.seats.len() && team.seats[who].action is Some {
        let seat = team.seats[who];
        let performed = perform_spec(team.dispatcher, seat.action->0);
        TeamView {
            dispatcher: performed.0,
            seats: team.seats.update(who, answered(seat, performed.1)),
        }
    } else {
        team
    }
}

/// The team after the turns of `schedule`, in their order.
pub open spec fn run(team: TeamView, schedule: Seq<int>) -> TeamView
    decreases schedule.len(),
{
    if schedule.len() == 0 {
        team
    } else {
        turn(run(team, schedule.drop_last()), schedule.last())
    }
}

/// The seats named by a schedule of turns.
pub open spec fn turns_of(schedule: Seq<usize>) -> Seq<int> {
    schedule.map_values(|who: usize| who as int)
}

/// Every worker of the team has come to its end.
pub open spec fn ended(team: TeamView) -> bool {
    forall|k: int| 0 <= k < team.seats.len() ==> (#[trigger] team.seats[k]).action is None
}

/// The worker on `seat` answers for `index`: it has yet to examine it, since
/// the index lies in the chunk that the worker stands in, behind what was
/// examined; or it has a match to report, which will end the search.
pub open spec fn awaits(seat: SeatView, index: int) -> bool {
    match (seat.worker.state, seat.action) {
        (WorkerState::Scanning { beg, last }, Some(_)) => last < index <= beg + seat.worker.chunk,
        (WorkerState::Reported { .. }, Some(_)) => true,
        _ => false,
    }
}

/// The seat fits the dispatcher: the worker seeks the needle of the search
/// in chunks of the dispatcher's size; the action in store is the one that
/// goes with where the worker stands; the chunk that a worker stands in was
/// handed out; what a worker has to report is a match in such a chunk; and a
/// worker at its end has seen the flag set, has reported, or has found no
/// chunk left within reach.
pub open spec fn seat_fits(d: DispatchView, needle: Seq<u8>, seat: SeatView) -> bool {
    &&& seat.worker.needle == needle
    &&& seat.worker.chunk == d.chunk
    &&& seat.worker.well_formed()
    &&& match seat.worker.state {
        WorkerState::Polling => seat.action matches Some(Action::Poll { .. }),
        WorkerState::Acquiring => match seat.action {
            Some(action) => action == Action::Acquire,
            None => d.cursor() + d.chunk > MAX_INDEX,
        },
        WorkerState::Scanning { beg, last } => {
            &&& seat.action matches Some(Action::Poll { .. })
            &&& d.start <= beg
            &&& beg + d.chunk <= d.cursor()
        },
        WorkerState::Reported { index } => {
            &&& d.start < index <= d.cursor()
            &&& matches_at(needle, index as int)
            &&& match seat.action {
                Some(action) => action == (Action::Report { index }),
                None => d.found,
            }
        },
        WorkerState::Exited => d.found && match seat.action {
            Some(action) => action == Action::Exit,
            None => true,
        },
    }
}

/// What holds of a team at all times. The found index is a match that lies
/// behind the start and not behind the cursor, or there is none and the flag
/// is down; every seat fits the dispatcher; and while nothing is found, some
/// worker answers for each match between the start and the cursor.
pub open spec fn sound(team: TeamView, needle: Seq<u8>) -> bool {
    let d = team.dispatcher;
    &&& d.well_formed()
    &&& d.found ==> d.start < d.found_idx <= d.cursor() && matches_at(needle, d.found_idx)
    &&& !d.found ==> d.found_idx == NO_INDEX
    &&& forall|k: int| 0 <= k < team.seats.len() ==> seat_fits(d, needle, #[trigger] team.seats[k])
    &&& !d.found ==> forall|i: int|
        d.start < i <= d.cursor() && #[trigger] matches_at(needle, i) ==> exists|k: int|
            0 <= k < team.seats.len() && awaits(#[trigger] team.seats[k], i)
}

/// `later` is a state of the search that `earlier` is a state of: with the
/// same start, chunk size and seats, the cursor no further back and the
/// found flag not lowered.
pub open spec fn same_search(earlier: TeamView, later: TeamView) -> bool {
    &&& later.dispatcher.start == earlier.dispatcher.start
    &&& later.dispatcher.chunk == earlier.dispatcher.chunk
    &&& later.dispatcher.dispatched >= earlier.dispatcher.dispatched
    &&& later.dispatcher.cursor() >= earlier.dispatcher.cursor()
    &&& earlier.dispatcher.found ==> later.dispatcher.found
    &&& later.seats.len() == earlier.seats.len()
}

/// A fresh team is sound.
pub proof fn lemma_fresh_team_sound(threads: nat, needle: Seq<u8>, chunk: int, start: int)
    requires
        0 <= start,
        1 <= chunk,
    ensures
        sound(fresh_team(threads, needle, chunk, start), needle),
{
    let team = fresh_team(threads, needle, chunk, start);
    assert(0 * chunk == 0);
    assert(team.dispatcher.cursor() == start);
}

/// A turn keeps a team sound. It changes neither the start, nor the size of
/// a chunk, nor the number of seats; it moves the cursor forwards only, and
/// never lowers the found flag.
pub proof fn lemma_turn_sound(team: TeamView, needle: Seq<u8>, who: int)
    requires
        sound(team, needle),
    ensures
        sound(turn(team, who), needle),
        same_search(team, turn(team, who)),
{
    let d = team.dispatcher;
    let after = turn(team, who);
    let e = after.dispatcher;
    lemma_cursor_from_start(d);
    lemma_cursor_after_acquire(d);
    if 0 <= who < team.seats.len() && team.seats[who].action is Some {
        let seat = team.seats[who];
        let moved = after.seats[who];
        assert(seat_fits(d, needle, seat));
        assert(e.start == d.start && e.chunk == d.chunk);
        assert(d.cursor() <= e.cursor());
        assert(d.found ==> e.found);
        assert(seat_fits(e, needle, moved));
        assert forall|k: int| 0 <= k < after.seats.len() implies seat_fits(
            e,
            needle,
            #[trigger] after.seats[k],
        ) by {
            if k != who {
                assert(after.seats[k] == team.seats[k]);
                assert(seat_fits(d, needle, team.seats[k]));
            }
        }
        if !e.found {
            assert forall|i: int|
                e.start < i <= e.cursor() && #[trigger] matches_at(needle, i) implies exists|
                k: int,
            |
                0 <= k < after.seats.len() && awaits(#[trigger] after.seats[k], i) by {
                if i <= d.cursor() {
                    let k = choose|k: int|
                        0 <= k < team.seats.len() && awaits(#[trigger] team.seats[k], i);
                    if k == who {
                        assert(awaits(after.seats[who], i));
                    } else {
                        assert(after.seats[k] == team.seats[k]);
                        assert(awaits(after.seats[k], i));
                    }
                } else {
                    assert(awaits(after.seats[who], i));
                }
            }
        }
    }
}

/// Whatever the order of the turns, the team stays sound.
pub proof fn lemma_run_sound(team: TeamView, needle: Seq<u8>, schedule: Seq<int>)
    requires
        sound(team, needle),
    ensures
        sound(run(team, schedule), needle),
        same_search(team, run(team, schedule)),
    decreases schedule.len(),
{
    if schedule.len() > 0 {
        lemma_run_sound(team, needle, schedule.drop_last());
        lemma_turn_sound(run(team, schedule.drop_last()), needle, schedule.last());
    }
}

/// Whatever the order in which the workers of a search take their turns,
/// the found index is that of a Fibonacci number whose digits contain the
/// needle, or no index at all.
pub proof fn lemma_found_index_is_match(
    threads: nat,
    needle: Seq<u8>,
    chunk: int,
    start: int,
    schedule: Seq<int>,
)
    requires
        0 <= start,
        1 <= chunk,
    ensures
        ({
            let d = run(fresh_team(threads, needle, chunk, start), schedule).dispatcher;
            d.found_idx == NO_INDEX || (start < d.found_idx && matches_at(needle, d.found_idx))
        }),
{
    lemma_fresh_team_sound(threads, needle, chunk, start);
    lemma_run_sound(fresh_team(threads, needle, chunk, start), needle, schedule);
}

/// A search whose workers have all come to their end without a match has
/// left nothing out: no index between the start and the cursor matches, and
/// the next chunk would pass [`MAX_INDEX`].
pub proof fn lemma_ended_without_match(team: TeamView, needle: Seq<u8>)
    requires
        sound(team, needle),
        ended(team),
        !team.dispatcher.found,
        team.seats.len() >= 1,
    ensures
        none_match(needle, team.dispatcher.start, team.dispatcher.cursor()),
        team.dispatcher.cursor() + team.dispatcher.chunk > MAX_INDEX,
{
    let d = team.dispatcher;
    assert(seat_fits(d, needle, team.seats[0]));
    assert forall|i: int| d.start < i <= d.cursor() implies !matches_at(needle, i) by {
        if matches_at(needle, i) {
            let k = choose|k: int| 0 <= k < team.seats.len() && awaits(#[trigger] team.seats[k], i);
            assert(team.seats[k].action is None);
        }
    }
}

/// A dispatcher and the workers that share it, to be run turn by turn in any
/// order on one thread.
pub struct Team<'a> {
    needle: &'a [u8],
    dispatcher: Dispatcher,
    workers: Vec<Worker<'a>>,
    actions: Vec<Option<Action>>,
}

/// The seats that workers and their actions make up.
pub open spec fn seats_of(workers: Seq<WorkerView>, actions: Seq<Option<Action>>) -> Seq<
    SeatView,
> {
    Seq::new(workers.len(), |k: int| SeatView { worker: workers[k], action: actions[k] })
}

impl<'a> View for Team<'a> {
    type V = TeamView;

    closed spec fn view(&self) -> TeamView {
        TeamView {
            dispatcher: self.dispatcher@,
            seats: seats_of(self.workers@.map_values(|w: Worker<'a>| w@), self.actions@),
        }
    }
}

impl<'a> Team<'a> {
    #[verifier::type_invariant]
    spec fn inv(&self) -> bool {
        &&& self.workers@.len() == self.actions@.len()
        &&& sound(self@, self.needle@)
    }

    /// The bytes sought.
    pub closed spec fn needle(&self) -> Seq<u8> {
        self.needle@
    }

    /// A team of `threads` workers that seek `needle` in chunks of `chunk`
    /// indices from `start` on.
    pub fn new(threads: usize, needle: &'a [u8], chunk: i64, start: i64) -> (team: Self)
        requires
            0 <= start,
            1 <= chunk,
        ensures
            team@ == fresh_team(threads as nat, needle@, chunk as int, start as int),
            team.needle() == needle@,
    {
        let dispatcher: Dispatcher = Dispatcher::new(start, chunk);
        let mut workers: Vec<Worker<'a>> = Vec::new();
        let mut actions: Vec<Option<Action>> = Vec::new();
        let ghost fresh: TeamView = fresh_team(threads as nat, needle@, chunk as int, start as int);
        while workers.len() < threads
            invariant
                1 <= chunk,
                workers@.len() == actions@.len(),
                workers@.len() <= threads,
                fresh == fresh_team(threads as nat, needle@, chunk as int, start as int),
                forall|k: int|
                    0 <= k < workers@.len() ==> (#[trigger] workers@[k])@ == fresh.seats[k].worker
                        && actions@[k] == fresh.seats[k].action,
            decreases threads - workers.len(),
        {
            workers.push(Worker::new(chunk, needle));
            actions.push(Some(Action::Poll { progress: None }));
        }
        proof {
            lemma_fresh_team_sound(threads as nat, needle@, chunk as int, start as int);
            assert(seats_of(workers@.map_values(|w: Worker<'a>| w@), actions@) =~= fresh.seats);
        }
        Team { needle, dispatcher, workers, actions }
    }

    /// The number of workers.
    pub fn size(&self) -> (n: usize)
        ensures
            n == self@.seats.len(),
    {
        self.workers.len()
    }

    /// Whether every worker has come to its end.
    pub fn has_ended(&self) -> (all: bool)
        ensures
            all == ended(self@),
    {
        proof {
            use_type_invariant(self);
        }
        let mut k: usize = 0;
        while k < self.actions.len()
            invariant
                k <= self.actions@.len(),
                self.workers@.len() == self.actions@.len(),
                forall|j: int| 0 <= j < k ==> (#[trigger] self@.seats[j]).action is None,
            decreases self.actions.len() - k,
        {
            if self.actions[k].is_some() {
                assert(self@.seats[k as int].action is Some);
                return false;
            }
            k = k + 1;
        }
        true
    }

    /// The found index: [`NO_INDEX`], or the index of a match.
    pub fn found_index(&self) -> (index: i64)
        ensures
            index == self@.dispatcher.found_idx,
            sound(self@, self.needle()),
    {
        proof {
            use_type_invariant(self);
        }
        self.dispatcher.found_index()
    }

    /// The first index that no chunk holds yet.
    pub fn cursor(&self) -> (c: i64)
        ensures
            c == self@.dispatcher.cursor(),
    {
        self.dispatcher.cursor()
    }

    /// One turn of the worker on seat `who`.
    pub fn turn(self, who: usize) -> (next: Team<'a>)
        ensures
            next@ == turn(self@, who as int),
            next.needle() == self.needle(),
    {
        proof {
            use_type_invariant(&self);
            lemma_turn_sound(self@, self.needle@, who as int);
        }
        let ghost before: TeamView = self@;
        let Team { needle, dispatcher, workers, actions } = self;
        let mut dispatcher: Dispatcher = dispatcher;
        let mut workers: Vec<Worker<'a>> = workers;
        let mut actions: Vec<Option<Action>> = actions;
        if who < workers.len() {
            let ghost old_workers: Seq<WorkerView> = workers@.map_values(|w: Worker<'a>| w@);
            let ghost old_actions: Seq<Option<Action>> = actions@;
            assert(before.seats[who as int] == SeatView {
                worker: old_workers[who as int],
                action: old_actions[who as int],
            });
            match actions[who] {
                Some(action) => {
                    match perform(action, &mut dispatcher) {
                        Some(event) => {
                            let worker: Worker<'a> = workers.remove(who);
                            let stepped: (Worker<'a>, Action) = worker.step(event);
                            workers.insert(who, stepped.0);
                            actions.set(who, Some(stepped.1));
                        },
                        None => {
                            actions.set(who, None);
                        },
                    }
                    assert(seats_of(workers@.map_values(|w: Worker<'a>| w@), actions@) =~= turn(
                        before,
                        who as int,
                    ).seats);
                },
                None => {},
            }
        }
        Team { needle, dispatcher, workers, actions }
    }

    /// The turns of `schedule`, in their order.
    pub fn run(self, schedule: &[usize]) -> (next: Team<'a>)
        ensures
            next@ == run(self@, turns_of(schedule@)),
            next.needle() == self.needle(),
    {
        let ghost first: TeamView = self@;
        let ghost sought: Seq<u8> = self.needle();
        let mut team: Team<'a> = self;
        let mut done: usize = 0;
        assert(turns_of(schedule@.subrange(0, 0)) =~= Seq::<int>::empty());
        while done < schedule.len()
            invariant
                done <= schedule.len(),
                team.needle() == sought,
                team@ == run(first, turns_of(schedule@.subrange(0, done as int))),
            decreases schedule.len() - done,
        {
            let ghost sooner: Seq<int> = turns_of(schedule@.subrange(0, done as int));
            let ghost later: Seq<int> = turns_of(schedule@.subrange(0, done + 1));
            assert(later.drop_last() =~= sooner);
            assert(later.last() == schedule@[done as int]);
            team = team.turn(schedule[done]);
            done = done + 1;
        }
        assert(schedule@.subrange(0, schedule@.len() as int) =~= schedule@);
        team
    }
}

} // verus!
