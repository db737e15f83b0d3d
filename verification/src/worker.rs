//! The worker: a state machine that scans chunk after chunk for the needle.
//!
//! A worker owns no shared state. Whoever runs it performs the [`Action`] that
//! a step returns, on the dispatcher and the terminal, and hands the answer
//! back as the next [`Event`]. A worker begins by asking for the found flag.

use crate::bigint::{ibig_from_i32, ibig_value};
use crate::digits::{has_needle, matches_at};
use crate::fib::fib;
use crate::matrix::{calc_fib_x, fib_step, lemma_fib_step_fits, MAX_INDEX};
use ibig::IBig;
use vstd::prelude::*;

verus! {

/// A progress notice: how far the scan of the current chunk has come.
#[derive(Clone, Copy, Debug, PartialEq, Eq)]
pub struct Progress {
    /// Hundredths of the chunk that lie behind, at most 100.
    pub percent: i64,
    /// The index that the scan has reached.
    pub index: i64,
}

/// What the runner hands to a worker.
#[derive(Clone, Copy, Debug, PartialEq, Eq)]
pub enum Event {
    /// The found flag, as it was just read.
    Flag(bool),
    /// The beginning of the chunk that the dispatcher just handed out.
    Chunk(i64),
}

/// What a worker asks of the runner.
#[derive(Clone, Copy, Debug, PartialEq, Eq)]
pub enum Action {
    /// Show the progress notice, if there is one; then read the found flag
    /// and answer with [`Event::Flag`].
    Poll { progress: Option<Progress> },
    /// Take the next chunk from the dispatcher and answer with
    /// [`Event::Chunk`].
    Acquire,
    /// Report the match at `index`; there is no answer, the worker has
    /// finished.
    Report { index: i64 },
    /// Nothing, and there is no answer: the worker has finished without a
    /// match.
    Exit,
}

/// Where a worker stands.
#[derive(Clone, Copy, Debug, PartialEq, Eq)]
pub enum WorkerState {
    /// Before the first chunk, waiting for the found flag.
    Polling,
    /// Waiting for a chunk.
    Acquiring,
    /// Inside the chunk that begins at `beg`: every index above `beg` up to
    /// `last` was examined and did not match. Waiting for the found flag.
    Scanning { beg: i64, last: i64 },
    /// Finished with a match at `index`.
    Reported { index: i64 },
    /// Finished without a match.
    Exited,
}

/// What a [`Worker`] stands for.
pub struct WorkerView {
    /// The number of indices in each chunk.
    pub chunk: int,
    /// The bytes sought.
    pub needle: Seq<u8>,
    /// Where the worker stands.
    pub state: WorkerState,
}

impl WorkerView {
    /// The chunk size is at least one, and a worker inside a chunk stands
    /// within it, and the chunk within reach.
    pub open spec fn well_formed(self) -> bool {
        &&& 1 <= self.chunk
        &&& self.state matches WorkerState::Scanning { beg, last } ==> chunk_in_range(
            beg as int,
            self.chunk,
        ) && beg < last <= beg + self.chunk
    }
}

/// The chunk that begins at `beg` lies within the indices that the engine
/// reaches.
pub open spec fn chunk_in_range(beg: int, chunk: int) -> bool {
    0 <= beg && 1 <= chunk && beg + chunk <= MAX_INDEX
}

/// The progress notice that goes with the examination of `index` in the
/// chunk that begins at `beg`. Notices start with the third index of a chunk
/// and come whenever the index before the examined one is a multiple of a
/// hundredth of the chunk; a chunk of fewer than 100 indices has none.
pub open spec fn progress_due(beg: int, chunk: int, index: int) -> Option<Progress> {
    let unit = chunk / 100;
    let reached = index - 1;
    if unit >= 1 && index > beg + 2 && reached % unit == 0 {
        let done = (reached - beg) / unit;
        Some(
            Progress {
                percent: (if done > 100 {
                    100
                } else {
                    done
                }) as i64,
                index: reached as i64,
            },
        )
    } else {
        None
    }
}

/// The action that a worker in `state` is waiting on.
pub open spec fn pending(state: WorkerState) -> Action {
    match state {
        WorkerState::Polling => Action::Poll { progress: None },
        WorkerState::Acquiring => Action::Acquire,
        WorkerState::Scanning { .. } => Action::Poll { progress: None },
        WorkerState::Reported { .. } => Action::Exit,
        WorkerState::Exited => Action::Exit,
    }
}

/// The outcome of examining `index` in the chunk that begins at `beg`.
pub open spec fn examine(needle: Seq<u8>, chunk: int, beg: int, index: int) -> (
    WorkerState,
    Action,
) {
    if matches_at(needle, index) {
        (WorkerState::Reported { index: index as i64 }, Action::Report { index: index as i64 })
    } else {
        (
            WorkerState::Scanning { beg: beg as i64, last: index as i64 },
            Action::Poll { progress: progress_due(beg, chunk, index) },
        )
    }
}

/// The outcome of entering the chunk that begins at `beg`: its first three
/// indices are examined in turn, as far as the chunk has them and none
/// matches, without a look at the found flag in between.
pub open spec fn enter(needle: Seq<u8>, chunk: int, beg: int) -> (WorkerState, Action) {
    if matches_at(needle, beg + 1) || chunk < 2 {
        examine(needle, chunk, beg, beg + 1)
    } else if matches_at(needle, beg + 2) || chunk < 3 {
        examine(needle, chunk, beg, beg + 2)
    } else {
        examine(needle, chunk, beg, beg + 3)
    }
}

/// The transition of a worker: the state that follows and the action asked
/// for, given where the worker stands and what the runner hands it.
///
/// A set flag ends the worker between chunks and between indices. A worker
/// between chunks asks for the next one; handed a chunk within range it
/// enters it, handed any other it ends. Inside a chunk each step examines
/// one more index, and asks for the next chunk when none is left. An event
/// that does not answer the pending action changes nothing.
pub open spec fn step_spec(w: WorkerView, event: Event) -> (WorkerState, Action) {
    match (w.state, event) {
        (WorkerState::Polling, Event::Flag(found)) => if found {
            (WorkerState::Exited, Action::Exit)
        } else {
            (WorkerState::Acquiring, Action::Acquire)
        },
        (WorkerState::Acquiring, Event::Chunk(beg)) => if chunk_in_range(beg as int, w.chunk) {
            enter(w.needle, w.chunk, beg as int)
        } else {
            (WorkerState::Exited, Action::Exit)
        },
        (WorkerState::Scanning { beg, last }, Event::Flag(found)) => if found {
            (WorkerState::Exited, Action::Exit)
        } else if last >= beg + w.chunk {
            (WorkerState::Acquiring, Action::Acquire)
        } else {
            examine(w.needle, w.chunk, beg as int, last + 1)
        },
        _ => (w.state, pending(w.state)),
    }
}

/// A worker reports nothing but a match, and only from the chunk it stands
/// in or was just handed; and it stays well formed.
pub proof fn lemma_report_is_match(w: WorkerView, event: Event)
    requires
        w.well_formed(),
    ensures
        (WorkerView { state: step_spec(w, event).0, ..w }).well_formed(),
        step_spec(w, event).1 matches Action::Report { index } ==> {
            &&& matches_at(w.needle, index as int)
            &&& step_spec(w, event).0 == (WorkerState::Reported { index })
            &&& match (w.state, event) {
                (WorkerState::Acquiring, Event::Chunk(beg)) => beg < index <= beg + w.chunk,
                (WorkerState::Scanning { beg, last }, _) => index == last + 1 && index <= beg
                    + w.chunk,
                _ => false,
            }
        },
{
}

/// One worker of the search.
pub struct Worker<'a> {
    chunk: i64,
    needle: &'a [u8],
    state: WorkerState,
    /// The index of `lower`.
    at: i64,
    /// The Fibonacci number of index `at + 1`.
    upper: IBig,
    /// The Fibonacci number of index `at`.
    lower: IBig,
}

impl<'a> View for Worker<'a> {
    type V = WorkerView;

    closed spec fn view(&self) -> WorkerView {
        WorkerView { chunk: self.chunk as int, needle: self.needle@, state: self.state }
    }
}

/// The notice of `progress_due`, computed.
fn progress_at(beg: i64, chunk: i64, index: i64) -> (notice: Option<Progress>)
    requires
        chunk_in_range(beg as int, chunk as int),
        beg < index <= beg + chunk,
    ensures
        notice == progress_due(beg as int, chunk as int, index as int),
{
    let unit: i64 = chunk / 100;
    let reached: i64 = index - 1;
    if unit >= 1 && index > beg + 2 && reached % unit == 0 {
        let done: i64 = (reached - beg) / unit;
        Some(Progress { percent: if done > 100 { 100 } else { done }, index: reached })
    } else {
        None
    }
}

impl<'a> Worker<'a> {
    #[verifier::type_invariant]
    spec fn inv(&self) -> bool {
        &&& 1 <= self.chunk
        &&& self.state matches WorkerState::Scanning { beg, last } ==> {
            &&& chunk_in_range(beg as int, self.chunk as int)
            &&& beg < self.at <= last <= self.at + 1
            &&& last <= beg + self.chunk
            &&& ibig_value(self.upper) == fib((self.at + 1) as nat)
            &&& ibig_value(self.lower) == fib(self.at as nat)
        }
    }

    /// A worker for chunks of `chunk` indices that seeks `needle`. It stands
    /// between chunks and waits for the found flag.
    pub fn new(chunk: i64, needle: &'a [u8]) -> (w: Self)
        requires
            1 <= chunk,
        ensures
            w@ == (WorkerView {
                chunk: chunk as int,
                needle: needle@,
                state: WorkerState::Polling,
            }),
    {
        Worker {
            chunk,
            needle,
            state: WorkerState::Polling,
            at: 0,
            upper: ibig_from_i32(0),
            lower: ibig_from_i32(0),
        }
    }

    /// Where the worker stands.
    pub fn state(&self) -> (s: WorkerState)
        ensures
            s == self@.state,
            self@.well_formed(),
    {
        proof {
            use_type_invariant(self);
        }
        self.state
    }

    /// The bytes sought.
    pub fn needle(&self) -> (n: &'a [u8])
        ensures
            n@ == self@.needle,
    {
        self.needle
    }

    /// The number of indices in each chunk.
    pub fn chunk(&self) -> (c: i64)
        ensures
            c == self@.chunk,
            c >= 1,
    {
        proof {
            use_type_invariant(self);
        }
        self.chunk
    }

    /// One transition: takes the runner's answer to the action asked for
    /// last, and returns the worker in its next state with the action that it
    /// asks for now.
    pub fn step(self, event: Event) -> (next: (Worker<'a>, Action))
        ensures
            next.0@.chunk == self@.chunk,
            next.0@.needle == self@.needle,
            (next.0@.state, next.1) == step_spec(self@, event),
    {
        proof {
            use_type_invariant(&self);
        }
        let Worker { chunk, needle, state, at, upper, lower } = self;
        match (state, event) {
            (WorkerState::Polling, Event::Flag(found)) => {
                if found {
                    (
                        Worker { chunk, needle, state: WorkerState::Exited, at, upper, lower },
                        Action::Exit,
                    )
                } else {
                    (
                        Worker { chunk, needle, state: WorkerState::Acquiring, at, upper, lower },
                        Action::Acquire,
                    )
                }
            },
            (WorkerState::Acquiring, Event::Chunk(beg)) => {
                if 0 <= beg && beg <= MAX_INDEX - chunk {
                    let pair: (IBig, IBig) = calc_fib_x(beg + 1);
                    let first: i64 = beg + 1;
                    if has_needle(&pair.1, needle) {
                        (
                            Worker {
                                chunk,
                                needle,
                                state: WorkerState::Reported { index: first },
                                at: first,
                                upper: pair.0,
                                lower: pair.1,
                            },
                            Action::Report { index: first },
                        )
                    } else if chunk < 2 {
                        (
                            Worker {
                                chunk,
                                needle,
                                state: WorkerState::Scanning { beg, last: first },
                                at: first,
                                upper: pair.0,
                                lower: pair.1,
                            },
                            Action::Poll { progress: None },
                        )
                    } else if has_needle(&pair.0, needle) {
                        (
                            Worker {
                                chunk,
                                needle,
                                state: WorkerState::Reported { index: first + 1 },
                                at: first,
                                upper: pair.0,
                                lower: pair.1,
                            },
                            Action::Report { index: first + 1 },
                        )
                    } else if chunk < 3 {
                        (
                            Worker {
                                chunk,
                                needle,
                                state: WorkerState::Scanning { beg, last: first + 1 },
                                at: first,
                                upper: pair.0,
                                lower: pair.1,
                            },
                            Action::Poll { progress: None },
                        )
                    } else {
                        proof {
                            lemma_fib_step_fits(first as nat);
                        }
                        let pair: (IBig, IBig) = fib_step(pair);
                        let third: i64 = first + 2;
                        if has_needle(&pair.0, needle) {
                            (
                                Worker {
                                    chunk,
                                    needle,
                                    state: WorkerState::Reported { index: third },
                                    at: first + 1,
                                    upper: pair.0,
                                    lower: pair.1,
                                },
                                Action::Report { index: third },
                            )
                        } else {
                            let progress: Option<Progress> = progress_at(beg, chunk, third);
                            (
                                Worker {
                                    chunk,
                                    needle,
                                    state: WorkerState::Scanning { beg, last: third },
                                    at: first + 1,
                                    upper: pair.0,
                                    lower: pair.1,
                                },
                                Action::Poll { progress },
                            )
                        }
                    }
                } else {
                    (
                        Worker { chunk, needle, state: WorkerState::Exited, at, upper, lower },
                        Action::Exit,
                    )
                }
            },
            (WorkerState::Scanning { beg, last }, Event::Flag(found)) => {
                if found {
                    (
                        Worker { chunk, needle, state: WorkerState::Exited, at, upper, lower },
                        Action::Exit,
                    )
                } else if last >= beg + chunk {
                    (
                        Worker { chunk, needle, state: WorkerState::Acquiring, at, upper, lower },
                        Action::Acquire,
                    )
                } else {
                    let index: i64 = last + 1;
                    let mut at: i64 = at;
                    let mut pair: (IBig, IBig) = (upper, lower);
                    if last > at {
                        proof {
                            lemma_fib_step_fits(at as nat);
                        }
                        pair = fib_step(pair);
                        at = at + 1;
                    }
                    let upper: IBig = pair.0;
                    let lower: IBig = pair.1;
                    if has_needle(&upper, needle) {
                        (
                            Worker {
                                chunk,
                                needle,
                                state: WorkerState::Reported { index },
                                at,
                                upper,
                                lower,
                            },
                            Action::Report { index },
                        )
                    } else {
                        let progress: Option<Progress> = progress_at(beg, chunk, index);
                        (
                            Worker {
                                chunk,
                                needle,
                                state: WorkerState::Scanning { beg, last: index },
                                at,
                                upper,
                                lower,
                            },
                            Action::Poll { progress },
                        )
                    }
                }
            },
            (WorkerState::Polling, _) => (
                Worker { chunk, needle, state, at, upper, lower },
                Action::Poll { progress: None },
            ),
            (WorkerState::Acquiring, _) => (
                Worker { chunk, needle, state, at, upper, lower },
                Action::Acquire,
            ),
            (WorkerState::Scanning { .. }, _) => (
                Worker { chunk, needle, state, at, upper, lower },
                Action::Poll { progress: None },
            ),
            (WorkerState::Reported { .. }, _) => (
                Worker { chunk, needle, state, at, upper, lower },
                Action::Exit,
            ),
            (WorkerState::Exited, _) => (
                Worker { chunk, needle, state, at, upper, lower },
                Action::Exit,
            ),
        }
    }
}

} // verus!
