//! Performing on the dispatcher what a worker asks for, and running a worker
//! to its end against a dispatcher that nothing else touches: the scan of
//! one chunk, and the search chunk after chunk.

use crate::digits::{is_digit, lemma_foreign_byte_never_occurs, matches_at};
use crate::dispatcher::{
    lemma_cursor_after_acquire, lemma_cursor_from_start, DispatchView, Dispatcher,
};
use crate::fib::fib;
use crate::matrix::MAX_INDEX;
use crate::worker::{chunk_in_range, Action, Event, Worker, WorkerState};
use vstd::prelude::*;

verus! {

/// No index above `lo` and up to `hi` matches.
pub open spec fn none_match(needle: Seq<u8>, lo: int, hi: int) -> bool {
    forall|i: int| lo < i <= hi ==> !matches_at(needle, i)
}

/// The least index above `lo` and up to `hi` that matches, if there is one.
pub open spec fn first_match(needle: Seq<u8>, lo: int, hi: int) -> Option<int>
    decreases hi - lo,
{
    if lo >= hi {
        None
    } else if matches_at(needle, lo + 1) {
        Some(lo + 1)
    } else {
        first_match(needle, lo + 1, hi)
    }
}

/// `first_match` is the least match of its range, and `None` only where the
/// range holds no match.
pub proof fn lemma_first_match(needle: Seq<u8>, lo: int, hi: int)
    ensures
        match first_match(needle, lo, hi) {
            Some(index) => lo < index <= hi && matches_at(needle, index) && none_match(
                needle,
                lo,
                index - 1,
            ),
            None => none_match(needle, lo, hi),
        },
    decreases hi - lo,
{
    if lo < hi && !matches_at(needle, lo + 1) {
        lemma_first_match(needle, lo + 1, hi);
    }
}

/// A match with none below it in the range is what `first_match` finds.
pub proof fn lemma_first_match_is(needle: Seq<u8>, lo: int, hi: int, index: int)
    requires
        lo < index <= hi,
        matches_at(needle, index),
        none_match(needle, lo, index - 1),
    ensures
        first_match(needle, lo, hi) == Some(index),
    decreases hi - lo,
{
    if !matches_at(needle, lo + 1) {
        lemma_first_match_is(needle, lo + 1, hi, index);
    }
}

/// A range without a match has no first match.
pub proof fn lemma_first_match_none(needle: Seq<u8>, lo: int, hi: int)
    requires
        none_match(needle, lo, hi),
    ensures
        first_match(needle, lo, hi) is None,
    decreases hi - lo,
{
    if lo < hi {
        lemma_first_match_none(needle, lo + 1, hi);
    }
}

/// A needle that holds a byte which is no digit matches at no index.
pub proof fn lemma_foreign_needle_never_matches(needle: Seq<u8>, k: int, lo: int, hi: int)
    requires
        0 <= k < needle.len(),
        !is_digit(needle[k]),
    ensures
        none_match(needle, lo, hi),
        first_match(needle, lo, hi) is None,
{
    assert forall|i: int| lo < i <= hi implies !matches_at(needle, i) by {
        if 0 <= i {
            lemma_foreign_byte_never_occurs(fib(i as nat), needle, k);
        }
    }
    lemma_first_match_none(needle, lo, hi);
}

/// What performing `action` on a dispatcher in state `d` leads to: the state
/// that follows, and the event that answers the action, or `None` where the
/// worker that asked has come to its end.
///
/// A poll is answered with the found flag. A chunk is handed out while it
/// lies within reach; once the next chunk would pass [`MAX_INDEX`] the worker
/// ends. A report is recorded and ends the worker, as does an exit.
pub open spec fn perform_spec(d: DispatchView, action: Action) -> (DispatchView, Option<Event>) {
    match action {
        Action::Poll { .. } => (d, Some(Event::Flag(d.found))),
        Action::Acquire => if d.cursor() + d.chunk <= MAX_INDEX {
            (d.after_acquire(), Some(Event::Chunk(d.cursor() as i64)))
        } else {
            (d, None)
        },
        Action::Report { index } => (d.after_report(index as int), None),
        Action::Exit => (d, None),
    }
}

/// Performs on the dispatcher what a worker asks for, and returns the event
/// to hand to the worker next, or `None` where the worker has come to its
/// end. Showing a progress notice is left to the caller.
pub fn perform(action: Action, dispatcher: &mut Dispatcher) -> (answer: Option<Event>)
    ensures
        (final(dispatcher)@, answer) == perform_spec(old(dispatcher)@, action),
{
    match action {
        Action::Poll { progress: _ } => Some(Event::Flag(dispatcher.poll_found())),
        Action::Acquire => {
            let chunk: i64 = dispatcher.chunk();
            proof {
                lemma_cursor_from_start(dispatcher@);
            }
            if dispatcher.cursor() <= MAX_INDEX - chunk {
                Some(Event::Chunk(dispatcher.acquire_chunk()))
            } else {
                None
            }
        },
        Action::Report { index } => {
            dispatcher.try_report(index);
            None
        },
        Action::Exit => None,
    }
}

/// What the scan of one chunk did.
#[derive(Clone, Copy, Debug, PartialEq, Eq)]
pub struct ScanReport {
    /// The number of indices examined.
    pub examined: i64,
    /// The index reported as a match, if one was.
    pub reported: Option<i64>,
}

/// The number of indices that a worker examines on entering a chunk, before
/// it first reads the found flag.
pub open spec fn first_look(chunk: int) -> int {
    if chunk < 3 {
        chunk
    } else {
        3
    }
}

/// What the scan of the chunk that begins at `beg` does, given whether the
/// found flag was set before: it reports the first match of the chunk and
/// stops there; with the flag set it stops after its first look unless that
/// look matched; without a match it examines the whole chunk.
pub open spec fn scan_spec(needle: Seq<u8>, beg: int, chunk: int, found_before: bool) -> (
    int,
    Option<int>,
) {
    match first_match(needle, beg, beg + chunk) {
        Some(index) => if index <= beg + first_look(chunk) || !found_before {
            (index - beg, Some(index))
        } else {
            (first_look(chunk), None)
        },
        None => if found_before {
            (first_look(chunk), None)
        } else {
            (chunk, None)
        },
    }
}

/// With the found flag down, the scan for a needle that holds a byte which is
/// no digit examines the whole chunk and reports nothing.
pub proof fn lemma_scan_of_foreign_needle(needle: Seq<u8>, k: int, beg: int, chunk: int)
    requires
        0 <= k < needle.len(),
        !is_digit(needle[k]),
    ensures
        scan_spec(needle, beg, chunk, false) == (chunk, None::<int>),
{
    lemma_foreign_needle_never_matches(needle, k, beg, beg + chunk);
}

/// Scans the chunk of `chunk` indices that begins at `beg`: examines the
/// indices `beg + 1` to `beg + chunk` in turn, reports the first one that
/// matches to the dispatcher and stops there, and stops early once it reads
/// a set found flag.
pub fn scan(beg: i64, chunk: i64, needle: &[u8], dispatcher: &mut Dispatcher) -> (report:
    ScanReport)
    requires
        chunk_in_range(beg as int, chunk as int),
    ensures
        report.examined == scan_spec(needle@, beg as int, chunk as int, old(dispatcher)@.found).0,
        match report.reported {
            Some(index) => scan_spec(needle@, beg as int, chunk as int, old(dispatcher)@.found).1
                == Some(index as int) && final(dispatcher)@ == old(dispatcher)@.after_report(
                index as int,
            ),
            None => scan_spec(needle@, beg as int, chunk as int, old(dispatcher)@.found).1
                is None && final(dispatcher)@ == old(dispatcher)@,
        },
{
    let ghost hi: int = beg + chunk;
    let ghost found_before: bool = dispatcher@.found;
    let fresh: Worker = Worker::new(chunk, needle);
    let waiting: (Worker, Action) = fresh.step(Event::Flag(false));
    let entered: (Worker, Action) = waiting.0.step(Event::Chunk(beg));
    let mut worker: Worker = entered.0;
    match entered.1 {
        Action::Report { index } => {
            proof {
                lemma_first_match_is(needle@, beg as int, hi, index as int);
            }
            dispatcher.try_report(index);
            return ScanReport { examined: index - beg, reported: Some(index) };
        },
        _ => {},
    }
    loop
        invariant
            chunk_in_range(beg as int, chunk as int),
            hi == beg + chunk,
            worker@.chunk == chunk,
            worker@.needle == needle@,
            dispatcher@ == old(dispatcher)@,
            found_before == dispatcher@.found,
            worker@.state matches WorkerState::Scanning { beg: b, last } && {
                &&& b == beg
                &&& beg + first_look(chunk as int) <= last <= hi
                &&& none_match(needle@, beg as int, last as int)
                &&& found_before ==> last == beg + first_look(chunk as int)
            },
        decreases
            match worker@.state {
                WorkerState::Scanning { beg: b, last } => hi - last,
                _ => 0,
            },
    {
        let last: i64 = match worker.state() {
            WorkerState::Scanning { beg: _, last } => last,
            _ => beg,
        };
        let found: bool = dispatcher.poll_found();
        let stepped: (Worker, Action) = worker.step(Event::Flag(found));
        worker = stepped.0;
        match stepped.1 {
            Action::Report { index } => {
                proof {
                    lemma_first_match_is(needle@, beg as int, hi, index as int);
                }
                dispatcher.try_report(index);
                return ScanReport { examined: index - beg, reported: Some(index) };
            },
            Action::Poll { progress: _ } => {},
            Action::Acquire => {
                proof {
                    lemma_first_match_none(needle@, beg as int, hi);
                }
                return ScanReport { examined: chunk, reported: None };
            },
            Action::Exit => {
                proof {
                    lemma_first_match(needle@, beg as int, hi);
                }
                return ScanReport { examined: last - beg, reported: None };
            },
        }
    }
}

/// Runs one worker against the dispatcher until the worker has finished or no
/// chunk within reach is left: the worker reads the found flag, takes chunk
/// after chunk and scans each, and reports the first index that matches.
///
/// With the found flag set beforehand nothing happens. Otherwise the index
/// returned is the least match above the cursor, and the cursor ends behind
/// the chunk that holds it. `None` means that no index up to the cursor
/// matches and that the next chunk would pass [`MAX_INDEX`].
pub fn search_part(dispatcher: &mut Dispatcher, needle: &[u8]) -> (reported: Option<i64>)
    ensures
        final(dispatcher)@.start == old(dispatcher)@.start,
        final(dispatcher)@.chunk == old(dispatcher)@.chunk,
        final(dispatcher)@.dispatched >= old(dispatcher)@.dispatched,
        old(dispatcher)@.found ==> reported is None && final(dispatcher)@ == old(dispatcher)@,
        match reported {
            Some(index) => {
                &&& final(dispatcher)@.found
                &&& final(dispatcher)@.found_idx == old(dispatcher)@.after_report(
                    index as int,
                ).found_idx
                &&& final(dispatcher)@.cursor() - final(dispatcher)@.chunk < index
                    <= final(dispatcher)@.cursor()
                &&& first_match(needle@, old(dispatcher)@.cursor(), final(dispatcher)@.cursor())
                    == Some(index as int)
            },
            None => {
                &&& final(dispatcher)@.found == old(dispatcher)@.found
                &&& final(dispatcher)@.found_idx == old(dispatcher)@.found_idx
                &&& !old(dispatcher)@.found ==> {
                    &&& final(dispatcher)@.cursor() + final(dispatcher)@.chunk > MAX_INDEX
                    &&& final(dispatcher)@.dispatched > old(dispatcher)@.dispatched
                        ==> final(dispatcher)@.cursor() <= MAX_INDEX
                    &&& first_match(
                        needle@,
                        old(dispatcher)@.cursor(),
                        final(dispatcher)@.cursor(),
                    ) is None
                }
            },
        },
{
    let ghost before: DispatchView = dispatcher@;
    let chunk: i64 = dispatcher.chunk();
    let mut worker: Worker = Worker::new(chunk, needle);
    let mut event: Event = Event::Flag(dispatcher.poll_found());
    loop
        invariant
            before == old(dispatcher)@,
            before.well_formed(),
            chunk == before.chunk,
            worker@.chunk == chunk,
            worker@.needle == needle@,
            dispatcher@.start == before.start,
            dispatcher@.chunk == before.chunk,
            dispatcher@.found == before.found,
            dispatcher@.found_idx == before.found_idx,
            dispatcher@.dispatched >= before.dispatched,
            match worker@.state {
                WorkerState::Polling => event == Event::Flag(before.found) && dispatcher@
                    == before,
                WorkerState::Acquiring => {
                    &&& !before.found
                    &&& dispatcher@.dispatched > before.dispatched
                    &&& event matches Event::Chunk(beg)
                    &&& chunk_in_range(beg as int, chunk as int)
                    &&& before.cursor() <= beg
                    &&& dispatcher@.cursor() == beg + chunk
                    &&& none_match(needle@, before.cursor(), beg as int)
                },
                WorkerState::Scanning { beg, last } => {
                    &&& !before.found
                    &&& dispatcher@.dispatched > before.dispatched
                    &&& event == Event::Flag(false)
                    &&& chunk_in_range(beg as int, chunk as int)
                    &&& before.cursor() <= beg
                    &&& dispatcher@.cursor() == beg + chunk
                    &&& beg < last <= beg + chunk
                    &&& none_match(needle@, before.cursor(), last as int)
                },
                _ => false,
            },
        decreases
            match worker@.state {
                WorkerState::Polling => 2 * (MAX_INDEX - dispatcher@.cursor()) + 1,
                WorkerState::Acquiring => 2 * (MAX_INDEX - (dispatcher@.cursor() - chunk)),
                WorkerState::Scanning { beg, last } => 2 * (MAX_INDEX - last) + 1,
                _ => 0,
            },
    {
        let ghost here: DispatchView = dispatcher@;
        proof {
            lemma_cursor_from_start(here);
            lemma_cursor_after_acquire(here);
        }
        let stepped: (Worker, Action) = worker.step(event);
        worker = stepped.0;
        let action: Action = stepped.1;
        match perform(action, dispatcher) {
            Some(answer) => {
                event = answer;
            },
            None => {
                proof {
                    match action {
                        Action::Report { index } => {
                            lemma_first_match_is(
                                needle@,
                                before.cursor(),
                                here.cursor(),
                                index as int,
                            );
                        },
                        Action::Acquire => {
                            lemma_first_match_none(needle@, before.cursor(), here.cursor());
                        },
                        _ => {},
                    }
                }
                return match action {
                    Action::Report { index } => Some(index),
                    _ => None,
                };
            },
        }
    }
}

} // verus!
