//! The dispenser of work: a cursor from which chunks of indices are handed
//! out one after another, and the record of the best match reported so far.

use vstd::prelude::*;

verus! {

/// The found index while no match has been reported.
pub const NO_INDEX: i64 = -1;

/// What a [`Dispatcher`] stands for.
pub struct DispatchView {
    /// The first index of the first chunk.
    pub start: int,
    /// The number of indices in each chunk.
    pub chunk: int,
    /// The number of chunks handed out so far.
    pub dispatched: nat,
    /// Whether a match has been reported.
    pub found: bool,
    /// The best index reported, or [`NO_INDEX`].
    pub found_idx: int,
}

/// Where the chunk with number `n` begins, counting from zero.
pub open spec fn chunk_begin(start: int, chunk: int, n: nat) -> int {
    start + n * chunk
}

impl DispatchView {
    /// The start is not negative and a chunk holds at least one index: what
    /// holds of every dispatcher.
    pub open spec fn well_formed(self) -> bool {
        0 <= self.start && 1 <= self.chunk
    }

    /// The first index that no chunk holds yet.
    pub open spec fn cursor(self) -> int {
        chunk_begin(self.start, self.chunk, self.dispatched)
    }

    /// The state after one more chunk was handed out.
    pub open spec fn after_acquire(self) -> DispatchView {
        DispatchView { dispatched: self.dispatched + 1, ..self }
    }

    /// The state after a match at `index` was reported: the flag is set, and
    /// the index replaces the recorded one where there was none or a
    /// greater one.
    pub open spec fn after_report(self, index: int) -> DispatchView {
        DispatchView {
            found: true,
            found_idx: if self.found_idx == NO_INDEX || self.found_idx > index {
                index
            } else {
                self.found_idx
            },
            ..self
        }
    }
}

/// The cursor never stands before the start.
pub proof fn lemma_cursor_from_start(state: DispatchView)
    requires
        state.well_formed(),
    ensures
        state.start <= state.cursor(),
{
    assert(0 <= state.dispatched * state.chunk) by (nonlinear_arith)
        requires
            state.chunk >= 1,
    ;
}

/// Handing out a chunk moves the cursor by the size of a chunk.
pub proof fn lemma_cursor_after_acquire(state: DispatchView)
    ensures
        state.after_acquire().cursor() == state.cursor() + state.chunk,
{
    assert((state.dispatched + 1) * state.chunk == state.dispatched * state.chunk + state.chunk)
        by (nonlinear_arith);
}

/// Chunks handed out at different times share no index, and each begins where
/// the one before it ends: whoever takes them, they are disjoint and
/// contiguous in the order of the cursor.
pub proof fn lemma_chunks_disjoint_contiguous(start: int, chunk: int, m: nat, n: nat)
    requires
        chunk >= 1,
        m < n,
    ensures
        chunk_begin(start, chunk, m) + chunk <= chunk_begin(start, chunk, n),
        chunk_begin(start, chunk, m + 1) == chunk_begin(start, chunk, m) + chunk,
{
    assert((m + 1) * chunk == m * chunk + chunk) by (nonlinear_arith);
    assert((m + 1) * chunk <= n * chunk) by (nonlinear_arith)
        requires
            m + 1 <= n,
            chunk >= 1,
    ;
}

/// Reporting the same index again changes nothing.
pub proof fn lemma_report_idempotent(state: DispatchView, index: int)
    ensures
        state.after_report(index).after_report(index) == state.after_report(index),
{
}

/// A report never raises the recorded index, and what is recorded after it is
/// the reported index or the one that was there.
pub proof fn lemma_report_keeps_least(state: DispatchView, index: int)
    ensures
        state.after_report(index).found,
        state.after_report(index).found_idx == index || state.after_report(index).found_idx
            == state.found_idx,
        state.found_idx != NO_INDEX ==> state.after_report(index).found_idx <= state.found_idx,
        state.found_idx != NO_INDEX && index != NO_INDEX ==> state.after_report(index).found_idx
            <= index,
{
}

/// The three cells that the workers share: the chunk cursor, the found flag
/// and the found index.
pub struct Dispatcher {
    start: i64,
    chunk: i64,
    cursor: i64,
    dispatched: Ghost<nat>,
    found: bool,
    found_idx: i64,
}

impl View for Dispatcher {
    type V = DispatchView;

    closed spec fn view(&self) -> DispatchView {
        DispatchView {
            start: self.start as int,
            chunk: self.chunk as int,
            dispatched: self.dispatched@,
            found: self.found,
            found_idx: self.found_idx as int,
        }
    }
}

impl Dispatcher {
    #[verifier::type_invariant]
    spec fn inv(&self) -> bool {
        &&& 0 <= self.start
        &&& 1 <= self.chunk
        &&& self.cursor == chunk_begin(self.start as int, self.chunk as int, self.dispatched@)
    }

    /// A dispatcher whose first chunk begins at `start`, with nothing found.
    pub fn new(start: i64, chunk: i64) -> (d: Self)
        requires
            0 <= start,
            1 <= chunk,
        ensures
            d@ == (DispatchView {
                start: start as int,
                chunk: chunk as int,
                dispatched: 0,
                found: false,
                found_idx: NO_INDEX as int,
            }),
    {
        assert(0 * chunk == 0);
        Dispatcher { start, chunk, cursor: start, dispatched: Ghost(0), found: false, found_idx: NO_INDEX }
    }

    /// The number of indices in each chunk.
    pub fn chunk(&self) -> (c: i64)
        ensures
            c == self@.chunk,
            self@.well_formed(),
    {
        proof {
            use_type_invariant(self);
        }
        self.chunk
    }

    /// The first index that no chunk holds yet.
    pub fn cursor(&self) -> (c: i64)
        ensures
            c == self@.cursor(),
            self@.well_formed(),
    {
        proof {
            use_type_invariant(self);
        }
        self.cursor
    }

    /// Hands out the next chunk: returns where it begins and moves the cursor
    /// past it.
    pub fn acquire_chunk(&mut self) -> (beg: i64)
        requires
            old(self)@.cursor() + old(self)@.chunk <= i64::MAX,
        ensures
            beg == old(self)@.cursor(),
            final(self)@ == old(self)@.after_acquire(),
            final(self)@.cursor() == beg + old(self)@.chunk,
    {
        proof {
            use_type_invariant(&*self);
            lemma_cursor_after_acquire(self@);
        }
        let beg: i64 = self.cursor;
        *self = Dispatcher {
            start: self.start,
            chunk: self.chunk,
            cursor: beg + self.chunk,
            dispatched: Ghost((self.dispatched@ + 1) as nat),
            found: self.found,
            found_idx: self.found_idx,
        };
        beg
    }

    /// Reports a match at `index`: sets the found flag, and records the index
    /// where none was recorded yet or a greater one was.
    pub fn try_report(&mut self, index: i64)
        ensures
            final(self)@ == old(self)@.after_report(index as int),
    {
        proof {
            use_type_invariant(&*self);
        }
        self.found = true;
        let now: i64 = self.found_idx;
        if now == NO_INDEX || now > index {
            self.found_idx = index;
        }
    }

    /// Whether a match has been reported.
    pub fn poll_found(&self) -> (found: bool)
        ensures
            found == self@.found,
    {
        self.found
    }

    /// The best index reported so far, or [`NO_INDEX`].
    pub fn found_index(&self) -> (index: i64)
        ensures
            index == self@.found_idx,
    {
        self.found_idx
    }
}

} // verus!
