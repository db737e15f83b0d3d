//! Search of the Fibonacci sequence for the first term whose decimal digits
//! contain a given byte string.
//!
//! The crate holds the engine of the search: the Fibonacci numbers themselves
//! ([`fib`]), the big integers that carry them ([`bigint`]), the matrix jump
//! to an arbitrary index ([`matrix`]), the decimal matching rule ([`digits`]),
//! the dispenser of index chunks ([`dispatcher`]), the worker that scans
//! chunks ([`worker`]), the run of one worker to its end ([`search`]), the
//! run of many workers in any order of turns ([`team`]) and the text of the
//! lines to show ([`progress`]). Threads, the terminal and the command line
//! are left to the caller.

pub mod bigint;
pub mod digits;
pub mod dispatcher;
pub mod fib;
pub mod matrix;
pub mod progress;
pub mod search;
pub mod team;
pub mod worker;
