//! The text of the lines that the engine has to show: the progress bar of a
//! worker, the notice of a match and the final result. Each is a string of
//! bytes, ready to be written; where on the terminal it goes is the caller's
//! matter.

use crate::digits::{decimal, digit_byte, signed_decimal};
use crate::worker::Progress;
use vstd::prelude::*;
use vstd::string::StringSliceAdditionalSpecFns;
use vstd::utf8::{decode_utf8, encode_utf8_decode_utf8, valid_utf8};

verus! {

/// The decimal string of `n`.
pub fn decimal_bytes(n: u64) -> (out: Vec<u8>)
    ensures
        out@ == decimal(n as nat),
    decreases n,
{
    if n < 10 {
        let mut out: Vec<u8> = Vec::new();
        out.push(48 + n as u8);
        assert(out@ == seq![digit_byte(n as nat)]);
        out
    } else {
        let mut out: Vec<u8> = decimal_bytes(n / 10);
        out.push(48 + (n % 10) as u8);
        out
    }
}

/// Appends `tail` to `line`.
fn push_all(line: &mut Vec<u8>, tail: &[u8])
    ensures
        final(line)@ == old(line)@ + tail@,
{
    let mut i: usize = 0;
    while i < tail.len()
        invariant
            i <= tail.len(),
            line@ == old(line)@ + tail@.subrange(0, i as int),
        decreases tail.len() - i,
    {
        line.push(tail[i]);
        i = i + 1;
    }
    assert(tail@.subrange(0, tail.len() as int) == tail@);
}

/// Appends `count` times the byte `b` to `line`.
fn push_repeated(line: &mut Vec<u8>, b: u8, count: u64)
    ensures
        final(line)@ == old(line)@ + repeated(b, count as int),
{
    let mut i: u64 = 0;
    while i < count
        invariant
            i <= count,
            line@ == old(line)@ + repeated(b, i as int),
        decreases count - i,
    {
        line.push(b);
        i = i + 1;
    }
}

/// The decimal string of `v`, with a minus sign before a negative number.
pub fn signed_decimal_bytes(v: i64) -> (out: Vec<u8>)
    ensures
        out@ == signed_decimal(v as int),
{
    if v < 0 {
        let magnitude: u64 = (-(v + 1)) as u64 + 1;
        let digits: Vec<u8> = decimal_bytes(magnitude);
        let mut out: Vec<u8> = Vec::new();
        out.push(45);
        push_all(&mut out, digits.as_slice());
        out
    } else {
        decimal_bytes(v as u64)
    }
}

/// The byte that fills the part of the bar that is done: an equals sign.
pub const BAR_DONE: u8 = 61;

/// The byte that fills the rest of the bar: a space.
pub const BAR_LEFT: u8 = 32;

/// `count` times the byte `b`.
pub open spec fn repeated(b: u8, count: int) -> Seq<u8> {
    Seq::new(count as nat, |i: int| b)
}

/// `percent`, held within 0 and 100.
pub open spec fn clamp_percent(percent: int) -> int {
    if percent < 0 {
        0
    } else if percent > 100 {
        100
    } else {
        percent
    }
}

/// The progress line of a notice, with `p` for its percentage held within 0
/// and 100: an opening bracket, `p` equals signs, `100 - p` spaces, `](`, `p`
/// in decimal, `%, `, the index in decimal and a closing parenthesis.
pub open spec fn progress_text(notice: Progress) -> Seq<u8> {
    let p = clamp_percent(notice.percent as int);
    "[".spec_bytes() + repeated(BAR_DONE, p) + repeated(BAR_LEFT, 100 - p) + "](".spec_bytes()
        + decimal(p as nat) + "%, ".spec_bytes() + signed_decimal(notice.index as int)
        + ")".spec_bytes()
}

/// The progress line of `notice`.
pub fn progress_line(notice: Progress) -> (line: Vec<u8>)
    ensures
        line@ == progress_text(notice),
{
    let p: u64 = if notice.percent < 0 {
        0
    } else if notice.percent > 100 {
        100
    } else {
        notice.percent as u64
    };
    let mut line: Vec<u8> = Vec::new();
    push_all(&mut line, "[".as_bytes());
    push_repeated(&mut line, BAR_DONE, p);
    push_repeated(&mut line, BAR_LEFT, 100 - p);
    push_all(&mut line, "](".as_bytes());
    let percent: Vec<u8> = decimal_bytes(p);
    push_all(&mut line, percent.as_slice());
    push_all(&mut line, "%, ".as_bytes());
    let index: Vec<u8> = signed_decimal_bytes(notice.index);
    push_all(&mut line, index.as_slice());
    push_all(&mut line, ")".as_bytes());
    line
}

/// The line that tells of a match at `index`, given the needle as it is to
/// be shown: `Find!!! Fib_`, the index in decimal, ` has ` and the needle.
pub open spec fn hit_text(index: int, shown: Seq<u8>) -> Seq<u8> {
    "Find!!! Fib_".spec_bytes() + signed_decimal(index) + " has ".spec_bytes() + shown
}

/// The final line for the found index `index`: `idx:`, the index in decimal
/// and a line feed.
pub open spec fn result_text(index: int) -> Seq<u8> {
    "idx:".spec_bytes() + signed_decimal(index) + "\n".spec_bytes()
}

/// The line that tells of a match at `index`, with `shown` for the needle.
pub fn hit_line_with(index: i64, shown: &[u8]) -> (line: Vec<u8>)
    ensures
        line@ == hit_text(index as int, shown@),
{
    let mut line: Vec<u8> = Vec::new();
    push_all(&mut line, "Find!!! Fib_".as_bytes());
    let digits: Vec<u8> = signed_decimal_bytes(index);
    push_all(&mut line, digits.as_slice());
    push_all(&mut line, " has ".as_bytes());
    push_all(&mut line, shown);
    line
}

/// The text of `text` as the `{:?}` format of `str` writes it: between double
/// quotes, with escapes for what cannot be shown as it is.
pub uninterp spec fn quoted_text(text: Seq<char>) -> Seq<u8>;

/// `format!` with `{:?}` on a `str`: the quoted text, handed out as bytes.
#[verifier::external_body]
fn debug_quoted(text: &str) -> (out: Vec<u8>)
    ensures
        out@ == quoted_text(text@),
{
    format!("{:?}", text).into_bytes()
}

/// `std::str::from_utf8`: the bytes as text where they are valid UTF-8, and
/// nothing where they are not.
#[verifier::external_body]
fn utf8_text(bytes: &[u8]) -> (text: Option<&str>)
    ensures
        text is Some <==> valid_utf8(bytes@),
        text matches Some(s) ==> s.spec_bytes() == bytes@,
{
    std::str::from_utf8(bytes).ok()
}

/// The needle as a line shows it: its text between quotes, or a quoted
/// question mark where the needle is no valid UTF-8.
pub open spec fn shown_needle(needle: Seq<u8>) -> Seq<u8> {
    quoted_text(
        if valid_utf8(needle) {
            decode_utf8(needle)
        } else {
            "?"@
        },
    )
}

/// The line that tells of a match of `needle` at `index`.
pub fn hit_line(index: i64, needle: &[u8]) -> (line: Vec<u8>)
    ensures
        line@ == hit_text(index as int, shown_needle(needle@)),
{
    let shown: Vec<u8> = match utf8_text(needle) {
        Some(text) => {
            proof {
                encode_utf8_decode_utf8(text@);
            }
            debug_quoted(text)
        },
        None => debug_quoted("?"),
    };
    hit_line_with(index, shown.as_slice())
}

/// What is written to put `text` on the terminal row `row`: the sequence that
/// moves the cursor to the beginning of that row, the sequence that clears
/// the row, the text and a line feed.
pub open spec fn row_text(row: u64, text: Seq<u8>) -> Seq<u8> {
    "\x1b[".spec_bytes() + decimal(row as nat) + ";0H\x1b[2K".spec_bytes() + text
        + "\n".spec_bytes()
}

/// The bytes that put `text` on the terminal row `row`.
pub fn on_row(row: u64, text: &[u8]) -> (out: Vec<u8>)
    ensures
        out@ == row_text(row, text@),
{
    let mut out: Vec<u8> = Vec::new();
    push_all(&mut out, "\x1b[".as_bytes());
    let digits: Vec<u8> = decimal_bytes(row);
    push_all(&mut out, digits.as_slice());
    push_all(&mut out, ";0H\x1b[2K".as_bytes());
    push_all(&mut out, text);
    push_all(&mut out, "\n".as_bytes());
    out
}

/// What is written to clear the screen: the clearing sequence and a line
/// feed.
pub open spec fn clear_text() -> Seq<u8> {
    "\x1b[2J\n".spec_bytes()
}

/// The bytes that clear the screen.
pub fn clear_screen() -> (out: Vec<u8>)
    ensures
        out@ == clear_text(),
{
    let mut out: Vec<u8> = Vec::new();
    push_all(&mut out, "\x1b[2J\n".as_bytes());
    out
}

/// The final line of a search that ended with the found index `index`.
pub fn result_line(index: i64) -> (line: Vec<u8>)
    ensures
        line@ == result_text(index as int),
{
    let mut line: Vec<u8> = Vec::new();
    push_all(&mut line, "idx:".as_bytes());
    let digits: Vec<u8> = signed_decimal_bytes(index);
    push_all(&mut line, digits.as_slice());
    push_all(&mut line, "\n".as_bytes());
    line
}

} // verus!
