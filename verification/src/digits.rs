//! Decimal digit strings and the rule by which a needle matches one.

use crate::bigint::{ibig_to_decimal, ibig_value};
use crate::fib::fib;
use bstr::ByteSlice;
use ibig::IBig;
use vstd::prelude::*;

verus! {

/// The ASCII byte of the decimal digit `d`.
pub open spec fn digit_byte(d: nat) -> u8
    recommends
        d < 10,
{
    (48 + d) as u8
}

/// The shortest decimal digit string of `n`: no sign, no leading zero but for
/// zero itself, most significant digit first.
pub open spec fn decimal(n: nat) -> Seq<u8>
    decreases n,
{
    if n < 10 {
        seq![digit_byte(n)]
    } else {
        decimal(n / 10).push(digit_byte(n % 10))
    }
}

/// The decimal string of a signed integer: a minus sign before the digits of
/// a negative one.
pub open spec fn signed_decimal(v: int) -> Seq<u8> {
    if v < 0 {
        seq![45u8] + decimal((-v) as nat)
    } else {
        decimal(v as nat)
    }
}

/// `needle` stands in `hay` at offset `at`.
pub open spec fn occurs_at(hay: Seq<u8>, needle: Seq<u8>, at: int) -> bool {
    &&& 0 <= at
    &&& at + needle.len() <= hay.len()
    &&& hay.subrange(at, at + needle.len()) == needle
}

/// `needle` is a contiguous part of `hay`.
pub open spec fn occurs(hay: Seq<u8>, needle: Seq<u8>) -> bool {
    exists|at: int| occurs_at(hay, needle, at)
}

/// The decimal digits of the Fibonacci number of index `index` contain
/// `needle`: the rule by which an index is a match.
pub open spec fn matches_at(needle: Seq<u8>, index: int) -> bool {
    0 <= index && occurs(decimal(fib(index as nat)), needle)
}

/// `b` is one of the ten ASCII digits.
pub open spec fn is_digit(b: u8) -> bool {
    48 <= b <= 57
}

/// A decimal string holds digits only, and at least one.
pub proof fn lemma_decimal_is_digits(n: nat)
    ensures
        decimal(n).len() >= 1,
        forall|i: int| 0 <= i < decimal(n).len() ==> is_digit(#[trigger] decimal(n)[i]),
    decreases n,
{
    if n >= 10 {
        lemma_decimal_is_digits(n / 10);
    }
}

/// A needle that holds a byte which is no digit occurs in no decimal string.
pub proof fn lemma_foreign_byte_never_occurs(n: nat, needle: Seq<u8>, k: int)
    requires
        0 <= k < needle.len(),
        !is_digit(needle[k]),
    ensures
        !occurs(decimal(n), needle),
{
    lemma_decimal_is_digits(n);
    assert forall|at: int| !occurs_at(decimal(n), needle, at) by {
        if occurs_at(decimal(n), needle, at) {
            let part = decimal(n).subrange(at, at + needle.len());
            assert(part[k] == decimal(n)[at + k]);
        }
    }
}

/// A needle longer than the string it is sought in does not occur in it.
pub proof fn lemma_longer_needle_never_occurs(hay: Seq<u8>, needle: Seq<u8>)
    requires
        needle.len() > hay.len(),
    ensures
        !occurs(hay, needle),
{
}

/// As long as the needle is longer than the decimal string of a Fibonacci
/// number, the index of that number is no match.
pub proof fn lemma_long_needle_no_match(needle: Seq<u8>, index: int)
    requires
        0 <= index,
        needle.len() > decimal(fib(index as nat)).len(),
    ensures
        !matches_at(needle, index),
{
    lemma_longer_needle_never_occurs(decimal(fib(index as nat)), needle);
}

/// `ByteSlice::contains_str` of `bstr`: true if and only if `needle` is a
/// contiguous part of `hay`.
#[verifier::external_body]
pub(crate) fn bytes_contain(hay: &[u8], needle: &[u8]) -> (found: bool)
    ensures
        found == occurs(hay@, needle@),
{
    hay.contains_str(needle)
}

/// Whether the decimal string of `number` contains `needle`.
pub fn has_needle(number: &IBig, needle: &[u8]) -> (hit: bool)
    ensures
        hit == occurs(signed_decimal(ibig_value(*number)), needle@),
{
    let text: Vec<u8> = ibig_to_decimal(number);
    bytes_contain(text.as_slice(), needle)
}

} // verus!
