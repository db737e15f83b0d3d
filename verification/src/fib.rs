//! The Fibonacci numbers and the facts about them that the engine rests on.

use vstd::arithmetic::power2::{lemma2_to64, lemma_pow2_unfold, pow2};
use vstd::prelude::*;

verus! {

/// The `n`-th Fibonacci number, with `fib(0) == 0` and `fib(1) == 1`.
pub open spec fn fib(n: nat) -> nat
    decreases n,
{
    if n == 0 {
        0
    } else if n == 1 {
        1
    } else {
        fib((n - 1) as nat) + fib((n - 2) as nat)
    }
}

/// The recurrence, read forwards.
pub proof fn lemma_fib_step(n: nat)
    ensures
        fib(n + 2) == fib(n + 1) + fib(n),
{
}

/// The sequence never decreases.
pub proof fn lemma_fib_monotonic(i: nat, j: nat)
    requires
        i <= j,
    ensures
        fib(i) <= fib(j),
    decreases j,
{
    if i < j {
        lemma_fib_monotonic(i, (j - 1) as nat);
        if j >= 2 {
            lemma_fib_step((j - 2) as nat);
        }
    }
}

/// `fib(n)` has at most `n` binary digits.
pub proof fn lemma_fib_below_pow2(n: nat)
    ensures
        fib(n) < pow2(n),
    decreases n,
{
    if n <= 1 {
        lemma2_to64();
    } else {
        lemma_fib_below_pow2((n - 1) as nat);
        lemma_fib_below_pow2((n - 2) as nat);
        lemma_pow2_unfold(n);
        lemma_pow2_unfold((n - 1) as nat);
    }
}

/// The pair that the engine carries at index `k`: the Fibonacci number that
/// follows, then the one of index `k` itself.
pub open spec fn fib_pair(k: nat) -> (int, int) {
    (fib(k + 1) as int, fib(k) as int)
}

/// One incremental step on a pair: `(x, y)` becomes `(x + y, x)`.
pub open spec fn pair_step(pair: (int, int)) -> (int, int) {
    (pair.0 + pair.1, pair.0)
}

/// `count` incremental steps.
pub open spec fn pair_steps(pair: (int, int), count: nat) -> (int, int)
    decreases count,
{
    if count == 0 {
        pair
    } else {
        pair_step(pair_steps(pair, (count - 1) as nat))
    }
}

/// The incremental step moves the pair of index `k` to that of `k + 1`.
pub proof fn lemma_pair_step(k: nat)
    ensures
        pair_step(fib_pair(k)) == fib_pair(k + 1),
{
    lemma_fib_step(k);
}

/// Stepping and jumping agree: `count` incremental steps from the pair of
/// index `k` give the pair of index `k + count`.
pub proof fn lemma_steps_after_jump(k: nat, count: nat)
    ensures
        pair_steps(fib_pair(k), count) == fib_pair(k + count),
    decreases count,
{
    if count > 0 {
        lemma_steps_after_jump(k, (count - 1) as nat);
        lemma_pair_step((k + count - 1) as nat);
    }
}

} // verus!
