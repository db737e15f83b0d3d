//! Two-by-two matrices of big integers and the jump to an arbitrary
//! Fibonacci index by fast exponentiation.

use crate::bigint::{fits, ibig_add, ibig_from_i32, ibig_mul, ibig_value, LIMIT_BITS};
use crate::fib::{fib, fib_pair, lemma_fib_below_pow2, lemma_fib_monotonic, pair_step};
use ibig::IBig;
use vstd::arithmetic::power2::{lemma_pow2_strictly_increases, pow2};
use vstd::prelude::*;

verus! {

/// The largest index that the engine reaches. A jump to `k` squares its base
/// up to the `2k`-th power, whose entries must stay within [`LIMIT_BITS`].
pub const MAX_INDEX: i64 = 1_073_741_823;

/// A two-by-two matrix of integers: what a [`Matrix2x2`] stands for.
pub struct Mat {
    pub a11: int,
    pub a12: int,
    pub a21: int,
    pub a22: int,
}

/// The matrix product.
pub open spec fn mat_mul(x: Mat, y: Mat) -> Mat {
    Mat {
        a11: x.a11 * y.a11 + x.a12 * y.a21,
        a12: x.a11 * y.a12 + x.a12 * y.a22,
        a21: x.a21 * y.a11 + x.a22 * y.a21,
        a22: x.a21 * y.a12 + x.a22 * y.a22,
    }
}

/// The identity matrix.
pub open spec fn mat_identity() -> Mat {
    Mat { a11: 1, a12: 0, a21: 0, a22: 1 }
}

/// The Fibonacci matrix `Q`.
pub open spec fn mat_q() -> Mat {
    Mat { a11: 1, a12: 1, a21: 1, a22: 0 }
}

/// `m` raised to the `n`-th power.
pub open spec fn mat_pow(m: Mat, n: nat) -> Mat
    decreases n,
{
    if n == 0 {
        mat_identity()
    } else {
        mat_mul(mat_pow(m, (n - 1) as nat), m)
    }
}

/// The matrix of the Fibonacci numbers around index `n`:
/// `fib(n + 1)` and `fib(n)` above, `fib(n)` and `fib(n - 1)` below.
pub open spec fn fib_matrix(n: nat) -> Mat {
    Mat {
        a11: fib(n + 1) as int,
        a12: fib(n) as int,
        a21: fib(n) as int,
        a22: if n == 0 {
            1
        } else {
            fib((n - 1) as nat) as int
        },
    }
}

/// Every product and every sum that [`dot`] forms on `x` and `y` is small
/// enough for a big integer to hold.
pub open spec fn product_fits(x: Mat, y: Mat) -> bool {
    &&& fits(x.a11 * y.a11) && fits(x.a12 * y.a21) && fits(x.a11 * y.a11 + x.a12 * y.a21)
    &&& fits(x.a11 * y.a12) && fits(x.a12 * y.a22) && fits(x.a11 * y.a12 + x.a12 * y.a22)
    &&& fits(x.a21 * y.a11) && fits(x.a22 * y.a21) && fits(x.a21 * y.a11 + x.a22 * y.a21)
    &&& fits(x.a21 * y.a12) && fits(x.a22 * y.a22) && fits(x.a21 * y.a12 + x.a22 * y.a22)
}

/// What a factor `Q` on the right does to a matrix.
proof fn lemma_mul_q(m: Mat)
    ensures
        mat_mul(m, mat_q()) == (Mat {
            a11: m.a11 + m.a12,
            a12: m.a11,
            a21: m.a21 + m.a22,
            a22: m.a21,
        }),
{
    assert(m.a11 * 1 + m.a12 * 1 == m.a11 + m.a12);
    assert(m.a11 * 1 + m.a12 * 0 == m.a11);
    assert(m.a21 * 1 + m.a22 * 1 == m.a21 + m.a22);
    assert(m.a21 * 1 + m.a22 * 0 == m.a21);
}

/// One more factor `Q` moves the Fibonacci matrix to the next index.
pub proof fn lemma_fib_matrix_step(n: nat)
    ensures
        mat_mul(fib_matrix(n), mat_q()) == fib_matrix(n + 1),
{
    lemma_mul_q(fib_matrix(n));
    assert(fib(n + 2) == fib(n + 1) + fib(n));
    if n > 0 {
        assert(fib(n + 1) == fib(n) + fib((n - 1) as nat));
    }
}

/// `(x * y) * Q == x * (y * Q)`.
proof fn lemma_mul_q_associative(x: Mat, y: Mat)
    ensures
        mat_mul(mat_mul(x, y), mat_q()) == mat_mul(x, mat_mul(y, mat_q())),
{
    assert(x.a11 * (y.a11 + y.a12) == x.a11 * y.a11 + x.a11 * y.a12) by (nonlinear_arith);
    assert(x.a12 * (y.a21 + y.a22) == x.a12 * y.a21 + x.a12 * y.a22) by (nonlinear_arith);
    assert(x.a21 * (y.a11 + y.a12) == x.a21 * y.a11 + x.a21 * y.a12) by (nonlinear_arith);
    assert(x.a22 * (y.a21 + y.a22) == x.a22 * y.a21 + x.a22 * y.a22) by (nonlinear_arith);
    lemma_mul_q(y);
    lemma_mul_q(mat_mul(x, y));
}

/// The addition law: Fibonacci matrices multiply by adding their indices.
pub proof fn lemma_fib_matrix_mul(a: nat, b: nat)
    ensures
        mat_mul(fib_matrix(a), fib_matrix(b)) == fib_matrix(a + b),
    decreases b,
{
    if b == 0 {
        let m = fib_matrix(a);
        assert(m.a11 * 1 + m.a12 * 0 == m.a11);
        assert(m.a11 * 0 + m.a12 * 1 == m.a12);
        assert(m.a21 * 1 + m.a22 * 0 == m.a21);
        assert(m.a21 * 0 + m.a22 * 1 == m.a22);
    } else {
        let c = (b - 1) as nat;
        lemma_fib_matrix_mul(a, c);
        lemma_fib_matrix_step(c);
        lemma_mul_q_associative(fib_matrix(a), fib_matrix(c));
        lemma_fib_matrix_step(a + c);
    }
}

/// The identity behind the jump: the `n`-th power of `Q` is the Fibonacci
/// matrix of index `n`.
pub proof fn lemma_q_power(n: nat)
    ensures
        mat_pow(mat_q(), n) == fib_matrix(n),
    decreases n,
{
    if n > 0 {
        lemma_q_power((n - 1) as nat);
        lemma_fib_matrix_step((n - 1) as nat);
    }
}

/// No entry of a Fibonacci matrix is negative or above `fib(n + 1)`.
proof fn lemma_fib_matrix_entries(n: nat)
    ensures
        0 <= fib_matrix(n).a11 <= fib(n + 1),
        0 <= fib_matrix(n).a12 <= fib(n + 1),
        0 <= fib_matrix(n).a21 <= fib(n + 1),
        0 <= fib_matrix(n).a22 <= fib(n + 1),
{
    lemma_fib_monotonic(n, n + 1);
    if n > 0 {
        lemma_fib_monotonic((n - 1) as nat, n + 1);
    }
}

/// The product of two numbers that are not negative is not negative.
proof fn lemma_product_not_negative(x: int, y: int)
    requires
        0 <= x,
        0 <= y,
    ensures
        0 <= x * y,
{
    assert(0 <= x * y) by (nonlinear_arith)
        requires
            0 <= x,
            0 <= y,
    ;
}

/// Fibonacci matrices whose indices add up to less than [`LIMIT_BITS`] can
/// be multiplied.
pub proof fn lemma_fib_matrix_product_fits(a: nat, b: nat)
    requires
        a + b < LIMIT_BITS,
    ensures
        product_fits(fib_matrix(a), fib_matrix(b)),
{
    let x = fib_matrix(a);
    let y = fib_matrix(b);
    let z = fib_matrix(a + b);
    lemma_fib_matrix_mul(a, b);
    lemma_fib_matrix_entries(a);
    lemma_fib_matrix_entries(b);
    lemma_fib_matrix_entries(a + b);
    lemma_fib_below_pow2(a + b + 1);
    if a + b + 1 < LIMIT_BITS {
        lemma_pow2_strictly_increases(a + b + 1, LIMIT_BITS as nat);
    }
    assert(fib(a + b + 1) < pow2(LIMIT_BITS as nat));
    lemma_product_not_negative(x.a11, y.a11);
    lemma_product_not_negative(x.a12, y.a21);
    lemma_product_not_negative(x.a11, y.a12);
    lemma_product_not_negative(x.a12, y.a22);
    lemma_product_not_negative(x.a21, y.a11);
    lemma_product_not_negative(x.a22, y.a21);
    lemma_product_not_negative(x.a21, y.a12);
    lemma_product_not_negative(x.a22, y.a22);
    assert(z.a11 == x.a11 * y.a11 + x.a12 * y.a21);
    assert(z.a12 == x.a11 * y.a12 + x.a12 * y.a22);
    assert(z.a21 == x.a21 * y.a11 + x.a22 * y.a21);
    assert(z.a22 == x.a21 * y.a12 + x.a22 * y.a22);
}

/// A two-by-two matrix of big integers.
pub struct Matrix2x2 {
    pub a11: IBig,
    pub a12: IBig,
    pub a21: IBig,
    pub a22: IBig,
}

impl View for Matrix2x2 {
    type V = Mat;

    open spec fn view(&self) -> Mat {
        Mat {
            a11: ibig_value(self.a11),
            a12: ibig_value(self.a12),
            a21: ibig_value(self.a21),
            a22: ibig_value(self.a22),
        }
    }
}

impl Matrix2x2 {
    /// The matrix of the four entries, row by row.
    pub fn new(a11: IBig, a12: IBig, a21: IBig, a22: IBig) -> (m: Self)
        ensures
            m.a11 == a11,
            m.a12 == a12,
            m.a21 == a21,
            m.a22 == a22,
    {
        Matrix2x2 { a11, a12, a21, a22 }
    }
}

/// The product of `x` and `y`.
pub fn dot(x: &Matrix2x2, y: &Matrix2x2) -> (z: Matrix2x2)
    requires
        product_fits(x@, y@),
    ensures
        z@ == mat_mul(x@, y@),
{
    Matrix2x2 {
        a11: ibig_add(&ibig_mul(&x.a11, &y.a11), &ibig_mul(&x.a12, &y.a21)),
        a12: ibig_add(&ibig_mul(&x.a11, &y.a12), &ibig_mul(&x.a12, &y.a22)),
        a21: ibig_add(&ibig_mul(&x.a21, &y.a11), &ibig_mul(&x.a22, &y.a21)),
        a22: ibig_add(&ibig_mul(&x.a21, &y.a12), &ibig_mul(&x.a22, &y.a22)),
    }
}

/// The numbers that a pair of big integers holds.
pub open spec fn pair_value(pair: (IBig, IBig)) -> (int, int) {
    (ibig_value(pair.0), ibig_value(pair.1))
}

/// The incremental step: from the pair of an index to the pair of the next,
/// by one addition.
pub fn fib_step(pair: (IBig, IBig)) -> (next: (IBig, IBig))
    requires
        fits(ibig_value(pair.0) + ibig_value(pair.1)),
    ensures
        pair_value(next) == pair_step(pair_value(pair)),
{
    let sum: IBig = ibig_add(&pair.0, &pair.1);
    (sum, pair.0)
}

/// Within reach of the engine the incremental step is always possible, and
/// leads from the pair of index `k` to the pair of index `k + 1`.
pub proof fn lemma_fib_step_fits(k: nat)
    requires
        k <= MAX_INDEX,
    ensures
        fits(fib_pair(k).0 + fib_pair(k).1),
        pair_step(fib_pair(k)) == fib_pair(k + 1),
{
    assert(fib(k + 2) == fib(k + 1) + fib(k));
    lemma_fib_below_pow2(k + 2);
    lemma_pow2_strictly_increases(k + 2, LIMIT_BITS as nat);
}

/// The jump: the pair `(fib(x + 1), fib(x))`, by raising `Q` to the `x`-th
/// power in a number of matrix products that grows with the logarithm of `x`.
pub fn calc_fib_x(x: i64) -> (pair: (IBig, IBig))
    requires
        0 <= x <= MAX_INDEX,
    ensures
        pair_value(pair) == fib_pair(x as nat),
{
    let mut matrix: Matrix2x2 = Matrix2x2::new(
        ibig_from_i32(1),
        ibig_from_i32(0),
        ibig_from_i32(0),
        ibig_from_i32(1),
    );
    let mut matrix2: Matrix2x2 = Matrix2x2::new(
        ibig_from_i32(1),
        ibig_from_i32(1),
        ibig_from_i32(1),
        ibig_from_i32(0),
    );
    let mut rest: i64 = x;
    let ghost mut done: nat = 0;
    let ghost mut base: nat = 1;
    assert(matrix@ == fib_matrix(0));
    assert(matrix2@ == fib_matrix(1)) by {
        assert(fib(2) == fib(1) + fib(0));
    }
    assert(rest * base == rest) by (nonlinear_arith)
        requires
            base == 1,
    ;
    while rest > 0
        invariant
            0 <= rest <= x <= MAX_INDEX,
            base >= 1,
            done + rest * base == x,
            matrix@ == fib_matrix(done),
            matrix2@ == fib_matrix(base),
        decreases rest,
    {
        proof {
            assert(base <= rest * base) by (nonlinear_arith)
                requires
                    rest >= 1,
                    base >= 1,
            ;
        }
        let ghost half: int = rest as int / 2;
        if rest % 2 == 1 {
            proof {
                lemma_fib_matrix_product_fits(done, base);
                lemma_fib_matrix_mul(done, base);
                assert(rest * base == half * (base + base) + base) by (nonlinear_arith)
                    requires
                        rest == 2 * half + 1,
                ;
            }
            matrix = dot(&matrix, &matrix2);
            proof {
                done = done + base;
            }
        } else {
            proof {
                assert(rest * base == half * (base + base)) by (nonlinear_arith)
                    requires
                        rest == 2 * half,
                ;
            }
        }
        proof {
            lemma_fib_matrix_product_fits(base, base);
            lemma_fib_matrix_mul(base, base);
        }
        matrix2 = dot(&matrix2, &matrix2);
        proof {
            base = base + base;
        }
        rest = rest / 2;
    }
    (matrix.a11, matrix.a12)
}

} // verus!
