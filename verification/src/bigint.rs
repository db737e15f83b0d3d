//! The arbitrary-precision integers of `ibig`, as the proofs see them.
//!
//! An [`IBig`] is opaque to the verifier. Its meaning is the integer
//! [`ibig_value`], and each operation used by the engine is reached through a
//! small function here whose contract is taken on trust from `ibig`.

use crate::digits::signed_decimal;
use ibig::IBig;
use vstd::arithmetic::power2::pow2;
use vstd::prelude::*;

verus! {

/// `ibig::IBig`, the signed big integer, made known as a type. Nothing of
/// its inside is seen.
#[verifier::external_type_specification]
#[verifier::external_body]
pub struct ExIBig(IBig);

/// The integer that `x` holds. It has no definition: what is known of it is
/// what the contracts below say of the operations of `ibig`.
pub uninterp spec fn ibig_value(x: IBig) -> int;

/// Integers of fewer than this many binary digits are within the size that
/// `ibig` supports. `ibig` panics when it is to build a number of more than
/// `UBig::MAX_BIT_LEN` bits, a bound that depends on the target: `2^32 - 64`
/// where its words have 32 bits, `2^63` where they have 64. Half of the
/// smaller bound leaves room for the scratch words of its operations.
pub const LIMIT_BITS: u64 = 2_147_483_648;

/// `v` is small enough for `ibig` to build it.
pub open spec fn fits(v: int) -> bool {
    -pow2(LIMIT_BITS as nat) < v < pow2(LIMIT_BITS as nat)
}

/// `IBig::from` on an `i32`: the big integer of the same value.
#[verifier::external_body]
pub(crate) fn ibig_from_i32(v: i32) -> (r: IBig)
    ensures
        ibig_value(r) == v,
{
    IBig::from(v)
}

/// `&IBig + &IBig`, the `Add` of `ibig`: the exact sum. Since `ibig` panics
/// when a number grows past its maximum length, the sum is required to fit.
#[verifier::external_body]
pub(crate) fn ibig_add(a: &IBig, b: &IBig) -> (r: IBig)
    requires
        fits(ibig_value(*a) + ibig_value(*b)),
    ensures
        ibig_value(r) == ibig_value(*a) + ibig_value(*b),
{
    a + b
}

/// `&IBig * &IBig`, the `Mul` of `ibig`: the exact product, required to fit
/// as the sum is.
#[verifier::external_body]
pub(crate) fn ibig_mul(a: &IBig, b: &IBig) -> (r: IBig)
    requires
        fits(ibig_value(*a) * ibig_value(*b)),
    ensures
        ibig_value(r) == ibig_value(*a) * ibig_value(*b),
{
    a * b
}

/// `to_string` on an `IBig`, which goes by the `Display` of `ibig`: the
/// shortest decimal string, with a minus sign before a negative number;
/// handed out as bytes.
#[verifier::external_body]
pub(crate) fn ibig_to_decimal(x: &IBig) -> (r: Vec<u8>)
    ensures
        r@ == signed_decimal(ibig_value(*x)),
{
    x.to_string().into_bytes()
}

} // verus!
