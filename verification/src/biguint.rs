//! Big-integer arithmetic on big-endian byte strings, done by `num-bigint`.
//!
//! Each function here turns its arguments into `BigUint` values, makes one
//! call into `num-bigint` and turns the result back into bytes. The bodies are
//! not verified: each contract states what the documentation and the source of
//! `num-bigint` say of the call, and the rest of the crate is proved from it.

use crate::encoding::{be_bytes, be_value, is_canonical};
use crate::modular::pow_mod;
use num_bigint::{BigUint, RandBigInt};
use vstd::prelude::*;

verus! {

/// `BigUint::modpow`: `base` raised to `exponent`, reduced modulo `modulus`.
/// It panics on a zero modulus, which the precondition excludes. The result
/// comes from `BigUint::to_bytes_be`, which gives the shortest big-endian
/// string, and the single byte `0` for zero.
#[verifier::external_body]
pub(crate) fn modpow_be(base: &[u8], exponent: &[u8], modulus: &[u8]) -> (out: Vec<u8>)
    requires
        be_value(modulus@) != 0,
    ensures
        out@ == be_bytes(pow_mod(be_value(base@), be_value(exponent@), be_value(modulus@))),
{
    let b = BigUint::from_bytes_be(base);
    let e = BigUint::from_bytes_be(exponent);
    let m = BigUint::from_bytes_be(modulus);
    b.modpow(&e, &m).to_bytes_be()
}

/// `*` on two `BigUint` values: their product.
#[verifier::external_body]
pub(crate) fn product_be(a: &[u8], b: &[u8]) -> (out: Vec<u8>)
    ensures
        out@ == be_bytes(be_value(a@) * be_value(b@)),
{
    (BigUint::from_bytes_be(a) * BigUint::from_bytes_be(b)).to_bytes_be()
}

/// `+` on two `BigUint` values: their sum.
#[verifier::external_body]
pub(crate) fn sum_be(a: &[u8], b: &[u8]) -> (out: Vec<u8>)
    ensures
        out@ == be_bytes(be_value(a@) + be_value(b@)),
{
    (BigUint::from_bytes_be(a) + BigUint::from_bytes_be(b)).to_bytes_be()
}

/// `-` on two `BigUint` values: their difference. It panics when the result
/// would be negative, which the precondition excludes.
#[verifier::external_body]
pub(crate) fn difference_be(a: &[u8], b: &[u8]) -> (out: Vec<u8>)
    requires
        be_value(a@) >= be_value(b@),
    ensures
        out@ == be_bytes((be_value(a@) - be_value(b@)) as nat),
{
    (BigUint::from_bytes_be(a) - BigUint::from_bytes_be(b)).to_bytes_be()
}

/// `%` on two `BigUint` values: the remainder of the division of `a` by
/// `modulus`. It panics on a zero modulus, which the precondition excludes.
#[verifier::external_body]
pub(crate) fn remainder_be(a: &[u8], modulus: &[u8]) -> (out: Vec<u8>)
    requires
        be_value(modulus@) != 0,
    ensures
        out@ == be_bytes(be_value(a@) % be_value(modulus@)),
{
    (BigUint::from_bytes_be(a) % BigUint::from_bytes_be(modulus)).to_bytes_be()
}

/// `RandBigInt::gen_biguint_below` on the thread-local generator of `rand`,
/// which is seeded by the operating system: a random number below `bound`.
/// It panics on a zero bound, which the precondition excludes. Nothing is
/// claimed of the number but its range; two calls may differ.
#[verifier::external_body]
pub(crate) fn random_below_be(bound: &[u8]) -> (out: Vec<u8>)
    requires
        be_value(bound@) != 0,
    ensures
        is_canonical(out@),
        be_value(out@) < be_value(bound@),
{
    let b = BigUint::from_bytes_be(bound);
    rand::thread_rng().gen_biguint_below(&b).to_bytes_be()
}

} // verus!
