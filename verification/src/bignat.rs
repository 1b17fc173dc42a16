//! Non-negative integers of any size, as the protocol exchanges them.

use crate::biguint::{difference_be, modpow_be, product_be, random_below_be, remainder_be, sum_be};
use crate::encoding::{
    be_bytes, be_value, is_canonical, lemma_bytes_canonical, lemma_bytes_of_value,
    lemma_skip_leading_zero, lemma_value_of_bytes,
};
use crate::modular::pow_mod;
use vstd::prelude::*;
use vstd::slice::slice_subrange;

verus! {

/// A non-negative integer of any size. Its view is the number itself.
///
/// The number is held as its canonical big-endian byte string, so two values
/// denote the same number exactly when they hold the same bytes.
#[derive(Debug)]
pub struct BigNat {
    bytes: Vec<u8>,
}

impl View for BigNat {
    type V = nat;

    closed spec fn view(&self) -> nat {
        be_value(self.bytes@)
    }
}

impl BigNat {
    #[verifier::type_invariant]
    spec fn canonical(self) -> bool {
        is_canonical(self.bytes@)
    }

    /// Takes the bytes that `num-bigint` handed back for the number `n`.
    fn from_canonical(bytes: Vec<u8>, Ghost(n): Ghost<nat>) -> (out: BigNat)
        requires
            bytes@ == be_bytes(n),
        ensures
            out@ == n,
    {
        proof {
            lemma_bytes_canonical(n);
            lemma_value_of_bytes(n);
        }
        BigNat { bytes }
    }

    /// Whether the number is zero.
    pub fn is_zero(&self) -> (zero: bool)
        ensures
            zero == (self@ == 0),
    {
        proof {
            use_type_invariant(self);
            lemma_bytes_of_value(self.bytes@);
            lemma_value_of_bytes(0);
            if self.bytes@.len() == 1 && self.bytes@[0] == 0 {
                assert(self.bytes@ =~= be_bytes(0));
            }
        }
        self.bytes.len() == 1 && self.bytes[0] == 0
    }

    /// The product of two numbers.
    pub(crate) fn times(&self, rhs: &BigNat) -> (out: BigNat)
        ensures
            out@ == self@ * rhs@,
    {
        let bytes = product_be(self.bytes.as_slice(), rhs.bytes.as_slice());
        BigNat::from_canonical(bytes, Ghost(self@ * rhs@))
    }

    /// The sum of two numbers.
    pub(crate) fn plus(&self, rhs: &BigNat) -> (out: BigNat)
        ensures
            out@ == self@ + rhs@,
    {
        let bytes = sum_be(self.bytes.as_slice(), rhs.bytes.as_slice());
        BigNat::from_canonical(bytes, Ghost(self@ + rhs@))
    }

    /// The difference of two numbers, the first of which is no smaller.
    pub(crate) fn minus(&self, rhs: &BigNat) -> (out: BigNat)
        requires
            self@ >= rhs@,
        ensures
            out@ == self@ - rhs@,
    {
        let bytes = difference_be(self.bytes.as_slice(), rhs.bytes.as_slice());
        BigNat::from_canonical(bytes, Ghost((self@ - rhs@) as nat))
    }

    /// The remainder of the division by a modulus that is not zero.
    pub(crate) fn modulo(&self, modulus: &BigNat) -> (out: BigNat)
        requires
            modulus@ != 0,
        ensures
            out@ == self@ % modulus@,
    {
        let bytes = remainder_be(self.bytes.as_slice(), modulus.bytes.as_slice());
        BigNat::from_canonical(bytes, Ghost(self@ % modulus@))
    }
}

impl Clone for BigNat {
    fn clone(&self) -> (out: BigNat)
        ensures
            out@ == self@,
    {
        proof {
            use_type_invariant(self);
        }
        BigNat { bytes: self.bytes.clone() }
    }
}

impl PartialEq for BigNat {
    /// Two values are equal when they denote the same number.
    fn eq(&self, other: &BigNat) -> (equal: bool) {
        proof {
            use_type_invariant(self);
            use_type_invariant(other);
            lemma_bytes_of_value(self.bytes@);
            lemma_bytes_of_value(other.bytes@);
        }
        let n = self.bytes.len();
        if n != other.bytes.len() {
            return false;
        }
        let mut i: usize = 0;
        while i < n
            invariant
                n == self.bytes@.len(),
                n == other.bytes@.len(),
                i <= n,
                be_bytes(be_value(self.bytes@)) == self.bytes@,
                be_bytes(be_value(other.bytes@)) == other.bytes@,
                forall|j: int| 0 <= j < i ==> self.bytes@[j] == other.bytes@[j],
            decreases n - i,
        {
            if self.bytes[i] != other.bytes[i] {
                return false;
            }
            i += 1;
        }
        assert(self.bytes@ =~= other.bytes@);
        true
    }
}

impl vstd::std_specs::cmp::PartialEqSpecImpl for BigNat {
    open spec fn obeys_eq_spec() -> bool {
        true
    }

    open spec fn eq_spec(&self, other: &BigNat) -> bool {
        self@ == other@
    }
}

impl Eq for BigNat {}

/// Reads a number from its wire format. Every byte string is accepted: the
/// empty one denotes zero, and leading zero bytes are ignored.
pub fn decode(bytes: &[u8]) -> (out: BigNat)
    ensures
        out@ == be_value(bytes@),
{
    let mut start: usize = 0;
    assert(bytes@.skip(0) =~= bytes@);
    while start < bytes.len() && bytes[start] == 0
        invariant
            start <= bytes.len(),
            be_value(bytes@.skip(start as int)) == be_value(bytes@),
        decreases bytes.len() - start,
    {
        proof {
            lemma_skip_leading_zero(bytes@.skip(start as int));
            assert(bytes@.skip(start as int).skip(1) =~= bytes@.skip(start + 1));
        }
        start += 1;
    }
    if start == bytes.len() {
        assert(bytes@.skip(start as int).len() == 0);
        let zero: Vec<u8> = vec![0u8];
        proof {
            lemma_value_of_bytes(0);
            assert(zero@ =~= be_bytes(0));
        }
        BigNat { bytes: zero }
    } else {
        let tail = slice_subrange(bytes, start, bytes.len());
        let kept = vstd::slice::slice_to_vec(tail);
        assert(kept@ =~= bytes@.skip(start as int));
        BigNat { bytes: kept }
    }
}

/// `base` raised to `exponent`, reduced modulo `modulus`, which is not zero.
pub fn modpow(base: &BigNat, exponent: &BigNat, modulus: &BigNat) -> (out: BigNat)
    requires
        modulus@ != 0,
    ensures
        out@ == pow_mod(base@, exponent@, modulus@),
{
    let bytes = modpow_be(
        base.bytes.as_slice(),
        exponent.bytes.as_slice(),
        modulus.bytes.as_slice(),
    );
    BigNat::from_canonical(bytes, Ghost(pow_mod(base@, exponent@, modulus@)))
}

/// A random number below `bound`, which is not zero, from a generator that
/// the operating system seeds. Nothing but the range is known of it.
pub fn random_number(bound: &BigNat) -> (out: BigNat)
    requires
        bound@ != 0,
    ensures
        out@ < bound@,
{
    let bytes = random_below_be(bound.bytes.as_slice());
    BigNat { bytes }
}

/// Writes a number in its wire format: the canonical big-endian byte string.
pub fn encode(value: &BigNat) -> (out: Vec<u8>)
    ensures
        out@ == be_bytes(value@),
        be_value(out@) == value@,
        is_canonical(out@),
{
    proof {
        use_type_invariant(value);
        lemma_bytes_of_value(value.bytes@);
    }
    value.bytes.clone()
}

} // verus!
