//! The public parameters of the protocol: a modulus `p`, the order `q` of a
//! subgroup of the integers modulo `p`, and two generators `g` and `h` of that
//! subgroup. Prover and verifier must hold the same four numbers.

use crate::bignat::{decode, modpow, BigNat};
use crate::encoding::{be_value, lemma_leading_byte_bounds};
use crate::modular::pow_mod;
use vstd::arithmetic::div_mod::lemma_small_mod;
use vstd::arithmetic::power::pow;
use vstd::prelude::*;

verus! {

/// The modulus of the standard group: the 1024-bit prime of the group with a
/// 160-bit prime order subgroup of RFC 5114, in big-endian bytes.
pub const P: [u8; 128] = [
    0xB1, 0x0B, 0x8F, 0x96, 0xA0, 0x80, 0xE0, 0x1D, 0xDE, 0x92, 0xDE, 0x5E,
    0xAE, 0x5D, 0x54, 0xEC, 0x52, 0xC9, 0x9F, 0xBC, 0xFB, 0x06, 0xA3, 0xC6,
    0x9A, 0x6A, 0x9D, 0xCA, 0x52, 0xD2, 0x3B, 0x61, 0x60, 0x73, 0xE2, 0x86,
    0x75, 0xA2, 0x3D, 0x18, 0x98, 0x38, 0xEF, 0x1E, 0x2E, 0xE6, 0x52, 0xC0,
    0x13, 0xEC, 0xB4, 0xAE, 0xA9, 0x06, 0x11, 0x23, 0x24, 0x97, 0x5C, 0x3C,
    0xD4, 0x9B, 0x83, 0xBF, 0xAC, 0xCB, 0xDD, 0x7D, 0x90, 0xC4, 0xBD, 0x70,
    0x98, 0x48, 0x8E, 0x9C, 0x21, 0x9A, 0x73, 0x72, 0x4E, 0xFF, 0xD6, 0xFA,
    0xE5, 0x64, 0x47, 0x38, 0xFA, 0xA3, 0x1A, 0x4F, 0xF5, 0x5B, 0xCC, 0xC0,
    0xA1, 0x51, 0xAF, 0x5F, 0x0D, 0xC8, 0xB4, 0xBD, 0x45, 0xBF, 0x37, 0xDF,
    0x36, 0x5C, 0x1A, 0x65, 0xE6, 0x8C, 0xFD, 0xA7, 0x6D, 0x4D, 0xA7, 0x08,
    0xDF, 0x1F, 0xB2, 0xBC, 0x2E, 0x4A, 0x43, 0x71,
];

/// The order of the subgroup of the standard group: a 160-bit prime that
/// divides `P - 1`, in big-endian bytes.
pub const Q: [u8; 20] = [
    0xF5, 0x18, 0xAA, 0x87, 0x81, 0xA8, 0xDF, 0x27, 0x8A, 0xBA, 0x4E, 0x7D,
    0x64, 0xB7, 0xCB, 0x9D, 0x49, 0x46, 0x23, 0x53,
];

/// The first generator of the subgroup: the generator that RFC 5114 gives,
/// which is 2 raised to `(P - 1) / Q` modulo `P`, in big-endian bytes.
pub const G: [u8; 128] = [
    0xA4, 0xD1, 0xCB, 0xD5, 0xC3, 0xFD, 0x34, 0x12, 0x67, 0x65, 0xA4, 0x42,
    0xEF, 0xB9, 0x99, 0x05, 0xF8, 0x10, 0x4D, 0xD2, 0x58, 0xAC, 0x50, 0x7F,
    0xD6, 0x40, 0x6C, 0xFF, 0x14, 0x26, 0x6D, 0x31, 0x26, 0x6F, 0xEA, 0x1E,
    0x5C, 0x41, 0x56, 0x4B, 0x77, 0x7E, 0x69, 0x0F, 0x55, 0x04, 0xF2, 0x13,
    0x16, 0x02, 0x17, 0xB4, 0xB0, 0x1B, 0x88, 0x6A, 0x5E, 0x91, 0x54, 0x7F,
    0x9E, 0x27, 0x49, 0xF4, 0xD7, 0xFB, 0xD7, 0xD3, 0xB9, 0xA9, 0x2E, 0xE1,
    0x90, 0x9D, 0x0D, 0x22, 0x63, 0xF8, 0x0A, 0x76, 0xA6, 0xA2, 0x4C, 0x08,
    0x7A, 0x09, 0x1F, 0x53, 0x1D, 0xBF, 0x0A, 0x01, 0x69, 0xB6, 0xA2, 0x8A,
    0xD6, 0x62, 0xA4, 0xD1, 0x8E, 0x73, 0xAF, 0xA3, 0x2D, 0x77, 0x9D, 0x59,
    0x18, 0xD0, 0x8B, 0xC8, 0x85, 0x8F, 0x4D, 0xCE, 0xF9, 0x7C, 0x2A, 0x24,
    0x85, 0x5E, 0x6E, 0xEB, 0x22, 0xB3, 0xB2, 0xE5,
];

/// The second generator of the subgroup: 3 raised to `(P - 1) / Q` modulo
/// `P`, in big-endian bytes. Nobody is known to hold its logarithm to the
/// base `G`.
pub const H: [u8; 128] = [
    0x4D, 0xE5, 0x4C, 0x2E, 0x96, 0x40, 0x92, 0xAD, 0xD4, 0x3C, 0x7A, 0xC8,
    0x90, 0x7B, 0xD7, 0x2A, 0x21, 0x63, 0x39, 0x45, 0x0C, 0x1F, 0xD0, 0x8C,
    0xED, 0x00, 0x08, 0xCB, 0xE0, 0x9C, 0x5F, 0x02, 0x31, 0xDA, 0x87, 0xBA,
    0xB1, 0x4A, 0x56, 0x90, 0x62, 0xC6, 0x4F, 0x24, 0xA6, 0x76, 0xE0, 0xE2,
    0x40, 0xF7, 0x8D, 0x95, 0x1C, 0x26, 0x22, 0x2D, 0xDD, 0x8D, 0x9D, 0xE2,
    0xD6, 0x1E, 0x7E, 0x33, 0xBA, 0x34, 0x03, 0x91, 0x9D, 0xD7, 0x7E, 0x42,
    0xAE, 0x8E, 0x9E, 0x96, 0xBF, 0xCE, 0x31, 0xB2, 0x16, 0x70, 0x98, 0x8D,
    0x8A, 0x5D, 0xCE, 0xB2, 0x6F, 0x65, 0xC5, 0x43, 0xA2, 0x5E, 0x56, 0x52,
    0x17, 0xDC, 0xB5, 0xD9, 0x96, 0xEA, 0xF4, 0x67, 0xE6, 0x56, 0xCE, 0x86,
    0xF2, 0x89, 0x03, 0xB8, 0x03, 0x53, 0xB1, 0x9F, 0xCA, 0x4E, 0x75, 0xA4,
    0xDD, 0xF6, 0x15, 0x28, 0xE7, 0x77, 0x52, 0x51,
];

/// The four public parameters as numbers.
pub struct ParamsView {
    pub p: nat,
    pub q: nat,
    pub g: nat,
    pub h: nat,
}

impl ParamsView {
    /// What the protocol needs of its parameters: neither `p` nor `q` is
    /// zero, and `g` and `h` raised to `q` are 1 modulo `p`, so that
    /// exponents of `g` and `h` can be reduced modulo `q`.
    pub open spec fn valid(self) -> bool {
        &&& self.p != 0
        &&& self.q != 0
        &&& pow_mod(self.g, self.q, self.p) == 1
        &&& pow_mod(self.h, self.q, self.p) == 1
    }
}

/// Public parameters that have been checked: every value of this type is
/// valid in the sense of [`ParamsView::valid`].
#[derive(Debug)]
pub struct Params {
    p: BigNat,
    q: BigNat,
    g: BigNat,
    h: BigNat,
}

impl View for Params {
    type V = ParamsView;

    closed spec fn view(&self) -> ParamsView {
        ParamsView { p: self.p@, q: self.q@, g: self.g@, h: self.h@ }
    }
}

/// The number one.
fn one() -> (out: BigNat)
    ensures
        out@ == 1,
{
    let bytes: Vec<u8> = vec![1u8];
    proof {
        assert(bytes@.drop_last().len() == 0);
        assert(be_value(bytes@.drop_last()) == 0);
        assert(be_value(bytes@) == 1);
    }
    decode(bytes.as_slice())
}

impl Params {
    /// The invariant of the type: the parameters are valid.
    #[verifier::type_invariant]
    pub open spec fn checked(self) -> bool {
        self@.valid()
    }

    /// Checks four numbers and keeps them if they are valid parameters.
    pub fn new(p: BigNat, q: BigNat, g: BigNat, h: BigNat) -> (out: Option<Params>)
        ensures
            out is Some <==> (ParamsView { p: p@, q: q@, g: g@, h: h@ }).valid(),
            out is Some ==> out->0@ == (ParamsView { p: p@, q: q@, g: g@, h: h@ }),
    {
        if p.is_zero() || q.is_zero() {
            return None;
        }
        let unit = one();
        if modpow(&g, &q, &p) != unit {
            return None;
        }
        if modpow(&h, &q, &p) != unit {
            return None;
        }
        Some(Params { p, q, g, h })
    }

    /// The standard group, built from the constants [`P`], [`Q`], [`G`] and
    /// [`H`]. Their validity is checked by evaluation when this is called.
    pub fn standard() -> (out: Option<Params>)
        ensures
            out is Some <==> standard_view().valid(),
            out is Some ==> out->0@ == standard_view(),
    {
        Params::new(
            decode(P.as_slice()),
            decode(Q.as_slice()),
            decode(G.as_slice()),
            decode(H.as_slice()),
        )
    }

    /// The modulus.
    pub fn p(&self) -> (out: &BigNat)
        ensures
            out@ == self@.p,
    {
        &self.p
    }

    /// The order of the subgroup.
    pub fn q(&self) -> (out: &BigNat)
        ensures
            out@ == self@.q,
    {
        &self.q
    }

    /// The first generator.
    pub fn g(&self) -> (out: &BigNat)
        ensures
            out@ == self@.g,
    {
        &self.g
    }

    /// The second generator.
    pub fn h(&self) -> (out: &BigNat)
        ensures
            out@ == self@.h,
    {
        &self.h
    }
}

/// Neither generator of the standard group is the identity: `G` and `H` lie
/// strictly between 1 and `P`, so neither is 1 modulo `P`. Each has as many
/// bytes as `P` and a smaller first byte.
pub proof fn lemma_standard_generators_are_not_one()
    ensures
        standard_view().g % standard_view().p != 1,
        standard_view().h % standard_view().p != 1,
{
    let unit = pow(256, 127);
    lemma_leading_byte_bounds(P@);
    lemma_leading_byte_bounds(G@);
    lemma_leading_byte_bounds(H@);
    assert(P@[0] == 0xB1 && G@[0] == 0xA4 && H@[0] == 0x4D);
    assert(0xA5 * unit <= 0xB1 * unit && 0x4E * unit <= 0xB1 * unit && 0xA4 * unit >= 2 && 0x4D
        * unit >= 2) by (nonlinear_arith)
        requires
            unit >= 1,
    ;
    lemma_small_mod(be_value(G@), be_value(P@));
    lemma_small_mod(be_value(H@), be_value(P@));
}

/// The numbers that the constants of the standard group denote.
pub open spec fn standard_view() -> ParamsView {
    ParamsView { p: be_value(P@), q: be_value(Q@), g: be_value(G@), h: be_value(H@) }
}

} // verus!
