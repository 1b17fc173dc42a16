//! The two formulas of the Chaum-Pedersen protocol: the prover's response to a
//! challenge, and the verifier's check of it.

use crate::bignat::{modpow, BigNat};
use crate::modular::{
    lemma_mul_mod_cancel, lemma_mul_mod_of_pow_mods, lemma_pow_mod_bound, lemma_pow_mod_congruent,
    lemma_pow_mod_inverse, lemma_pow_of_pow_mod, mul_mod, pow_mod,
};
use vstd::arithmetic::div_mod::{
    lemma_add_mod_noop, lemma_mod_bound, lemma_mod_self_0, lemma_mod_twice,
    lemma_mul_mod_noop_right, lemma_small_mod, lemma_sub_mod_noop,
};
use vstd::arithmetic::power::{lemma_pow1, lemma_pow_adds, pow};
use vstd::prelude::*;

verus! {

/// The response to the challenge `c` of a prover with the secret `x` and the
/// nonce `k`: `(k - c * x) mod q`, taken in `[0, q)`.
pub open spec fn response(x: nat, k: nat, c: nat, q: nat) -> nat {
    ((k - c * x) % (q as int)) as nat
}

/// One verification equation: `r == (g^s * y^c) mod p`.
pub open spec fn equation_holds(r: nat, g: nat, s: nat, y: nat, c: nat, p: nat) -> bool {
    r == (pow(g as int, s) * pow(y as int, c)) % (p as int)
}

/// The verifier accepts `s` when both equations hold: the one over `g`,
/// `y1` and `r1`, and the one over `h`, `y2` and `r2`.
pub open spec fn accepts(
    s: nat,
    r1: nat,
    r2: nat,
    c: nat,
    y1: nat,
    y2: nat,
    g: nat,
    h: nat,
    p: nat,
) -> bool {
    equation_holds(r1, g, s, y1, c, p) && equation_holds(r2, h, s, y2, c, p)
}

/// The response lies in `[0, q)` whatever the sign of `k - c * x` is.
pub proof fn lemma_response_in_range(x: nat, k: nat, c: nat, q: nat)
    requires
        q != 0,
    ensures
        response(x, k, c, q) < q,
        response(x, k, c, q) == (k - c * x) % (q as int),
{
    lemma_mod_bound(k - c * x, q as int);
}

/// The way the response is computed without ever leaving the natural
/// numbers: both terms are reduced, and `q` is added before subtracting.
proof fn lemma_response_by_lifting(k: nat, cx: nat, q: nat)
    requires
        q != 0,
    ensures
        k % q + q >= cx % q,
        (((k % q + q) - cx % q) as nat) % q == (k - cx) % (q as int),
{
    let m = q as int;
    let a = (k as int) % m;
    let b = (cx as int) % m;
    lemma_mod_bound(k as int, m);
    lemma_mod_bound(cx as int, m);
    lemma_sub_mod_noop(k as int, cx as int, m);
    lemma_add_mod_noop(m, a - b, m);
    lemma_mod_self_0(m);
    lemma_mod_bound(a - b, m);
    lemma_small_mod(((a - b) % m) as nat, q);
}

/// One equation is complete: with `g^q` equal to 1 modulo `p`, the honest
/// response to any challenge `c` satisfies the equation over the
/// commitments `g^x mod p` and `g^k mod p`.
pub proof fn lemma_equation_complete(g: nat, x: nat, k: nat, c: nat, q: nat, p: nat)
    requires
        p != 0,
        q != 0,
        pow_mod(g, q, p) == 1,
    ensures
        equation_holds(pow_mod(g, k, p), g, response(x, k, c, q), pow_mod(g, x, p), c, p),
{
    let m = p as int;
    let s = response(x, k, c, q);
    let y = pow_mod(g, x, p);
    lemma_response_in_range(x, k, c, q);
    // (g^s * y^c) mod p is g^(s + x * c) mod p
    lemma_pow_of_pow_mod(g, x, c, p);
    lemma_pow_mod_bound(y, c, p);
    lemma_pow_mod_bound(g, x * c, p);
    lemma_mul_mod_noop_right(pow(g as int, s), pow(y as int, c), m);
    lemma_mul_mod_noop_right(pow(g as int, s), pow(g as int, x * c), m);
    lemma_pow_adds(g as int, s, x * c);
    // s + x * c is congruent to k modulo q
    assert((s + x * c) % q == k % q) by {
        lemma_add_mod_noop(k - c * x, (x * c) as int, q as int);
        lemma_add_mod_noop(s as int, (x * c) as int, q as int);
        lemma_mod_twice(k - c * x, q as int);
        assert(c * x == x * c) by (nonlinear_arith);
    }
    lemma_pow_mod_congruent(g, q, p, s + x * c, k);
    lemma_pow_mod_bound(g, s + x * c, p);
    lemma_pow_mod_bound(g, k, p);
}

/// Both equations are complete: where `g^q` and `h^q` are 1 modulo `p`, the
/// verifier accepts the honest response to any challenge `c`, whatever the
/// secret `x` and the nonce `k` are.
pub proof fn lemma_honest_response_accepted(
    x: nat,
    k: nat,
    c: nat,
    g: nat,
    h: nat,
    q: nat,
    p: nat,
)
    requires
        p != 0,
        q != 0,
        pow_mod(g, q, p) == 1,
        pow_mod(h, q, p) == 1,
    ensures
        accepts(
            response(x, k, c, q),
            pow_mod(g, k, p),
            pow_mod(h, k, p),
            c,
            pow_mod(g, x, p),
            pow_mod(h, x, p),
            g,
            h,
            p,
        ),
{
    lemma_equation_complete(g, x, k, c, q, p);
    lemma_equation_complete(h, x, k, c, q, p);
}

/// What one equation decides: with `g^q` equal to 1 modulo `p` and honest
/// commitments `g^x mod p` and `g^k mod p`, a response `s` satisfies the
/// equation exactly when `g^s` is `g` raised to the honest response, modulo
/// `p`.
pub proof fn lemma_equation_decides(g: nat, x: nat, k: nat, c: nat, q: nat, p: nat, s: nat)
    requires
        p != 0,
        q != 0,
        pow_mod(g, q, p) == 1,
    ensures
        equation_holds(pow_mod(g, k, p), g, s, pow_mod(g, x, p), c, p) <==> pow_mod(g, s, p)
            == pow_mod(g, response(x, k, c, q), p),
{
    let honest = response(x, k, c, q);
    let y = pow_mod(g, x, p);
    let yc = pow_mod(y, c, p);
    let gs = pow_mod(g, s, p);
    let gh = pow_mod(g, honest, p);
    lemma_equation_complete(g, x, k, c, q, p);
    lemma_mul_mod_of_pow_mods(g, s, y, c, p);
    lemma_mul_mod_of_pow_mods(g, honest, y, c, p);
    lemma_pow_mod_bound(g, k, p);
    if mul_mod(gs, yc, p) == mul_mod(gh, yc, p) {
        // y^c is a power of g, so it can be cancelled
        lemma_pow_of_pow_mod(g, x, c, p);
        lemma_pow_mod_inverse(g, q, p, x * c);
        lemma_pow_mod_bound(g, s, p);
        lemma_pow_mod_bound(g, honest, p);
        lemma_mul_mod_cancel(gs, gh, yc, pow_mod(g, (q - (x * c) % q) as nat, p), p);
    }
}

/// A response that is off by one is rejected: with `g^q` equal to 1 modulo
/// `p`, honest commitments and a generator `g` that is not 1 modulo `p`, the
/// successor of the honest response fails the equation over `g`.
pub proof fn lemma_next_response_rejected(
    x: nat,
    k: nat,
    c: nat,
    g: nat,
    h: nat,
    q: nat,
    p: nat,
)
    requires
        p != 0,
        q != 0,
        pow_mod(g, q, p) == 1,
        g % p != 1,
    ensures
        !accepts(
            response(x, k, c, q) + 1,
            pow_mod(g, k, p),
            pow_mod(h, k, p),
            c,
            pow_mod(g, x, p),
            pow_mod(h, x, p),
            g,
            h,
            p,
        ),
{
    let honest = response(x, k, c, q);
    let gh = pow_mod(g, honest, p);
    lemma_equation_decides(g, x, k, c, q, p, honest + 1);
    if pow_mod(g, honest + 1, p) == gh {
        // g * g^honest = 1 * g^honest, and g^honest can be cancelled
        lemma_pow_mod_bound(g, honest, p);
        lemma_pow_mod_bound(g, 1, p);
        lemma_pow_mod_bound(g, q, p);
        lemma_pow1(g as int);
        lemma_pow_adds(g as int, 1, honest);
        lemma_mul_mod_of_pow_mods(g, 1, g, honest, p);
        lemma_small_mod(gh, p);
        assert(1 * gh == gh);
        lemma_pow_mod_inverse(g, q, p, honest);
        lemma_mul_mod_cancel(
            pow_mod(g, 1, p),
            1,
            gh,
            pow_mod(g, (q - honest % q) as nat, p),
            p,
        );
    }
}

/// Computes the prover's response `(k - c * x) mod q` for a modulus `q` that
/// is not zero.
pub fn calculate_response(x: &BigNat, k: &BigNat, c: &BigNat, q: &BigNat) -> (s: BigNat)
    requires
        q@ != 0,
    ensures
        s@ == response(x@, k@, c@, q@),
        s@ < q@,
{
    proof {
        lemma_response_in_range(x@, k@, c@, q@);
        lemma_response_by_lifting(k@, c@ * x@, q@);
    }
    let cx = c.times(x).modulo(q);
    let lifted = k.modulo(q).plus(q);
    lifted.minus(&cx).modulo(q)
}

/// Computes `(g^s * y^c) mod p` and compares it with `r`.
fn check_equation(r: &BigNat, g: &BigNat, s: &BigNat, y: &BigNat, c: &BigNat, p: &BigNat) -> (ok:
    bool)
    requires
        p@ != 0,
    ensures
        ok == equation_holds(r@, g@, s@, y@, c@, p@),
{
    proof {
        lemma_mul_mod_of_pow_mods(g@, s@, y@, c@, p@);
    }
    let gs = modpow(g, s, p);
    let yc = modpow(y, c, p);
    let expected = gs.times(&yc).modulo(p);
    *r == expected
}

/// The verifier's check of a response `s` to the challenge `c`, for a
/// modulus `p` that is not zero.
pub fn verify(
    s: &BigNat,
    r1: &BigNat,
    r2: &BigNat,
    c: &BigNat,
    y1: &BigNat,
    y2: &BigNat,
    g: &BigNat,
    h: &BigNat,
    p: &BigNat,
) -> (ok: bool)
    requires
        p@ != 0,
    ensures
        ok == accepts(s@, r1@, r2@, c@, y1@, y2@, g@, h@, p@),
{
    let first = check_equation(r1, g, s, y1, c, p);
    let second = check_equation(r2, h, s, y2, c, p);
    first && second
}

} // verus!
