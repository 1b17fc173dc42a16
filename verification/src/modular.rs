//! Modular arithmetic on mathematical integers: the vocabulary of the
//! contracts, and the facts about powers that the protocol rests on.

use vstd::arithmetic::div_mod::{
    lemma_fundamental_div_mod, lemma_mod_bound, lemma_mul_mod_noop, lemma_mul_mod_noop_general,
    lemma_small_mod,
};
use vstd::arithmetic::mul::lemma_mul_is_associative;
use vstd::arithmetic::power::{
    lemma1_pow, lemma_pow_adds, lemma_pow_mod_noop, lemma_pow_multiplies, pow,
};
use vstd::prelude::*;

verus! {

/// `base` raised to `exponent`, reduced modulo `modulus`.
pub open spec fn pow_mod(base: nat, exponent: nat, modulus: nat) -> nat {
    (pow(base as int, exponent) % (modulus as int)) as nat
}

/// The product of `a` and `b`, reduced modulo `modulus`.
pub open spec fn mul_mod(a: nat, b: nat, modulus: nat) -> nat {
    (a * b) % modulus
}

/// A reduced power lies below a positive modulus.
pub proof fn lemma_pow_mod_bound(base: nat, exponent: nat, modulus: nat)
    requires
        modulus != 0,
    ensures
        pow_mod(base, exponent, modulus) < modulus,
        pow_mod(base, exponent, modulus) == pow(base as int, exponent) % (modulus as int),
{
    lemma_mod_bound(pow(base as int, exponent), modulus as int);
}

/// Reducing both factors first does not change a reduced product.
pub proof fn lemma_mul_mod_of_pow_mods(a: nat, s: nat, b: nat, c: nat, modulus: nat)
    requires
        modulus != 0,
    ensures
        mul_mod(pow_mod(a, s, modulus), pow_mod(b, c, modulus), modulus) == (pow(a as int, s) * pow(
            b as int,
            c,
        )) % (modulus as int),
{
    lemma_pow_mod_bound(a, s, modulus);
    lemma_pow_mod_bound(b, c, modulus);
    lemma_mul_mod_noop(pow(a as int, s), pow(b as int, c), modulus as int);
    lemma_mod_bound(pow(a as int, s) * pow(b as int, c), modulus as int);
}

/// Where `g^q` is 1 modulo `p`, adding a multiple of `q` to an exponent of
/// `g` does not change the power modulo `p`.
pub proof fn lemma_pow_mod_period(g: nat, q: nat, p: nat, a: nat, d: nat)
    requires
        p != 0,
        pow_mod(g, q, p) == 1,
    ensures
        pow_mod(g, a + q * d, p) == pow_mod(g, a, p),
{
    let m = p as int;
    let base = g as int;
    let cycle = pow(base, q);
    assert(pow(base, q * d) % m == 1) by {
        lemma_pow_multiplies(base, q, d);
        lemma_pow_mod_noop(cycle, d, m);
        lemma1_pow(d);
        lemma_mod_bound(cycle, m);
        lemma_small_mod(1, p);
    }
    lemma_pow_adds(base, a, q * d);
    lemma_mul_mod_noop(pow(base, a), pow(base, q * d), m);
    lemma_mod_bound(pow(base, a), m);
    lemma_small_mod((pow(base, a) % m) as nat, p);
}

/// Where `g^q` is 1 modulo `p`, exponents that are congruent modulo `q` give
/// the same power of `g` modulo `p`.
pub proof fn lemma_pow_mod_congruent(g: nat, q: nat, p: nat, a: nat, b: nat)
    requires
        p != 0,
        q != 0,
        pow_mod(g, q, p) == 1,
        a % q == b % q,
    ensures
        pow_mod(g, a, p) == pow_mod(g, b, p),
{
    lemma_fundamental_div_mod(a as int, q as int);
    lemma_fundamental_div_mod(b as int, q as int);
    lemma_pow_mod_period(g, q, p, a % q, a / q);
    lemma_pow_mod_period(g, q, p, b % q, b / q);
}

/// A power of a reduced power: `(g^x mod p)^c` is `g^(x * c)` modulo `p`.
pub proof fn lemma_pow_of_pow_mod(g: nat, x: nat, c: nat, p: nat)
    requires
        p != 0,
    ensures
        pow_mod(pow_mod(g, x, p), c, p) == pow_mod(g, x * c, p),
{
    lemma_pow_mod_bound(g, x, p);
    lemma_pow_mod_noop(pow(g as int, x), c, p as int);
    lemma_pow_multiplies(g as int, x, c);
}

/// Where `g^q` is 1 modulo `p`, every power of `g` has an inverse modulo `p`
/// that is a power of `g` too: the exponent `q - n mod q` gives it.
pub proof fn lemma_pow_mod_inverse(g: nat, q: nat, p: nat, n: nat)
    requires
        p != 0,
        q != 0,
        pow_mod(g, q, p) == 1,
    ensures
        mul_mod(pow_mod(g, n, p), pow_mod(g, (q - n % q) as nat, p), p) == 1,
{
    let e = (q - n % q) as nat;
    lemma_mod_bound(n as int, q as int);
    lemma_fundamental_div_mod(n as int, q as int);
    let d = n / q;
    let r = n % q;
    assert(n + e == 0 + q * (d + 1)) by (nonlinear_arith)
        requires
            n == q * d + r,
            e == q - r,
    ;
    lemma_pow_mod_period(g, q, p, 0, d + 1);
    assert(pow_mod(g, 0, p) == 1) by {
        vstd::arithmetic::power::lemma_pow0(g as int);
        lemma_mod_bound(pow(g as int, q), p as int);
        lemma_small_mod(1, p);
    }
    lemma_mul_mod_of_pow_mods(g, n, g, e, p);
    lemma_pow_adds(g as int, n, e);
}

/// A factor that has an inverse modulo `p` can be cancelled: of two numbers
/// below `p`, equal products with `y` modulo `p` come from equal numbers.
pub proof fn lemma_mul_mod_cancel(a: nat, b: nat, y: nat, z: nat, p: nat)
    requires
        a < p,
        b < p,
        mul_mod(y, z, p) == 1,
        mul_mod(a, y, p) == mul_mod(b, y, p),
    ensures
        a == b,
{
    lemma_mul_mod_undo(a, y, z, p);
    lemma_mul_mod_undo(b, y, z, p);
}

/// Multiplying by `y` and then by its inverse `z` modulo `p` gives a number
/// below `p` back.
proof fn lemma_mul_mod_undo(a: nat, y: nat, z: nat, p: nat)
    requires
        a < p,
        mul_mod(y, z, p) == 1,
    ensures
        mul_mod(mul_mod(a, y, p), z, p) == a,
{
    let m = p as int;
    lemma_mul_mod_noop_general((a * y) as int, z as int, m);
    lemma_mul_mod_noop_general(a as int, (y * z) as int, m);
    lemma_mul_is_associative(a as int, y as int, z as int);
    lemma_small_mod(a, p);
    assert(a * 1 == a);
    lemma_mod_bound((a * y) as int, m);
    lemma_mod_bound((y * z) as int, m);
}

} // verus!
