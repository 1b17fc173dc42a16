//! Soundness of the verifier's check in a group of prime order.
//!
//! Where `q` is prime and `g` and `h` are not 1 modulo `p`, commitments
//! `g^a` and `h^b` to two different exponents can be defended against one
//! challenge at most: whatever the prover sends, no two different challenges
//! below `q` both have a response that the verifier accepts. A prover who
//! does not hold one secret behind both commitments therefore passes with
//! one challenge out of `q`.

use crate::modular::{
    lemma_mul_mod_cancel, lemma_mul_mod_of_pow_mods, lemma_pow_mod_bound, lemma_pow_mod_congruent,
    lemma_pow_mod_inverse, lemma_pow_mod_period, lemma_pow_of_pow_mod, pow_mod,
};
use crate::protocol::{accepts, equation_holds, lemma_equation_decides, response};
use vstd::arithmetic::div_mod::{
    lemma_fundamental_div_mod, lemma_mod_bound, lemma_mod_equivalence, lemma_mod_multiples_basic,
    lemma_mul_mod_noop_right, lemma_small_mod,
};
use vstd::arithmetic::power::{lemma_pow1, lemma_pow_adds};
use vstd::prelude::*;

verus! {

/// A prime: a number from 2 on that no smaller number from 2 on divides.
pub open spec fn is_prime(q: nat) -> bool {
    q >= 2 && forall|d: nat| 2 <= d < q ==> #[trigger] (q % d) != 0
}

/// Euclid's lemma for a factor below the prime: where a prime `q` divides
/// `a * b` and `a` lies strictly between 0 and `q`, it divides `b`.
pub proof fn lemma_prime_divides_factor(q: nat, a: nat, b: nat)
    requires
        is_prime(q),
        0 < a < q,
        (a * b) % q == 0,
    ensures
        b % q == 0,
    decreases a,
{
    if a == 1 {
        assert(a * b == b) by (nonlinear_arith)
            requires
                a == 1,
        ;
    } else {
        let r = q % a;
        let t = q / a;
        let m = (a * b) / q;
        assert(r != 0);
        lemma_mod_bound(q as int, a as int);
        lemma_fundamental_div_mod(q as int, a as int);
        lemma_fundamental_div_mod((a * b) as int, q as int);
        assert(r * b == (b - t * m) * q) by (nonlinear_arith)
            requires
                q == a * t + r,
                a * b == q * m,
        ;
        lemma_mod_multiples_basic(b - t * m, q as int);
        lemma_prime_divides_factor(q, r, b);
    }
}

/// In a group of prime order every element but the identity has that order:
/// where `g^q` is 1 modulo `p` for a prime `q`, and `g^d` is 1 too for some
/// `d` strictly between 0 and `q`, `g` itself is 1 modulo `p`.
pub proof fn lemma_prime_order(g: nat, q: nat, p: nat, d: nat)
    requires
        p != 0,
        is_prime(q),
        pow_mod(g, q, p) == 1,
        0 < d < q,
        pow_mod(g, d, p) == 1,
    ensures
        g % p == 1,
    decreases d,
{
    if d == 1 {
        lemma_pow1(g as int);
    } else {
        let r = q % d;
        let t = q / d;
        assert(r != 0);
        lemma_mod_bound(q as int, d as int);
        lemma_fundamental_div_mod(q as int, d as int);
        lemma_pow_mod_period(g, d, p, r, t);
        lemma_prime_order(g, q, p, r);
    }
}

/// Where two powers of `g` with exponents below `q` agree modulo `p`, `g`
/// raised to the difference of the exponents is 1 modulo `p`.
proof fn lemma_power_gap(g: nat, q: nat, p: nat, high: nat, low: nat)
    requires
        p != 0,
        q != 0,
        pow_mod(g, q, p) == 1,
        low <= high,
        pow_mod(g, high, p) == pow_mod(g, low, p),
    ensures
        pow_mod(g, (high - low) as nat, p) == 1,
{
    let gap = (high - low) as nat;
    let base = pow_mod(g, low, p);
    lemma_pow_mod_bound(g, low, p);
    lemma_pow_mod_bound(g, gap, p);
    lemma_pow_mod_bound(g, q, p);
    lemma_pow_adds(g as int, gap, low);
    lemma_mul_mod_of_pow_mods(g, gap, g, low, p);
    lemma_small_mod(base, p);
    assert(1 * base == base);
    lemma_pow_mod_inverse(g, q, p, low);
    lemma_mul_mod_cancel(pow_mod(g, gap, p), 1, base, pow_mod(g, (q - low % q) as nat, p), p);
}

/// In a group of prime order the exponent of a generator is determined
/// modulo the order: where `q` is prime, `g^q` is 1 and `g` is not 1 modulo
/// `p`, equal powers of `g` have exponents that are congruent modulo `q`.
pub proof fn lemma_exponents_congruent(g: nat, q: nat, p: nat, m: nat, n: nat)
    requires
        p != 0,
        is_prime(q),
        pow_mod(g, q, p) == 1,
        g % p != 1,
        pow_mod(g, m, p) == pow_mod(g, n, p),
    ensures
        m % q == n % q,
{
    let a = m % q;
    let b = n % q;
    lemma_mod_bound(m as int, q as int);
    lemma_mod_bound(n as int, q as int);
    lemma_small_mod(a, q);
    lemma_small_mod(b, q);
    lemma_pow_mod_congruent(g, q, p, m, a);
    lemma_pow_mod_congruent(g, q, p, n, b);
    if a > b {
        lemma_power_gap(g, q, p, a, b);
        lemma_prime_order(g, q, p, (a - b) as nat);
    } else if b > a {
        lemma_power_gap(g, q, p, b, a);
        lemma_prime_order(g, q, p, (b - a) as nat);
    }
}

/// The arithmetic at the heart of soundness: modulo a prime `q`, the two
/// congruences `u - c * a = v - c * b` have at most one solution `c` below
/// `q` when `a` and `b` are not congruent.
pub proof fn lemma_one_solution(q: nat, a: nat, b: nat, u: nat, v: nat, c1: nat, c2: nat)
    requires
        is_prime(q),
        a % q != b % q,
        c1 <= c2 < q,
        (u - c1 * a) % (q as int) == (v - c1 * b) % (q as int),
        (u - c2 * a) % (q as int) == (v - c2 * b) % (q as int),
    ensures
        c1 == c2,
{
    if c1 < c2 {
        let m = q as int;
        let gap = (c2 - c1) as nat;
        let spread = ((a - b) % m) as nat;
        lemma_mod_bound(a - b, m);
        lemma_mod_equivalence(a as int, b as int, m);
        lemma_mod_equivalence(u - c1 * a, v - c1 * b, m);
        lemma_mod_equivalence(u - c2 * a, v - c2 * b, m);
        let first = (u - c1 * a) - (v - c1 * b);
        let second = (u - c2 * a) - (v - c2 * b);
        lemma_mod_equivalence(first, second, m);
        assert(first - second == gap * (a - b)) by (nonlinear_arith)
            requires
                first == (u - c1 * a) - (v - c1 * b),
                second == (u - c2 * a) - (v - c2 * b),
                gap == c2 - c1,
        ;
        lemma_mul_mod_noop_right(gap as int, a - b, m);
        lemma_prime_divides_factor(q, gap, spread);
        lemma_small_mod(spread, q);
    }
}

/// What an equation that holds says of the commitment `r`: with the
/// commitment `g^a mod p` in the place of `y`, `r` is `g` raised to
/// `s + a * c`, modulo `p`.
pub proof fn lemma_commitment_is_power(r: nat, g: nat, s: nat, a: nat, c: nat, p: nat)
    requires
        p != 0,
        equation_holds(r, g, s, pow_mod(g, a, p), c, p),
    ensures
        r == pow_mod(g, s + a * c, p),
{
    let y = pow_mod(g, a, p);
    lemma_mul_mod_of_pow_mods(g, s, y, c, p);
    lemma_pow_of_pow_mod(g, a, c, p);
    lemma_mul_mod_of_pow_mods(g, s, g, a * c, p);
    lemma_pow_adds(g as int, s, a * c);
    lemma_pow_mod_bound(g, s + a * c, p);
}

/// What an accepted response says of the exponents, for one equation: with
/// the commitments `g^a` and `g^u`, an accepted `s` is congruent to
/// `u - c * a` modulo `q`.
proof fn lemma_response_is_determined(g: nat, a: nat, u: nat, c: nat, q: nat, p: nat, s: nat)
    requires
        p != 0,
        is_prime(q),
        pow_mod(g, q, p) == 1,
        g % p != 1,
        equation_holds(pow_mod(g, u, p), g, s, pow_mod(g, a, p), c, p),
    ensures
        s % q == (u - c * a) % (q as int),
{
    lemma_equation_decides(g, a, u, c, q, p, s);
    lemma_exponents_congruent(g, q, p, s, response(a, u, c, q));
    lemma_mod_bound(u - c * a, q as int);
    lemma_small_mod(response(a, u, c, q), q);
}

/// Soundness. Let `q` be prime, `g` and `h` of order `q` modulo `p`, and
/// let the registered commitments be `g^a` and `h^b` with `a` and `b` not
/// congruent modulo `q`, so that no single secret is behind both. Then for
/// any commitments `r1` and `r2` of the prover, two challenges below `q` that
/// both have an accepted response are the same challenge.
pub proof fn lemma_at_most_one_challenge(
    a: nat,
    b: nat,
    r1: nat,
    r2: nat,
    c1: nat,
    s1: nat,
    c2: nat,
    s2: nat,
    g: nat,
    h: nat,
    q: nat,
    p: nat,
)
    requires
        p != 0,
        is_prime(q),
        pow_mod(g, q, p) == 1,
        pow_mod(h, q, p) == 1,
        g % p != 1,
        h % p != 1,
        a % q != b % q,
        c1 < q,
        c2 < q,
        accepts(s1, r1, r2, c1, pow_mod(g, a, p), pow_mod(h, b, p), g, h, p),
        accepts(s2, r1, r2, c2, pow_mod(g, a, p), pow_mod(h, b, p), g, h, p),
    ensures
        c1 == c2,
{
    let u = s1 + a * c1;
    let v = s1 + b * c1;
    lemma_commitment_is_power(r1, g, s1, a, c1, p);
    lemma_commitment_is_power(r2, h, s1, b, c1, p);
    lemma_response_is_determined(g, a, u, c1, q, p, s1);
    lemma_response_is_determined(h, b, v, c1, q, p, s1);
    lemma_response_is_determined(g, a, u, c2, q, p, s2);
    lemma_response_is_determined(h, b, v, c2, q, p, s2);
    if c1 <= c2 {
        lemma_one_solution(q, a, b, u, v, c1, c2);
    } else {
        lemma_one_solution(q, a, b, u, v, c2, c1);
    }
}

} // verus!
