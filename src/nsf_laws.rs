//! Completeness and range soundness of the no-small-factor proof.

use vstd::prelude::*;
use vstd::arithmetic::power::{pow, lemma1_pow, lemma_pow_adds, lemma_pow_multiplies, lemma_pow_distributes, lemma_pow_mod_noop};
use vstd::arithmetic::div_mod::{lemma_mod_bound, lemma_mul_mod_noop, lemma_mul_mod_noop_left, lemma_mul_mod_noop_right, lemma_small_mod};
use vstd::arithmetic::mul::lemma_mul_nonnegative;
use crate::bignum::{abs, has_inverse, inverse, is_inverse, pow_mod, pow_mod_int, rem_trunc};
use crate::nsf::{
    challenge, commit, commit_int, is_transcript_of, nsf_accepts, range_limit, transcript_with, NoSmallFactorProof,
    NoSmallFactorSetUp, NoSmallFactorStatement, NoSmallFactorWitness,
};

verus! {

/// `x^a·y^b mod m` is the product of the powers reduced modulo `m`.
proof fn lemma_commit_value(x: int, a: int, y: int, b: int, m: int)
    requires
        a >= 0,
        b >= 0,
        m > 0,
    ensures
        commit(x, a, y, b, m) == (pow(x, a as nat) * pow(y, b as nat)) % m,
        0 <= commit(x, a, y, b, m) < m,
{
    let u = pow(x, a as nat) % m;
    let v = pow(y, b as nat) % m;
    lemma_mod_bound(pow(x, a as nat), m);
    lemma_mod_bound(pow(y, b as nat), m);
    lemma_mul_nonnegative(u, v);
    lemma_mul_mod_noop(pow(x, a as nat), pow(y, b as nat), m);
    lemma_mod_bound(pow(x, a as nat) * pow(y, b as nat), m);
}

/// `c · (base^e mod m)` reduced toward zero, for `c` in `[0, m)`, is `c·base^e mod m`.
proof fn lemma_times_pow_mod(c: int, base: int, e: nat, m: int)
    requires
        0 <= c < m,
    ensures
        rem_trunc(c * pow_mod(base, e, m), m) == (c * pow(base, e)) % m,
{
    lemma_mod_bound(pow(base, e), m);
    lemma_mul_nonnegative(c, pow(base, e) % m);
    lemma_mul_mod_noop_right(c, pow(base, e), m);
}

/// The shape of the first two equations: with `A = s^a1·t^b1` and `P = s^a2·t^b2`,
/// `s^(a1+e·a2)·t^(b1+e·b2) = A·P^e` modulo `m`.
proof fn lemma_linear_equation(s: int, t: int, a1: int, a2: int, b1: int, b2: int, e: int, m: int)
    requires
        a1 >= 0,
        a2 >= 0,
        b1 >= 0,
        b2 >= 0,
        e >= 0,
        m > 0,
    ensures
        a1 + e * a2 >= 0,
        b1 + e * b2 >= 0,
        commit(s, a1 + e * a2, t, b1 + e * b2, m)
            == rem_trunc(commit(s, a1, t, b1, m) * pow_mod(commit(s, a2, t, b2, m), e as nat, m), m),
{
    lemma_mul_nonnegative(e, a2);
    lemma_mul_nonnegative(e, b2);
    let x = pow(s, a1 as nat);
    let y = pow(s, a2 as nat);
    let u = pow(t, b1 as nat);
    let v = pow(t, b2 as nat);
    // left side
    lemma_commit_value(s, a1 + e * a2, t, b1 + e * b2, m);
    lemma_pow_adds(s, a1 as nat, (e * a2) as nat);
    lemma_pow_adds(t, b1 as nat, (e * b2) as nat);
    lemma_pow_multiplies(s, a2 as nat, e as nat);
    lemma_pow_multiplies(t, b2 as nat, e as nat);
    assert((a2 as nat) * (e as nat) == (e * a2) as nat) by (nonlinear_arith)
        requires e >= 0, a2 >= 0;
    assert((b2 as nat) * (e as nat) == (e * b2) as nat) by (nonlinear_arith)
        requires e >= 0, b2 >= 0;
    assert((a1 + e * a2) as nat == a1 as nat + (e * a2) as nat);
    assert((b1 + e * b2) as nat == b1 as nat + (e * b2) as nat);
    let ye = pow(y, e as nat);
    let ve = pow(v, e as nat);
    assert(commit(s, a1 + e * a2, t, b1 + e * b2, m) == ((x * ye) * (u * ve)) % m);
    // right side
    lemma_commit_value(s, a1, t, b1, m);
    lemma_commit_value(s, a2, t, b2, m);
    let a = commit(s, a1, t, b1, m);
    let p = commit(s, a2, t, b2, m);
    lemma_times_pow_mod(a, p, e as nat, m);
    lemma_pow_mod_noop(y * v, e as nat, m);
    lemma_pow_distributes(y, v, e as nat);
    lemma_mul_mod_noop_right(a, pow(p, e as nat), m);
    lemma_mul_mod_noop_right(a, ye * ve, m);
    lemma_mul_mod_noop(x * u, ye * ve, m);
    assert((x * ye) * (u * ve) == (x * u) * (ye * ve)) by (nonlinear_arith);
    lemma_mul_mod_noop((x * u), ye * ve, m);
    assert(rem_trunc(a * pow_mod(p, e as nat, m), m) == (a * pow(p, e as nat)) % m);
    assert((a * pow(p, e as nat)) % m == (a * (ye * ve)) % m);
    assert((a * (ye * ve)) % m == ((x * u) * (ye * ve)) % m);
}


/// The third equation: with `Q = s^q·t^ν`, `T = Q^α·t^r`, `R = s^(p·q)·t^σ` and
/// `v = r + e·(σ − ν·p)`, `Q^(α+e·p)·t^v = T·R^e` modulo `m`.
proof fn lemma_product_equation(s: int, t: int, p: int, q: int, nu: int, alpha: int, r: int, sigma: int, e: int, m: int)
    requires
        p >= 0,
        q >= 0,
        nu >= 0,
        alpha >= 0,
        r >= 0,
        sigma >= 0,
        e >= 0,
        m > 0,
        r + e * (sigma - nu * p) >= 0,
    ensures
        alpha + e * p >= 0,
        ({
            let qq = commit(s, q, t, nu, m);
            commit(qq, alpha + e * p, t, r + e * (sigma - nu * p), m)
                == rem_trunc(commit(qq, alpha, t, r, m) * pow_mod(commit(s, p * q, t, sigma, m), e as nat, m), m)
        }),
{
    lemma_mul_nonnegative(e, p);
    lemma_mul_nonnegative(p, q);
    lemma_mul_nonnegative(nu, p);
    lemma_mul_nonnegative(e, nu * p);
    lemma_mul_nonnegative(e, sigma);
    let qq = commit(s, q, t, nu, m);
    lemma_commit_value(s, q, t, nu, m);
    let v = r + e * (sigma - nu * p);
    let sq = pow(s, q as nat);
    let tn = pow(t, nu as nat);
    let k = pow(qq, alpha as nat);
    let ep = (e * p) as nat;
    // Q^(α+e·p) = Q^α · Q^(e·p)
    lemma_commit_value(qq, alpha + e * p, t, v, m);
    assert((alpha + e * p) as nat == alpha as nat + ep);
    lemma_pow_adds(qq, alpha as nat, ep);
    let w = pow(qq, ep);
    let tv = pow(t, v as nat);
    assert(commit(qq, alpha + e * p, t, v, m) == ((k * w) * tv) % m);
    // Q^(e·p) ≡ s^(q·e·p)·t^(ν·e·p)
    lemma_pow_mod_noop(sq * tn, ep, m);
    lemma_pow_distributes(sq, tn, ep);
    lemma_pow_multiplies(s, q as nat, ep);
    lemma_pow_multiplies(t, nu as nat, ep);
    let w2 = pow(s, (q as nat) * ep) * pow(t, (nu as nat) * ep);
    assert(w % m == w2 % m);
    lemma_mul_mod_noop_right(k * tv, w, m);
    lemma_mul_mod_noop_right(k * tv, w2, m);
    assert(((k * w) * tv) == (k * tv) * w) by (nonlinear_arith);
    assert(((k * w) * tv) % m == ((k * tv) * w2) % m);
    // exponents: ν·e·p + v = r + e·σ and q·e·p = (p·q)·e
    let es = (e * sigma) as nat;
    assert(nu * (e * p) + v == r + e * sigma) by (nonlinear_arith)
        requires
            v == r + e * (sigma - nu * p),
    ;
    lemma_mul_nonnegative(nu, e * p);
    assert((nu as nat) * ep == nu * (e * p));
    assert((nu as nat) * ep + v as nat == r as nat + es);
    assert((q as nat) * ep == ((p * q) as nat) * (e as nat)) by (nonlinear_arith)
        requires
            ep == e * p,
            q >= 0,
            p >= 0,
            e >= 0,
    ;
    assert(es == (sigma as nat) * (e as nat)) by (nonlinear_arith)
        requires
            es == e * sigma,
            sigma >= 0,
            e >= 0,
    ;
    lemma_pow_adds(t, (nu as nat) * ep, v as nat);
    lemma_pow_adds(t, r as nat, es);
    let sn = pow(s, (p * q) as nat);
    let ts = pow(t, sigma as nat);
    lemma_pow_multiplies(s, (p * q) as nat, e as nat);
    lemma_pow_multiplies(t, sigma as nat, e as nat);
    let tr = pow(t, r as nat);
    let sne = pow(sn, e as nat);
    let tse = pow(ts, e as nat);
    assert((k * tv) * w2 == (k * tr) * (sne * tse)) by (nonlinear_arith)
        requires
            w2 == pow(s, (q as nat) * ep) * pow(t, (nu as nat) * ep),
            pow(s, (q as nat) * ep) == sne,
            pow(t, (nu as nat) * ep + v as nat) == pow(t, (nu as nat) * ep) * tv,
            pow(t, (nu as nat) * ep + v as nat) == tr * pow(t, es),
            pow(t, es) == tse,
    ;
    // right side
    lemma_commit_value(qq, alpha, t, r, m);
    lemma_commit_value(s, p * q, t, sigma, m);
    let tt = commit(qq, alpha, t, r, m);
    let rr = commit(s, p * q, t, sigma, m);
    lemma_times_pow_mod(tt, rr, e as nat, m);
    lemma_pow_mod_noop(sn * ts, e as nat, m);
    lemma_pow_distributes(sn, ts, e as nat);
    lemma_mul_mod_noop_right(tt, pow(rr, e as nat), m);
    lemma_mul_mod_noop_right(tt, sne * tse, m);
    lemma_mul_mod_noop(k * tr, sne * tse, m);
    assert(rem_trunc(tt * pow_mod(rr, e as nat, m), m) == (tt * pow(rr, e as nat)) % m);
    assert((tt * pow(rr, e as nat)) % m == (tt * (sne * tse)) % m);
    assert((tt * (sne * tse)) % m == ((k * tr) * (sne * tse)) % m);
}


/// The third equation with a negative `v`, where `t` has an inverse modulo `m`: the power of
/// `t` is a power of its inverse, and `t^w` cancels it.
proof fn lemma_product_equation_negative(s: int, t: int, p: int, q: int, nu: int, alpha: int, r: int, sigma: int, e: int, m: int)
    requires
        p >= 0,
        q >= 0,
        nu >= 0,
        alpha >= 0,
        r >= 0,
        sigma >= 0,
        e >= 0,
        m > 1,
        r + e * (sigma - nu * p) < 0,
        has_inverse(t, m),
    ensures
        alpha + e * p >= 0,
        ({
            let qq = commit(s, q, t, nu, m);
            commit_int(qq, alpha + e * p, t, r + e * (sigma - nu * p), m)
                == rem_trunc(commit(qq, alpha, t, r, m) * pow_mod(commit(s, p * q, t, sigma, m), e as nat, m), m)
        }),
{
    let v = r + e * (sigma - nu * p);
    let w = -v;
    lemma_product_equation(s, t, p, q, nu, alpha, r + w, sigma, e, m);
    lemma_mul_nonnegative(e, p);
    let qq = commit(s, q, t, nu, m);
    let z1 = alpha + e * p;
    let rr = commit(s, p * q, t, sigma, m);
    let g = pow(qq, alpha as nat) * pow(t, r as nat);
    let u = pow(t, w as nat);
    let h = pow(rr, e as nat);
    let inv = inverse(t, m);
    assert(is_inverse(inv, t, m));
    let iv = pow(inv, w as nat);
    // Q^z1 ≡ g·u·h, from the equation with r + w in place of r (where v becomes 0)
    let a = pow(qq, z1 as nat) % m;
    lemma_commit_value(qq, z1, t, 0, m);
    assert(pow(t, 0) == 1) by {
        vstd::arithmetic::power::lemma_pow0(t);
    }
    lemma_small_mod(1, m as nat);
    lemma_mod_bound(pow(qq, z1 as nat), m);
    assert(commit(qq, z1, t, 0, m) == a);
    lemma_commit_value(qq, alpha, t, r + w, m);
    assert((r + w) as nat == r as nat + w as nat);
    lemma_pow_adds(t, r as nat, w as nat);
    assert(pow(qq, alpha as nat) * pow(t, (r + w) as nat) == g * u) by (nonlinear_arith)
        requires
            pow(t, (r + w) as nat) == pow(t, r as nat) * u,
            g == pow(qq, alpha as nat) * pow(t, r as nat),
    ;
    lemma_mod_bound(g * u, m);
    lemma_times_pow_mod((g * u) % m, rr, e as nat, m);
    lemma_mul_mod_noop_left(g * u, h, m);
    assert(a == (g * u * h) % m);
    // u·iv ≡ 1
    lemma_pow_distributes(t, inv, w as nat);
    lemma_pow_mod_noop(t * inv, w as nat, m);
    assert((t * inv) % m == 1);
    lemma1_pow(w as nat);
    assert((u * iv) % m == 1);
    // left side
    lemma_mod_bound(pow(inv, w as nat), m);
    assert(pow_mod_int(t, v, m) == iv % m);
    lemma_mul_nonnegative(a, iv % m);
    lemma_mul_mod_noop_right(a, iv, m);
    lemma_mul_mod_noop_left(g * u * h, iv, m);
    assert(g * u * h * iv == (g * h) * (u * iv)) by (nonlinear_arith);
    lemma_mul_mod_noop_right(g * h, u * iv, m);
    assert(commit_int(qq, z1, t, v, m) == (g * h) % m);
    // right side
    lemma_commit_value(qq, alpha, t, r, m);
    lemma_times_pow_mod(g % m, rr, e as nat, m);
    lemma_mul_mod_noop_left(g, h, m);
}

/// Completeness: a transcript that `prove` made from factors `p·q = N0` is accepted by
/// `verify`, wherever its responses `z1` and `z2` fall within the range bound (which fails only with
/// negligible probability when `ε` is large enough), and `t` has an inverse modulo `Ñ` where
/// `v` is negative.
pub proof fn lemma_completeness(
    proof: NoSmallFactorProof,
    setup: NoSmallFactorSetUp,
    statement: NoSmallFactorStatement,
    witness: NoSmallFactorWitness,
)
    requires
        is_transcript_of(proof, setup, statement, witness),
        setup.n_tilde_.value() > 1,
        witness.p_.value() >= 0,
        witness.q_.value() >= 0,
        witness.p_.value() * witness.q_.value() == statement.n0_.value(),
        abs(proof.z1__.value()) <= range_limit(statement.n0_.value(), statement.l_ as nat, statement.varepsilon_ as nat),
        abs(proof.z2__.value()) <= range_limit(statement.n0_.value(), statement.l_ as nat, statement.varepsilon_ as nat),
        proof.v__.value() >= 0 || has_inverse(setup.t_.value(), setup.n_tilde_.value()),
    ensures
        nsf_accepts(proof, setup, statement),
{
    let (alpha, beta, mu, nu, x, y, r) = choose|alpha: int, beta: int, mu: int, nu: int, x: int, y: int, r: int|
        #[trigger] transcript_with(proof, setup, statement, witness, alpha, beta, mu, nu, x, y, r);
    let nt = setup.n_tilde_.value();
    let s = setup.s_.value();
    let t = setup.t_.value();
    let p = witness.p_.value();
    let q = witness.q_.value();
    let n0 = statement.n0_.value();
    let sigma = proof.sigma__.value();
    let e = challenge(n0, proof.p__.value(), proof.q__.value(), proof.a__.value(), proof.b__.value(), proof.t__.value());
    vstd::arithmetic::power2::lemma_pow2_pos(statement.l_ as nat);
    let two_l = vstd::arithmetic::power2::pow2(statement.l_ as nat) as int;
    assert(nt > 0) by (nonlinear_arith)
        requires
            0 <= mu < two_l * nt,
            two_l > 0,
    ;
    lemma_mul_nonnegative(p, q);
    lemma_mul_nonnegative(e, p);
    lemma_mul_nonnegative(e, q);
    lemma_mul_nonnegative(e, mu);
    lemma_mul_nonnegative(e, nu);
    lemma_linear_equation(s, t, alpha, p, x, mu, e, nt);
    lemma_linear_equation(s, t, beta, q, y, nu, e, nt);
    if proof.v__.value() >= 0 {
        lemma_product_equation(s, t, p, q, nu, alpha, r, sigma, e, nt);
    } else {
        lemma_product_equation_negative(s, t, p, q, nu, alpha, r, sigma, e, nt);
    }
    assert(proof.z1__.value() >= 0 && proof.z2__.value() >= 0 && proof.w1__.value() >= 0
        && proof.w2__.value() >= 0 && sigma >= 0);
}

/// The range check stands on its own: a transcript whose `z1` or `z2` lies outside
/// `±2^(l+ε)·⌊√N0⌋` is rejected, whatever the three equations give.
pub proof fn lemma_out_of_range_rejected(proof: NoSmallFactorProof, setup: NoSmallFactorSetUp, statement: NoSmallFactorStatement)
    requires
        abs(proof.z1__.value()) > range_limit(statement.n0_.value(), statement.l_ as nat, statement.varepsilon_ as nat)
            || abs(proof.z2__.value()) > range_limit(statement.n0_.value(), statement.l_ as nat, statement.varepsilon_ as nat),
    ensures
        !nsf_accepts(proof, setup, statement),
{
}

} // verus!
