//! A non-interactive proof that a modulus `N0 = p·q` has no small factor, bound to a
//! Pedersen setup `(Ñ, s, t)`.

use vstd::prelude::*;
use vstd::arithmetic::power2::{lemma_pow2_adds, lemma_pow2_pos, pow2};
use vstd::arithmetic::mul::lemma_mul_strictly_positive;
use sha2::{Digest, Sha512};
use crate::hd::be_value;
use crate::bignum::{
    abs, big_add, big_eq, big_mod_pow_int, pow_defined, pow_mod_int, big_from_bytes, big_from_u64, big_lt, big_mod_pow, big_mul, big_rem,
    big_sample_below, big_shl, big_sqrt, big_sub, big_to_bytes, is_isqrt, isqrt, mag_bytes, pow_mod, rem_trunc,
    BigNum,
};

verus! {

/// The public Pedersen setup: modulus `Ñ` and bases `s` and `t`.
#[derive(Clone, Debug)]
pub struct NoSmallFactorSetUp {
    pub n_tilde_: BigNum,
    pub s_: BigNum,
    pub t_: BigNum,
}

/// The factors `p` and `q` of `N0`.
#[derive(Clone, Debug)]
pub struct NoSmallFactorWitness {
    pub p_: BigNum,
    pub q_: BigNum,
}

/// The modulus `N0` and the security parameters `l` and `ε`.
pub struct NoSmallFactorStatement {
    pub n0_: BigNum,
    pub l_: u32,
    pub varepsilon_: u32,
}

/// The transcript: commitments `P, Q, A, B, T`, the value `σ` and responses `z1, z2, w1, w2, v`.
#[derive(Clone, Debug)]
pub struct NoSmallFactorProof {
    pub p__: BigNum,
    pub q__: BigNum,
    pub a__: BigNum,
    pub b__: BigNum,
    pub t__: BigNum,
    pub sigma__: BigNum,
    pub z1__: BigNum,
    pub z2__: BigNum,
    pub w1__: BigNum,
    pub w2__: BigNum,
    pub v__: BigNum,
}

/// The responses of a transcript alone.
#[derive(Clone, Debug)]
pub struct NoSmallFactorProofK {
    pub z1__: BigNum,
    pub z2__: BigNum,
    pub w1__: BigNum,
    pub w2__: BigNum,
    pub v__: BigNum,
}

/// SHA-512 of `data`.
pub uninterp spec fn sha512_of(data: Seq<u8>) -> Seq<u8>;

/// Relies on sha2's `Sha512::digest`: the 64-byte digest.
#[verifier::external_body]
fn sha512(data: &[u8]) -> (r: Vec<u8>)
    ensures
        r@ == sha512_of(data@),
        r@.len() == 64,
{
    Sha512::digest(data).to_vec()
}

/// The domain salt appended to the hashed transcript.
pub open spec fn salt() -> Seq<u8> {
    seq![75u8, 90u8, 101u8, 110u8]
}

fn salt_bytes() -> (r: Vec<u8>)
    ensures
        r@ == salt(),
{
    let r: Vec<u8> = vec![75u8, 90u8, 101u8, 110u8];
    assert(r@ =~= salt());
    r
}

/// The bytes hashed into the challenge.
pub open spec fn challenge_input(n0: int, p: int, q: int, a: int, b: int, t: int) -> Seq<u8> {
    mag_bytes(abs(n0)) + mag_bytes(abs(p)) + mag_bytes(abs(q)) + mag_bytes(abs(a)) + mag_bytes(abs(b))
        + mag_bytes(abs(t)) + salt()
}

/// The challenge `e`: the digest of the transcript read as a big-endian number.
pub open spec fn challenge(n0: int, p: int, q: int, a: int, b: int, t: int) -> int {
    be_value(sha512_of(challenge_input(n0, p, q, a, b, t))) as int
}

/// The bound `2^(l+ε)·⌊√N0⌋` on `|z1|` and `|z2|`.
pub open spec fn range_limit(n0: int, l: nat, eps: nat) -> int {
    (pow2(l + eps) * isqrt(n0 as nat)) as int
}

/// `x^a · y^b mod m`.
pub open spec fn commit(x: int, a: int, y: int, b: int, m: int) -> int {
    rem_trunc(pow_mod(x, a as nat, m) * pow_mod(y, b as nat, m), m)
}

/// `x^a · y^b mod m` for any integer exponents.
pub open spec fn commit_int(x: int, a: int, y: int, b: int, m: int) -> int {
    rem_trunc(pow_mod_int(x, a, m) * pow_mod_int(y, b, m), m)
}

/// Whether `proof` is accepted for `setup` and `statement`: `Ñ` is above one and `N0` not
/// negative, `z1` and `z2` lie within `±range_limit`, every power is defined (a negative
/// exponent raises an inverse modulo `Ñ`), and with `R = s^N0·t^σ mod Ñ` the three equations
/// `s^z1·t^w1 = A·P^e`, `s^z2·t^w2 = B·Q^e` and `Q^z1·t^v = T·R^e` hold modulo `Ñ`.
pub open spec fn nsf_accepts(proof: NoSmallFactorProof, setup: NoSmallFactorSetUp, statement: NoSmallFactorStatement) -> bool {
    let nt = setup.n_tilde_.value();
    let s = setup.s_.value();
    let t = setup.t_.value();
    let n0 = statement.n0_.value();
    let lim = range_limit(n0, statement.l_ as nat, statement.varepsilon_ as nat);
    let z1 = proof.z1__.value();
    let z2 = proof.z2__.value();
    let e = challenge(n0, proof.p__.value(), proof.q__.value(), proof.a__.value(), proof.b__.value(), proof.t__.value());
    let q = proof.q__.value();
    let r = commit_int(s, n0, t, proof.sigma__.value(), nt);
    &&& nt > 1
    &&& n0 >= 0
    &&& -lim <= z1 <= lim
    &&& -lim <= z2 <= lim
    &&& pow_defined(s, z1, nt) && pow_defined(t, proof.w1__.value(), nt)
    &&& pow_defined(s, z2, nt) && pow_defined(t, proof.w2__.value(), nt)
    &&& pow_defined(q, z1, nt) && pow_defined(t, proof.v__.value(), nt)
    &&& pow_defined(t, proof.sigma__.value(), nt)
    &&& commit_int(s, z1, t, proof.w1__.value(), nt) == rem_trunc(proof.a__.value() * pow_mod(proof.p__.value(), e as nat, nt), nt)
    &&& commit_int(s, z2, t, proof.w2__.value(), nt) == rem_trunc(proof.b__.value() * pow_mod(q, e as nat, nt), nt)
    &&& commit_int(q, z1, t, proof.v__.value(), nt) == rem_trunc(proof.t__.value() * pow_mod(r, e as nat, nt), nt)
}

proof fn lemma_isqrt_positive(n: nat)
    requires
        n >= 1,
    ensures
        isqrt(n) >= 1,
{
    assert(is_isqrt(isqrt(n), n)) by {
        lemma_isqrt_exists(n);
    }
    if isqrt(n) == 0 {
        assert((0nat + 1) * (0nat + 1) == 1) by (nonlinear_arith);
        assert(false);
    }
}

/// Every natural number has an integer square root.
proof fn lemma_isqrt_exists(n: nat)
    ensures
        exists|r: nat| is_isqrt(r, n),
    decreases n,
{
    if n == 0 {
        assert(0nat * 0nat == 0 && (0nat + 1) * (0nat + 1) == 1) by (nonlinear_arith);
        assert(is_isqrt(0, 0));
    } else {
        let m = (n - 1) as nat;
        lemma_isqrt_exists(m);
        let r = choose|r: nat| is_isqrt(r, m);
        if (r + 1) * (r + 1) <= n {
            assert((r + 2) * (r + 2) > n) by (nonlinear_arith)
                requires
                    r * r <= n - 1,
                    (r + 1) * (r + 1) > n - 1,
                    (r + 1) * (r + 1) <= n,
            ;
            assert(is_isqrt(r + 1, n));
        } else {
            assert(is_isqrt(r, n));
        }
    }
}

fn append_bytes(out: &mut Vec<u8>, b: &Vec<u8>)
    ensures
        final(out)@ == old(out)@ + b@,
{
    let mut i: usize = 0;
    while i < b.len()
        invariant
            i <= b@.len(),
            out@ == old(out)@ + b@.subrange(0, i as int),
        decreases b@.len() - i,
    {
        out.push(b[i]);
        i = i + 1;
        assert(out@ =~= old(out)@ + b@.subrange(0, i as int));
    }
    assert(b@.subrange(0, b@.len() as int) =~= b@);
}

/// The challenge for a transcript's commitments.
fn compute_challenge(n0: &BigNum, p: &BigNum, q: &BigNum, a: &BigNum, b: &BigNum, t: &BigNum) -> (r: BigNum)
    ensures
        r.value() == challenge(n0.value(), p.value(), q.value(), a.value(), b.value(), t.value()),
{
    let mut data: Vec<u8> = Vec::new();
    append_bytes(&mut data, &big_to_bytes(n0));
    append_bytes(&mut data, &big_to_bytes(p));
    append_bytes(&mut data, &big_to_bytes(q));
    append_bytes(&mut data, &big_to_bytes(a));
    append_bytes(&mut data, &big_to_bytes(b));
    append_bytes(&mut data, &big_to_bytes(t));
    append_bytes(&mut data, &salt_bytes());
    assert(data@ =~= challenge_input(n0.value(), p.value(), q.value(), a.value(), b.value(), t.value()));
    let digest = sha512(data.as_slice());
    big_from_bytes(digest.as_slice())
}

/// `x^a · y^b mod m` for any integer exponents; `None` where a power is not defined.
fn compute_commit_int(x: &BigNum, a: &BigNum, y: &BigNum, b: &BigNum, m: &BigNum) -> (r: Option<BigNum>)
    requires
        m.value() > 1,
    ensures
        r is None <==> !(pow_defined(x.value(), a.value(), m.value()) && pow_defined(y.value(), b.value(), m.value())),
        r matches Some(c) ==> c.value() == commit_int(x.value(), a.value(), y.value(), b.value(), m.value()),
{
    let u = big_mod_pow_int(x, a, m)?;
    let v = big_mod_pow_int(y, b, m)?;
    Some(big_rem(&big_mul(&u, &v), m))
}

/// `x^a · y^b mod m`.
fn compute_commit(x: &BigNum, a: &BigNum, y: &BigNum, b: &BigNum, m: &BigNum) -> (r: BigNum)
    requires
        a.value() >= 0,
        b.value() >= 0,
        m.value() > 0,
    ensures
        r.value() == commit(x.value(), a.value(), y.value(), b.value(), m.value()),
{
    big_rem(&big_mul(&big_mod_pow(x, a, m), &big_mod_pow(y, b, m)), m)
}

/// `2^(l+ε)·root`.
fn compute_range_limit(root: &BigNum, l: u32, eps: u32) -> (r: BigNum)
    ensures
        r.value() == pow2(l as nat + eps as nat) * root.value(),
{
    let pow_l = big_shl(&big_from_u64(1), l as usize);
    let pow_sum = big_shl(&pow_l, eps as usize);
    proof {
        lemma_pow2_adds(l as nat, eps as nat);
    }
    assert(pow_sum.value() == pow2(l as nat + eps as nat));
    big_mul(&pow_sum, root)
}

/// Whether `proof` was made for `setup`, `statement` and `witness` with the blinding values
/// `α, β` below `2^(l+ε)·⌊√N0⌋`, `μ, ν` below `2^l·Ñ`, `σ` below `2^l·N0·Ñ`, `r` below
/// `2^(l+ε)·N0·Ñ` and `x, y` below `2^(l+ε)·Ñ`: `P = s^p·t^μ`, `Q = s^q·t^ν`, `A = s^α·t^x`,
/// `B = s^β·t^y`, `T = Q^α·t^r` modulo `Ñ`, and with the challenge `e` of these,
/// `z1 = α + e·p`, `z2 = β + e·q`, `w1 = x + e·μ`, `w2 = y + e·ν`, `v = r + e·(σ − ν·p)`.
pub open spec fn transcript_with(
    proof: NoSmallFactorProof,
    setup: NoSmallFactorSetUp,
    statement: NoSmallFactorStatement,
    witness: NoSmallFactorWitness,
    alpha: int,
    beta: int,
    mu: int,
    nu: int,
    x: int,
    y: int,
    r: int,
) -> bool {
    let nt = setup.n_tilde_.value();
    let s = setup.s_.value();
    let t = setup.t_.value();
    let n0 = statement.n0_.value();
    let l = statement.l_ as nat;
    let eps = statement.varepsilon_ as nat;
    let p = witness.p_.value();
    let q = witness.q_.value();
    let sigma = proof.sigma__.value();
    let limit_mu_nu = pow2(l) * nt;
    let e = challenge(n0, proof.p__.value(), proof.q__.value(), proof.a__.value(), proof.b__.value(), proof.t__.value());
    &&& 0 <= alpha < range_limit(n0, l, eps)
    &&& 0 <= beta < range_limit(n0, l, eps)
    &&& 0 <= mu < limit_mu_nu
    &&& 0 <= nu < limit_mu_nu
    &&& 0 <= sigma < limit_mu_nu * n0
    &&& 0 <= r < limit_mu_nu * n0 * pow2(eps)
    &&& 0 <= x < limit_mu_nu * pow2(eps)
    &&& 0 <= y < limit_mu_nu * pow2(eps)
    &&& proof.p__.value() == commit(s, p, t, mu, nt)
    &&& proof.q__.value() == commit(s, q, t, nu, nt)
    &&& proof.a__.value() == commit(s, alpha, t, x, nt)
    &&& proof.b__.value() == commit(s, beta, t, y, nt)
    &&& proof.t__.value() == commit(proof.q__.value(), alpha, t, r, nt)
    &&& proof.z1__.value() == alpha + e * p
    &&& proof.z2__.value() == beta + e * q
    &&& proof.w1__.value() == x + e * mu
    &&& proof.w2__.value() == y + e * nu
    &&& proof.v__.value() == r + e * (sigma - nu * p)
}

/// Whether `proof` was made by `prove` from `setup`, `statement` and `witness`, for some
/// blinding values in their ranges.
pub open spec fn is_transcript_of(
    proof: NoSmallFactorProof,
    setup: NoSmallFactorSetUp,
    statement: NoSmallFactorStatement,
    witness: NoSmallFactorWitness,
) -> bool {
    exists|alpha: int, beta: int, mu: int, nu: int, x: int, y: int, r: int|
        #[trigger] transcript_with(proof, setup, statement, witness, alpha, beta, mu, nu, x, y, r)
}

impl NoSmallFactorProof {
    /// Makes a transcript for `setup`, `statement` and `witness` from fresh random blinding
    /// values.
    pub fn prove(setup: &NoSmallFactorSetUp, statement: &NoSmallFactorStatement, witness: &NoSmallFactorWitness) -> (r: Option<NoSmallFactorProof>)
        requires
            setup.n_tilde_.value() > 0,
            statement.n0_.value() > 0,
            witness.p_.value() >= 0,
            witness.q_.value() >= 0,
        ensures
            r matches Some(pf) && is_transcript_of(pf, *setup, *statement, *witness),
    {
        let n_tilde = &setup.n_tilde_;
        let s = &setup.s_;
        let t = &setup.t_;
        let n0 = &statement.n0_;
        let l = statement.l_;
        let varepsilon = statement.varepsilon_;
        let p = &witness.p_;
        let q = &witness.q_;

        let sqrt_n0 = big_sqrt(n0);
        let limit_alpha_beta = compute_range_limit(&sqrt_n0, l, varepsilon);
        // 2^l * n_tilde
        let limit_mu_nu = big_mul(&big_shl(&big_from_u64(1), l as usize), n_tilde);
        // 2^l * n0 * n_tilde
        let limit_sigma = big_mul(&limit_mu_nu, n0);
        // 2^(l + varepsilon) * n0 * n_tilde
        let limit_r = big_shl(&limit_sigma, varepsilon as usize);
        // 2^(l + varepsilon) * n_tilde
        let limit_x_y = big_shl(&limit_mu_nu, varepsilon as usize);
        proof {
            lemma_isqrt_positive(n0.value() as nat);
            lemma_pow2_pos(l as nat + varepsilon as nat);
            lemma_pow2_pos(l as nat);
            lemma_pow2_pos(varepsilon as nat);
            lemma_mul_strictly_positive(pow2(l as nat + varepsilon as nat) as int, isqrt(n0.value() as nat) as int);
            lemma_mul_strictly_positive(pow2(l as nat) as int, n_tilde.value());
            lemma_mul_strictly_positive(limit_mu_nu.value(), n0.value());
            lemma_mul_strictly_positive(limit_sigma.value(), pow2(varepsilon as nat) as int);
            lemma_mul_strictly_positive(limit_mu_nu.value(), pow2(varepsilon as nat) as int);
        }

        let alpha = big_sample_below(&limit_alpha_beta);
        let beta = big_sample_below(&limit_alpha_beta);
        let mu = big_sample_below(&limit_mu_nu);
        let nu = big_sample_below(&limit_mu_nu);
        let sigma__ = big_sample_below(&limit_sigma);
        let r = big_sample_below(&limit_r);
        let x = big_sample_below(&limit_x_y);
        let y = big_sample_below(&limit_x_y);

        let proof = Self::prove_with(setup, statement, witness, &alpha, &beta, &mu, &nu, sigma__, &r, &x, &y);
        Some(proof)
    }

    /// The transcript for `setup`, `statement` and `witness` with the given blinding values
    /// `α, β, μ, ν, σ, r, x, y`, each in its range.
    pub fn prove_with(
        setup: &NoSmallFactorSetUp,
        statement: &NoSmallFactorStatement,
        witness: &NoSmallFactorWitness,
        alpha: &BigNum,
        beta: &BigNum,
        mu: &BigNum,
        nu: &BigNum,
        sigma__: BigNum,
        r: &BigNum,
        x: &BigNum,
        y: &BigNum,
    ) -> (proof: NoSmallFactorProof)
        requires
            setup.n_tilde_.value() > 0,
            witness.p_.value() >= 0,
            witness.q_.value() >= 0,
            ({
                let nt = setup.n_tilde_.value();
                let n0 = statement.n0_.value();
                let l = statement.l_ as nat;
                let eps = statement.varepsilon_ as nat;
                let limit_mu_nu = pow2(l) * nt;
                &&& 0 <= alpha.value() < range_limit(n0, l, eps)
                &&& 0 <= beta.value() < range_limit(n0, l, eps)
                &&& 0 <= mu.value() < limit_mu_nu
                &&& 0 <= nu.value() < limit_mu_nu
                &&& 0 <= sigma__.value() < limit_mu_nu * n0
                &&& 0 <= r.value() < limit_mu_nu * n0 * pow2(eps)
                &&& 0 <= x.value() < limit_mu_nu * pow2(eps)
                &&& 0 <= y.value() < limit_mu_nu * pow2(eps)
            }),
        ensures
            proof.sigma__ == sigma__,
            transcript_with(proof, *setup, *statement, *witness, alpha.value(), beta.value(), mu.value(),
                nu.value(), x.value(), y.value(), r.value()),
    {
        let n_tilde = &setup.n_tilde_;
        let s = &setup.s_;
        let t = &setup.t_;
        let n0 = &statement.n0_;
        let p = &witness.p_;
        let q = &witness.q_;
        // P = s^p * t^mu  mod n_tilde
        let p__ = compute_commit(s, p, t, mu, n_tilde);
        // Q = s^q * t^nu  mod n_tilde
        let q__ = compute_commit(s, q, t, nu, n_tilde);
        // A = s^alpha * t^x  mod n_tilde
        let a__ = compute_commit(s, alpha, t, x, n_tilde);
        // B = s^beta * t^y  mod n_tilde
        let b__ = compute_commit(s, beta, t, y, n_tilde);
        // T = Q^alpha * t^r  mod n_tilde
        let t__ = compute_commit(&q__, alpha, t, r, n_tilde);

        let e = compute_challenge(n0, &p__, &q__, &a__, &b__, &t__);

        let sigma_tilde = big_sub(&sigma__, &big_mul(nu, p));
        let z1__ = big_add(alpha, &big_mul(&e, p));
        let z2__ = big_add(beta, &big_mul(&e, q));
        let w1__ = big_add(x, &big_mul(&e, mu));
        let w2__ = big_add(y, &big_mul(&e, nu));
        let v__ = big_add(r, &big_mul(&e, &sigma_tilde));

        let proof = NoSmallFactorProof { p__, q__, a__, b__, t__, sigma__, z1__, z2__, w1__, w2__, v__ };
        proof
    }

    /// Checks the transcript against `setup` and `statement`.
    pub fn verify(&self, setup: &NoSmallFactorSetUp, statement: &NoSmallFactorStatement) -> (r: bool)
        ensures
            r == nsf_accepts(*self, *setup, *statement),
    {
        let n_tilde = &setup.n_tilde_;
        let s = &setup.s_;
        let t = &setup.t_;
        let n0 = &statement.n0_;
        let zero = big_from_u64(0);
        if !big_lt(&big_from_u64(1), n_tilde) || big_lt(n0, &zero) {
            return false;
        }
        let sqrt_n0 = big_sqrt(n0);
        let limit_alpha_beta = compute_range_limit(&sqrt_n0, statement.l_, statement.varepsilon_);
        let neg_limit = big_sub(&zero, &limit_alpha_beta);
        if big_lt(&limit_alpha_beta, &self.z1__) || big_lt(&self.z1__, &neg_limit) {
            return false;
        }
        if big_lt(&limit_alpha_beta, &self.z2__) || big_lt(&self.z2__, &neg_limit) {
            return false;
        }
        let e = compute_challenge(n0, &self.p__, &self.q__, &self.a__, &self.b__, &self.t__);
        let r = match compute_commit_int(s, n0, t, &self.sigma__, n_tilde) {
            Some(c) => c,
            None => {
                return false;
            },
        };
        // s^z1 * t^w1 = A * P^e  mod n_tilde
        let left = match compute_commit_int(s, &self.z1__, t, &self.w1__, n_tilde) {
            Some(c) => c,
            None => {
                return false;
            },
        };
        let right = big_rem(&big_mul(&self.a__, &big_mod_pow(&self.p__, &e, n_tilde)), n_tilde);
        if !big_eq(&left, &right) {
            return false;
        }
        // s^z2 * t^w2 = B * Q^e  mod n_tilde
        let left = match compute_commit_int(s, &self.z2__, t, &self.w2__, n_tilde) {
            Some(c) => c,
            None => {
                return false;
            },
        };
        let right = big_rem(&big_mul(&self.b__, &big_mod_pow(&self.q__, &e, n_tilde)), n_tilde);
        if !big_eq(&left, &right) {
            return false;
        }
        // Q^z1 * t^v = T * R^e  mod n_tilde
        let left = match compute_commit_int(&self.q__, &self.z1__, t, &self.v__, n_tilde) {
            Some(c) => c,
            None => {
                return false;
            },
        };
        let right = big_rem(&big_mul(&self.t__, &big_mod_pow(&r, &e, n_tilde)), n_tilde);
        big_eq(&left, &right)
    }
}

} // verus!
