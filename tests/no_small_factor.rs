use multi_party_ecdsa::bignum::BigNum;
use multi_party_ecdsa::nsf::{NoSmallFactorProof, NoSmallFactorSetUp, NoSmallFactorStatement, NoSmallFactorWitness};

fn num(v: u64) -> BigNum {
    BigNum { negative: false, magnitude: v.to_be_bytes().to_vec() }
}

fn setup() -> NoSmallFactorSetUp {
    NoSmallFactorSetUp { n_tilde_: num(1_000_003 * 999_983), s_: num(4), t_: num(9) }
}

fn statement() -> NoSmallFactorStatement {
    NoSmallFactorStatement { n0_: num(3 * 1_000_000_007), l_: 16, varepsilon_: 530 }
}

fn witness() -> NoSmallFactorWitness {
    NoSmallFactorWitness { p_: num(3), q_: num(1_000_000_007) }
}

fn honest_proof() -> NoSmallFactorProof {
    NoSmallFactorProof::prove(&setup(), &statement(), &witness()).unwrap()
}

#[test]
fn honest_proof_verifies() {
    let proof = honest_proof();
    assert!(proof.verify(&setup(), &statement()));
}

#[test]
fn two_honest_proofs_differ_but_both_verify() {
    let a = honest_proof();
    let b = honest_proof();
    assert_ne!(a.z1__.magnitude, b.z1__.magnitude);
    assert!(a.verify(&setup(), &statement()));
    assert!(b.verify(&setup(), &statement()));
}

/// The number with its lowest bit flipped.
fn bump(v: &BigNum) -> BigNum {
    let mut out = v.clone();
    if out.magnitude.is_empty() {
        out.magnitude.push(0);
    }
    let last = out.magnitude.len() - 1;
    out.magnitude[last] ^= 1;
    out
}

#[test]
fn changing_any_field_makes_verification_fail() {
    let st = setup();
    let stm = statement();
    let proof = honest_proof();
    let fields: Vec<fn(&mut NoSmallFactorProof)> = vec![
        |p| p.p__ = bump(&p.p__),
        |p| p.q__ = bump(&p.q__),
        |p| p.a__ = bump(&p.a__),
        |p| p.b__ = bump(&p.b__),
        |p| p.t__ = bump(&p.t__),
        |p| p.sigma__ = bump(&p.sigma__),
        |p| p.z1__ = bump(&p.z1__),
        |p| p.z2__ = bump(&p.z2__),
        |p| p.w1__ = bump(&p.w1__),
        |p| p.w2__ = bump(&p.w2__),
        |p| p.v__ = bump(&p.v__),
    ];
    for change in fields {
        let mut forged = proof.clone();
        change(&mut forged);
        assert!(!forged.verify(&st, &stm));
    }
}

#[test]
fn other_statement_or_setup_fails() {
    let proof = honest_proof();
    let mut other = statement();
    other.n0_ = num(5 * 1_000_000_007);
    assert!(!proof.verify(&setup(), &other));
    let mut other_setup = setup();
    other_setup.t_ = num(16);
    assert!(!proof.verify(&other_setup, &statement()));
}

#[test]
fn response_out_of_range_is_rejected() {
    // With a tiny bound the honest responses fall outside it.
    let proof = honest_proof();
    let narrow = NoSmallFactorStatement { n0_: num(3 * 1_000_000_007), l_: 16, varepsilon_: 8 };
    assert!(!proof.verify(&setup(), &narrow));
}

#[test]
fn negated_response_fails_the_equations() {
    let mut proof = honest_proof();
    proof.w1__.negative = true;
    assert!(!proof.verify(&setup(), &statement()));
}

#[test]
fn zero_modulus_is_rejected() {
    let proof = honest_proof();
    let mut bad = setup();
    bad.n_tilde_ = num(0);
    assert!(!proof.verify(&bad, &statement()));
}

#[test]
fn leading_zero_bytes_do_not_change_a_number() {
    let mut proof = honest_proof();
    proof.z1__.magnitude.insert(0, 0);
    proof.p__.magnitude.insert(0, 0);
    assert!(proof.verify(&setup(), &statement()));
}
