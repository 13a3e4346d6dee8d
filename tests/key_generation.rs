use multi_party_ecdsa::dkg::{Dkg, KeygenCrypto};
use multi_party_ecdsa::keygen::{Error, ErrorType, Keygen, ProceedError, ProtocolMessage};
use multi_party_ecdsa::store::{Msg, StoreErr};
use multi_party_ecdsa::rounds::KeygenBody;
use multi_party_ecdsa::share::LocalKey;
use multi_party_ecdsa::bignum::BigNum;
use multi_party_ecdsa::nsf::{NoSmallFactorProof, NoSmallFactorSetUp, NoSmallFactorStatement, NoSmallFactorWitness};
use num_bigint::{BigInt, Sign};

const ORDER_HEX: &str = "FFFFFFFFFFFFFFFFFFFFFFFFFFFFFFFEBAAEDCE6AF48A03BBFD25E8CD0364141";

fn order() -> BigInt {
    BigInt::parse_bytes(ORDER_HEX.as_bytes(), 16).unwrap()
}

fn scalar_bytes(v: &BigInt) -> Vec<u8> {
    let (_, mag) = v.to_bytes_be();
    let mut out = vec![0u8; 32 - mag.len()];
    out.extend(mag);
    out
}

fn point_of(v: u64) -> Vec<u8> {
    let sk = bip32::secp256k1::ecdsa::SigningKey::from_bytes(&scalar_bytes(&BigInt::from(v))).unwrap();
    bip32::PublicKey::to_bytes(&sk.verifying_key()).to_vec()
}

/// A stand-in for the cryptography: party `i` shares the secret `i` on the line `i + 10·i·x`,
/// "encrypts" a share as its decimal text, and proves nothing. `bad` makes one check fail.
struct Plain {
    t: u16,
    n: u16,
    fail_commitments: bool,
    bad_proofs: bool,
}

fn num(v: u64) -> BigNum {
    BigNum { negative: false, magnitude: v.to_be_bytes().to_vec() }
}

fn nsf_setup() -> NoSmallFactorSetUp {
    NoSmallFactorSetUp { n_tilde_: num(1_000_003 * 999_983), s_: num(4), t_: num(9) }
}

fn nsf_statement() -> NoSmallFactorStatement {
    NoSmallFactorStatement { n0_: num(3 * 1_000_000_007), l_: 16, varepsilon_: 530 }
}

type K = u16;
type C = u16;
type D = u16;
type V = u16;
type S = u64;
type P = NoSmallFactorProof;
type SK = u64;
type L = (u16, Vec<u8>);

impl KeygenCrypto<K, C, D, V, S, P, SK, L> for Plain {
    fn create_keys(&mut self, party_i: u16) -> (K, C, D) {
        (party_i, party_i, party_i)
    }

    fn verify_commitments(&mut self, keys: &K, t: u16, n: u16, decoms: &Vec<D>, comms: &Vec<C>) -> Result<(V, Vec<S>, Vec<P>), ErrorType> {
        assert_eq!((t, n), (self.t, self.n));
        if self.fail_commitments || decoms != comms {
            return Err(ErrorType { error_type: "opening".to_string(), bad_actors: vec![] });
        }
        let i = u64::from(*keys);
        let shares = (1..=u64::from(n)).map(|j| i + 10 * i * j).collect();
        let witness = NoSmallFactorWitness { p_: num(3), q_: num(1_000_000_007) };
        let proofs = (1..=n)
            .map(|_| {
                let mut p = NoSmallFactorProof::prove(&nsf_setup(), &nsf_statement(), &witness).unwrap();
                if self.bad_proofs {
                    p.z1__.negative = true;
                }
                p
            })
            .collect();
        Ok((*keys, shares, proofs))
    }

    fn encrypt_share(&mut self, _comm: &C, share: &S) -> Vec<u8> {
        share.to_string().into_bytes()
    }

    fn public_share(&self, decom: &D) -> Vec<u8> {
        point_of(u64::from(*decom))
    }

    fn nsf_instance(&self, _keys: &K, _comm: &C) -> (NoSmallFactorSetUp, NoSmallFactorStatement) {
        (nsf_setup(), nsf_statement())
    }

    fn decrypt_share(&self, _keys: &K, encrypted: &Vec<u8>) -> S {
        String::from_utf8(encrypted.clone()).unwrap().parse().unwrap()
    }

    fn verify_shares(&mut self, keys: &K, _t: u16, n: u16, _y: &Vec<Vec<u8>>, shares: &Vec<S>, vss: &Vec<V>, proofs: &Vec<P>, _c: &Vec<C>, i: u16) -> Result<(SK, L), ErrorType> {
        assert_eq!(*keys, i);
        assert_eq!(vss, &(1..=n).collect::<Vec<u16>>());
        assert_eq!(proofs.len(), usize::from(n));
        let x: u64 = shares.iter().sum();
        Ok((x, (i, point_of(x))))
    }

    fn verify_dlog_proofs(&self, _t: u16, n: u16, proofs: &Vec<L>, _y: &Vec<Vec<u8>>, _vss: &Vec<V>) -> Result<(), ErrorType> {
        assert_eq!(proofs.iter().map(|p| p.0).collect::<Vec<u16>>(), (1..=n).collect::<Vec<u16>>());
        Ok(())
    }

    fn secret_contribution(&self, keys: &K) -> Vec<u8> {
        scalar_bytes(&BigInt::from(*keys))
    }

    fn keys_bytes(&self, keys: &K) -> Vec<u8> {
        vec![*keys as u8, 3]
    }

    fn linear_share(&self, sk: &SK) -> Vec<u8> {
        scalar_bytes(&BigInt::from(*sk))
    }

    fn proof_key(&self, proof: &L) -> Vec<u8> {
        proof.1.clone()
    }

    fn paillier_key(&self, comm: &C) -> Vec<u8> {
        vec![*comm as u8]
    }

    fn dlog_statement(&self, comm: &C) -> Vec<u8> {
        vec![*comm as u8, 0]
    }

    fn decryption_key(&self, keys: &K) -> Vec<u8> {
        vec![*keys as u8, 1]
    }

    fn vss_bytes(&self, vss: &V) -> Vec<u8> {
        vec![*vss as u8, 2]
    }
}

type Body = KeygenBody<C, D, V, P, L>;
type Party = (Keygen<Body, LocalKey>, Dkg<K, C, D, V, S, P, SK, L, Plain>);

fn run(t: u16, n: u16, fail_commitments: bool) -> Vec<Party> {
    let mut parties: Vec<Party> = (1..=n)
        .map(|i| (Keygen::new(i, t, n).unwrap(), Dkg::new(i, t, n, Plain { t, n, fail_commitments, bad_proofs: false })))
        .collect();
    for _ in 0..6 {
        let mut sent = Vec::new();
        for (k, r) in parties.iter_mut() {
            if k.proceed(r).is_err() {
                return parties;
            }
            sent.extend(k.message_queue());
        }
        for m in sent {
            for (k, r) in parties.iter_mut() {
                let me = k.party_ind();
                if m.sender != me && (m.receiver.is_none() || m.receiver == Some(me)) {
                    k.handle_incoming(r, m.clone()).unwrap();
                }
            }
        }
    }
    parties
}

fn lagrange_at_zero(i: i64, xi: &BigInt, j: i64, xj: &BigInt) -> BigInt {
    let n = order();
    let inv = |v: i64| ((BigInt::from(v) % &n + &n) % &n).modinv(&n).unwrap();
    let li = BigInt::from(j) * inv(j - i);
    let lj = BigInt::from(i) * inv(i - j);
    ((li * xi + lj * xj) % &n + &n) % &n
}

#[test]
fn three_honest_parties_agree_on_the_group_key() {
    let mut parties = run(1, 3, false);
    let keys: Vec<LocalKey> = parties.iter_mut().map(|(k, _)| k.pick_output().unwrap().unwrap()).collect();
    // the secret is 1 + 2 + 3
    for (k, key) in keys.iter().enumerate() {
        assert_eq!(key.y_sum_s, point_of(6));
        assert_eq!(key.i as usize, k + 1);
        assert_eq!((key.t, key.n), (1, 3));
        assert_eq!(key.pk_vec, keys[0].pk_vec);
        assert_eq!(key.paillier_key_vec, vec![vec![1], vec![2], vec![3]]);
        assert_eq!(key.vss_scheme, vec![(k + 1) as u8, 2]);
        assert_eq!(key.paillier_dk, vec![(k + 1) as u8, 1]);
        assert_eq!(key.raw_key, vec![(k + 1) as u8, 3]);
        assert_eq!(key.u_i, scalar_bytes(&BigInt::from(k + 1)));
    }
    let x: Vec<BigInt> = keys.iter().map(|k| BigInt::from_bytes_be(Sign::Plus, &k.x_i)).collect();
    for (j, xj) in x.iter().enumerate() {
        assert_eq!(keys[0].pk_vec[j], point_of(6 + 60 * (j as u64 + 1)));
        assert_eq!(*xj, BigInt::from(6 + 60 * (j as u64 + 1)));
    }
    assert_eq!(lagrange_at_zero(1, &x[0], 2, &x[1]), BigInt::from(6));
    assert_eq!(lagrange_at_zero(1, &x[0], 3, &x[2]), BigInt::from(6));
    assert_eq!(lagrange_at_zero(2, &x[1], 3, &x[2]), BigInt::from(6));
}

#[test]
fn four_parties_with_threshold_two_finish() {
    let mut parties = run(2, 4, false);
    for (k, _) in parties.iter_mut() {
        let key = k.pick_output().unwrap().unwrap();
        assert_eq!(key.y_sum_s, point_of(10));
    }
}

#[test]
fn failed_check_ends_the_run_without_output() {
    let mut parties = run(1, 3, true);
    let (k, _) = &mut parties[0];
    assert!(!k.is_finished());
    assert_eq!(k.current_round(), 5);
    assert!(k.pick_output().unwrap().is_err());
}

fn party(i: u16, fail_commitments: bool) -> Party {
    (Keygen::new(i, 1, 3).unwrap(), Dkg::new(i, 1, 3, Plain { t: 1, n: 3, fail_commitments, bad_proofs: false }))
}

#[test]
fn output_is_taken_once() {
    let mut parties = run(1, 3, false);
    let (k, _) = &mut parties[1];
    assert!(k.is_finished());
    assert_eq!(k.current_round(), 5);
    assert!(k.pick_output().unwrap().is_ok());
    assert!(matches!(k.pick_output(), Some(Err(Error::DoublePickOutput))));
    assert!(!k.is_finished());
}

#[test]
fn message_for_a_later_round_is_out_of_order_and_changes_nothing() {
    let (mut k, mut r) = party(1, false);
    k.proceed(&mut r).unwrap();
    assert_eq!(k.current_round(), 1);
    let blame_before = k.round_blame();
    let proof = NoSmallFactorProof::prove(&nsf_setup(), &nsf_statement(), &NoSmallFactorWitness { p_: num(3), q_: num(1_000_000_007) }).unwrap();
    let body: Body = ProtocolMessage::M3((2, vec![1], proof));
    let err = k.handle_incoming(&mut r, Msg { round: 3, sender: 2, receiver: Some(1), body }).unwrap_err();
    assert!(matches!(err, Error::ReceivedOutOfOrderMessage { current_round: 1, msg_round: 3 }));
    assert!(!err.is_critical());
    assert_eq!(k.current_round(), 1);
    assert_eq!(k.round_blame(), blame_before);
    assert_eq!(k.round_blame(), (2, vec![2, 3]));
    assert!(!k.wants_to_proceed());
}

#[test]
fn body_of_another_round_is_out_of_order() {
    let (mut k, mut r) = party(1, false);
    k.proceed(&mut r).unwrap();
    let body: Body = ProtocolMessage::M2(2);
    let err = k.handle_incoming(&mut r, Msg { round: 1, sender: 2, receiver: None, body }).unwrap_err();
    assert!(matches!(err, Error::ReceivedOutOfOrderMessage { current_round: 1, msg_round: 2 }));
    assert_eq!(k.round_blame(), (2, vec![2, 3]));
}

#[test]
fn refused_message_reports_the_store_reason() {
    let (mut k, mut r) = party(1, false);
    k.proceed(&mut r).unwrap();
    k.handle_incoming(&mut r, Msg { round: 1, sender: 2, receiver: None, body: ProtocolMessage::M1(2) }).unwrap();
    let err = k.handle_incoming(&mut r, Msg { round: 1, sender: 2, receiver: None, body: ProtocolMessage::M1(2) }).unwrap_err();
    assert!(matches!(err, Error::HandleMessage(StoreErr::MsgOverwrite)));
    assert_eq!(k.round_blame(), (1, vec![3]));
}

#[test]
fn cheap_round_runs_as_soon_as_its_messages_are_in() {
    let (mut k, mut r) = party(1, false);
    k.proceed(&mut r).unwrap();
    assert_eq!(k.message_queue().len(), 1);
    k.handle_incoming(&mut r, Msg { round: 1, sender: 2, receiver: None, body: ProtocolMessage::M1(2) }).unwrap();
    assert_eq!(k.current_round(), 1);
    k.handle_incoming(&mut r, Msg { round: 1, sender: 3, receiver: None, body: ProtocolMessage::M1(3) }).unwrap();
    // round 1 only opens commitments, so it ran without an explicit proceed
    assert_eq!(k.current_round(), 2);
    let sent = k.message_queue();
    assert_eq!(sent.len(), 1);
    assert!(matches!(sent[0].body, ProtocolMessage::M2(1)));
}

#[test]
fn round_zero_message_is_out_of_order() {
    let (mut k, mut r) = party(1, false);
    let err = k.handle_incoming(&mut r, Msg { round: 1, sender: 2, receiver: None, body: ProtocolMessage::M1(2) }).unwrap_err();
    assert!(matches!(err, Error::ReceivedOutOfOrderMessage { current_round: 0, msg_round: 1 }));
    assert_eq!(k.round_blame(), (0, vec![]));
}

#[test]
fn expensive_round_waits_unless_blocking_is_allowed() {
    let (mut k, mut r) = party(1, false);
    k.proceed_round(&mut r, false).unwrap();
    assert_eq!(k.current_round(), 0);
    assert_eq!(k.message_queue().len(), 0);
    k.proceed_round(&mut r, true).unwrap();
    assert_eq!(k.current_round(), 1);
    assert_eq!(k.message_queue().len(), 1);
    assert_eq!(k.message_queue().len(), 0);
}

#[test]
fn failed_round_is_critical() {
    let mut parties = vec![party(1, true), party(2, true), party(3, true)];
    let mut first_err = None;
    for _ in 0..3 {
        let mut sent = Vec::new();
        for (k, r) in parties.iter_mut() {
            match k.proceed(r) {
                Ok(()) => sent.extend(k.message_queue()),
                Err(e) => {
                    if first_err.is_none() {
                        first_err = Some(e);
                    }
                }
            }
        }
        for m in sent {
            for (k, r) in parties.iter_mut() {
                let me = k.party_ind();
                if m.sender != me {
                    let _ = k.handle_incoming(r, m.clone());
                }
            }
        }
    }
    let err = first_err.unwrap();
    assert!(matches!(err, Error::ProceedRound(ProceedError::Round2VerifyCommitments(_))));
    assert!(err.is_critical());
    let (k, _) = &mut parties[0];
    assert!(!k.wants_to_proceed());
    assert!(k.pick_output().unwrap().is_err());
}

#[test]
fn step_refuses_a_round_out_of_turn() {
    let (_, mut r) = party(1, false);
    let res = r.step(2, vec![]);
    assert!(matches!(res, Err(ProceedError::MalformedRoundResult { round: 2 })));
}

#[test]
fn failed_no_small_factor_proof_ends_the_run() {
    let mut parties: Vec<Party> = (1..=3u16)
        .map(|i| (Keygen::new(i, 1, 3).unwrap(), Dkg::new(i, 1, 3, Plain { t: 1, n: 3, fail_commitments: false, bad_proofs: true })))
        .collect();
    let mut first_err = None;
    for _ in 0..4 {
        let mut sent = Vec::new();
        for (k, r) in parties.iter_mut() {
            match k.proceed(r) {
                Ok(()) => sent.extend(k.message_queue()),
                Err(e) => {
                    if first_err.is_none() {
                        first_err = Some(e);
                    }
                }
            }
        }
        for m in sent {
            for (k, r) in parties.iter_mut() {
                let me = k.party_ind();
                if m.sender != me && (m.receiver.is_none() || m.receiver == Some(me)) {
                    let _ = k.handle_incoming(r, m.clone());
                }
            }
        }
    }
    match first_err {
        Some(Error::ProceedRound(ProceedError::Round3VerifyVssConstruct(e))) => {
            assert_eq!(e.bad_actors.len(), 2);
        }
        other => panic!("unexpected: {:?}", other),
    }
}
