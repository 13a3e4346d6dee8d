//! Key generation as rounds for the state machine: each round asks the cryptography for its
//! results and lets the round decide what is sent and kept.

use vstd::prelude::*;
use vstd::pervasive::cloned;
use crate::keygen::{run_result, ErrorType, KeygenRounds, ProceedError, ProtocolMessage, RoundRun};
use crate::rounds::{KeygenBody, Round0, Round1, Round2, Round3, Round4};
use crate::share::LocalKey;
use crate::nsf::{NoSmallFactorProof, NoSmallFactorSetUp, NoSmallFactorStatement};
use vstd::string::StringExecFns;
use crate::store::Msg;

verus! {

/// The cryptography of key generation: keys, commitments, verifiable sharing, Paillier
/// encryption and proofs. `K` is a party's keys, `C` a commitment, `D` its opening, `V` a
/// commitment vector, `S` a share, `P` a no-small-factor proof, `SK` a linear share with its
/// public key and `L` a proof of knowledge.
pub trait KeygenCrypto<K, C, D, V, S, P, SK, L> {
    /// Fresh keys of party `party_i`, its commitment and the opening.
    fn create_keys(&mut self, party_i: u16) -> (K, C, D);

    /// Checks every party's opening against its commitment and proofs, and shares this
    /// party's secret: the commitment vector, one share and one proof per party.
    fn verify_commitments(&mut self, keys: &K, t: u16, n: u16, decoms: &Vec<D>, comms: &Vec<C>) -> Result<(V, Vec<S>, Vec<P>), ErrorType>;

    /// `share` encrypted under the Paillier key in `comm`.
    fn encrypt_share(&mut self, comm: &C, share: &S) -> Vec<u8>;

    /// The compressed public contribution `y_i` that an opening reveals.
    fn public_share(&self, decom: &D) -> Vec<u8>;

    /// The setup and statement that the no-small-factor proof of the sender of `comm` is
    /// checked against by the holder of `keys`.
    fn nsf_instance(&self, keys: &K, comm: &C) -> (NoSmallFactorSetUp, NoSmallFactorStatement);

    /// An encrypted share decrypted with this party's key.
    fn decrypt_share(&self, keys: &K, encrypted: &Vec<u8>) -> S;

    /// Checks every share against its commitment vector and proof, and forms the linear share
    /// with a proof of knowledge of it.
    fn verify_shares(
        &mut self,
        keys: &K,
        t: u16,
        n: u16,
        y_vec: &Vec<Vec<u8>>,
        shares: &Vec<S>,
        vss: &Vec<V>,
        proofs: &Vec<P>,
        comms: &Vec<C>,
        party_i: u16,
    ) -> Result<(SK, L), ErrorType>;

    /// Checks every proof of knowledge against the commitment vectors.
    fn verify_dlog_proofs(&self, t: u16, n: u16, proofs: &Vec<L>, y_vec: &Vec<Vec<u8>>, vss: &Vec<V>) -> Result<(), ErrorType>;

    /// The party's secret contribution `u_i` as 32 big-endian bytes.
    fn secret_contribution(&self, keys: &K) -> Vec<u8>;

    /// The encoding of the party's own keys: its Paillier keypair and Pedersen setup.
    fn keys_bytes(&self, keys: &K) -> Vec<u8>;

    /// The linear share as 32 big-endian bytes.
    fn linear_share(&self, sk: &SK) -> Vec<u8>;

    /// The compressed public key that a proof of knowledge is about.
    fn proof_key(&self, proof: &L) -> Vec<u8>;

    /// The encoding of the Paillier key in a commitment.
    fn paillier_key(&self, comm: &C) -> Vec<u8>;

    /// The encoding of the Pedersen statement in a commitment.
    fn dlog_statement(&self, comm: &C) -> Vec<u8>;

    /// The encoding of this party's Paillier decryption key.
    fn decryption_key(&self, keys: &K) -> Vec<u8>;

    /// The encoding of a commitment vector.
    fn vss_bytes(&self, vss: &V) -> Vec<u8>;
}

/// The round a party's key generation is at.
pub enum DkgState<K, C, D, V, S, P, SK, L> {
    R0(Round0),
    R1(Round1<K, C, D>),
    R2(Round2<K, C, D>),
    R3(Round3<K, C, V, S, P>),
    R4(Round4<K, C, V, SK, L>),
    Done,
}

/// One party's key generation, over the cryptography `X`. Its no-small-factor proofs are
/// checked here, with `NoSmallFactorProof::verify`.
pub struct Dkg<K, C, D, V, S, P, SK, L, X> {
    state: DkgState<K, C, D, V, S, P, SK, L>,
    crypto: X,
    runs: Ghost<Seq<RoundRun<KeygenBody<C, D, V, P, L>, LocalKey>>>,
}

/// Whether every body is a commitment, the body of round 1.
pub open spec fn all_commitments<C, D, V, P, L>(bodies: Seq<KeygenBody<C, D, V, P, L>>) -> bool {
    forall|k: int| 0 <= k < bodies.len() ==> (#[trigger] bodies[k]) is M1
}

/// The round a state runs next, if any.
pub open spec fn state_round<K, C, D, V, S, P, SK, L>(state: DkgState<K, C, D, V, S, P, SK, L>) -> Option<u16> {
    match state {
        DkgState::R0(_) => Some(0),
        DkgState::R1(_) => Some(1),
        DkgState::R2(_) => Some(2),
        DkgState::R3(_) => Some(3),
        DkgState::R4(_) => Some(4),
        DkgState::Done => None,
    }
}

fn m1_bodies<C, D, V, P, L>(bodies: Vec<KeygenBody<C, D, V, P, L>>) -> (r: Option<Vec<C>>)
    ensures
        r is Some <==> all_commitments(bodies@),
        r matches Some(v) ==> v@.len() == bodies@.len(),
{
    let ghost orig = bodies@;
    let mut input = bodies;
    let mut out: Vec<C> = Vec::new();
    while input.len() > 0
        invariant
            out@.len() + input@.len() == orig.len(),
            input@ == orig.subrange(out@.len() as int, orig.len() as int),
            forall|k: int| 0 <= k < out@.len() ==> (#[trigger] orig[k]) is M1,
            orig == bodies@,
        decreases input@.len(),
    {
        let ghost at = out@.len() as int;
        assert(orig[at] == input@[0]);
        match input.remove(0) {
            ProtocolMessage::M1(c) => {
                out.push(c);
                assert(input@ =~= orig.subrange(out@.len() as int, orig.len() as int));
            },
            _ => {
                assert(!(orig[at] is M1));
                assert(!all_commitments(orig));
                return None;
            },
        }
    }
    Some(out)
}

fn m2_bodies<C, D, V, P, L>(input: Vec<KeygenBody<C, D, V, P, L>>) -> (r: Option<Vec<D>>)
    ensures
        r matches Some(v) ==> v@.len() == input@.len(),
{
    let ghost total = input@.len();
    let mut input = input;
    let mut out: Vec<D> = Vec::new();
    while input.len() > 0
        invariant
            out@.len() + input@.len() == total,
        decreases input@.len(),
    {
        match input.remove(0) {
            ProtocolMessage::M2(d) => out.push(d),
            _ => {
                return None;
            },
        }
    }
    Some(out)
}

fn m3_bodies<C, D, V, P, L>(input: Vec<KeygenBody<C, D, V, P, L>>) -> (r: Option<Vec<(V, Vec<u8>, P)>>)
    ensures
        r matches Some(v) ==> v@.len() == input@.len(),
{
    let ghost total = input@.len();
    let mut input = input;
    let mut out: Vec<(V, Vec<u8>, P)> = Vec::new();
    while input.len() > 0
        invariant
            out@.len() + input@.len() == total,
        decreases input@.len(),
    {
        match input.remove(0) {
            ProtocolMessage::M3(m) => out.push(m),
            _ => {
                return None;
            },
        }
    }
    Some(out)
}

fn m4_bodies<C, D, V, P, L>(input: Vec<KeygenBody<C, D, V, P, L>>) -> (r: Option<Vec<L>>)
    ensures
        r matches Some(v) ==> v@.len() == input@.len(),
{
    let ghost total = input@.len();
    let mut input = input;
    let mut out: Vec<L> = Vec::new();
    while input.len() > 0
        invariant
            out@.len() + input@.len() == total,
        decreases input@.len(),
    {
        match input.remove(0) {
            ProtocolMessage::M4(l) => out.push(l),
            _ => {
                return None;
            },
        }
    }
    Some(out)
}

impl<K, C, D, V, S, P, SK, L, X> Dkg<K, C, D, V, S, P, SK, L, X> {
    /// Key generation of party `i` out of `n` with threshold `t`, at its first round.
    pub fn new(i: u16, t: u16, n: u16, crypto: X) -> (r: Self)
        ensures
            r.spec_state() == DkgState::<K, C, D, V, S, P, SK, L>::R0(Round0 { party_i: i, t, n }),
    {
        Dkg { state: DkgState::R0(Round0 { party_i: i, t, n }), crypto, runs: Ghost(Seq::empty()) }
    }

    pub closed spec fn spec_state(&self) -> DkgState<K, C, D, V, S, P, SK, L> {
        self.state
    }

    /// The rounds run so far.
    pub closed spec fn spec_log(&self) -> Seq<RoundRun<KeygenBody<C, D, V, P, L>, LocalKey>> {
        self.runs@
    }
}

impl<K, C: Clone, D: Clone, V: Clone, S: Clone, SK, L: Clone, X: KeygenCrypto<K, C, D, V, S, NoSmallFactorProof, SK, L>> Dkg<K, C, D, V, S, NoSmallFactorProof, SK, L, X> {
    /// Runs round `round` on the other parties' bodies: a round other than the one the state
    /// is at is refused; round 1, which needs no cryptography, broadcasts the decommitment once
    /// every body is one of the `n - 1` commitments; only round 4 hands back a share.
    pub fn step(&mut self, round: u16, input: Vec<KeygenBody<C, D, V, NoSmallFactorProof, L>>) -> (r: Result<(Vec<Msg<KeygenBody<C, D, V, NoSmallFactorProof, L>>>, Option<LocalKey>), ProceedError>)
        ensures
            state_round(old(self).spec_state()) != Some(round) ==> (r matches Err(ProceedError::MalformedRoundResult { round: rr }) && rr == round),
            match old(self).spec_state() {
                DkgState::R1(r1) => (round == 1 && r1.well_formed() && all_commitments(input@)
                    && input@.len() == r1.spec_parties() - 1) ==> (r matches Ok((msgs, None))
                    && msgs@.len() == 1 && msgs@[0].round == 2 && msgs@[0].sender == r1.spec_party()
                    && msgs@[0].receiver is None
                    && (msgs@[0].body matches ProtocolMessage::M2(d) && cloned(r1.spec_decom1(), d))
                    && final(self).spec_state() is R2),
                _ => true,
            },
            r matches Ok((_, Some(_))) ==> round == 4,
    {
        let malformed = ProceedError::MalformedRoundResult { round };
        let mut state = DkgState::Done;
        std::mem::swap(&mut state, &mut self.state);
        let mut out: Vec<Msg<KeygenBody<C, D, V, NoSmallFactorProof, L>>> = Vec::new();
        match state {
            DkgState::R0(r) => {
                if round != 0 || !(1 <= r.t && r.t < r.n && 1 <= r.party_i && r.party_i <= r.n) {
                    return Err(malformed);
                }
                let (keys, bc1, decom1) = self.crypto.create_keys(r.party_i);
                let next = r.proceed(keys, bc1, decom1, &mut out);
                self.state = DkgState::R1(next);
                Ok((out, None))
            },
            DkgState::R1(r) => {
                let (_i, _t, n) = r.params();
                if round != 1 || !r.is_well_formed() {
                    return Err(malformed);
                }
                let comms = match m1_bodies(input) {
                    Some(v) => v,
                    None => {
                        return Err(malformed);
                    },
                };
                if comms.len() != (n - 1) as usize {
                    return Err(malformed);
                }
                let next = r.proceed(comms, &mut out);
                self.state = DkgState::R2(next);
                Ok((out, None))
            },
            DkgState::R2(r) => {
                let (_i, t, n) = r.params();
                if round != 2 || !r.is_well_formed() {
                    return Err(malformed);
                }
                let decoms = match m2_bodies(input) {
                    Some(v) => v,
                    None => {
                        return Err(malformed);
                    },
                };
                if decoms.len() != (n - 1) as usize {
                    return Err(malformed);
                }
                let decoms = r.received_decom(decoms);
                let checked = self.crypto.verify_commitments(r.keys(), t, n, &decoms, r.received_comm());
                let mut encrypted: Vec<Vec<u8>> = Vec::new();
                if let Ok((_vss, shares, proofs)) = &checked {
                    if shares.len() != n as usize || proofs.len() != n as usize {
                        return Err(malformed);
                    }
                    let comms = r.received_comm();
                    let mut j: usize = 0;
                    while j < n as usize
                        invariant
                            j <= n,
                            encrypted@.len() == j,
                            shares@.len() == n,
                            comms@.len() == n,
                        decreases n - j,
                    {
                        let e = self.crypto.encrypt_share(&comms[j], &shares[j]);
                        encrypted.push(e);
                        j = j + 1;
                    }
                } else {
                    while encrypted.len() < n as usize
                        invariant
                            encrypted@.len() <= n,
                        decreases n - encrypted@.len(),
                    {
                        encrypted.push(Vec::new());
                    }
                }
                let mut y_vec: Vec<Vec<u8>> = Vec::new();
                let mut j: usize = 0;
                while j < decoms.len()
                    invariant
                        j <= decoms@.len(),
                        y_vec@.len() == j,
                    decreases decoms@.len() - j,
                {
                    y_vec.push(self.crypto.public_share(&decoms[j]));
                    j = j + 1;
                }
                let next = r.proceed(checked, encrypted, y_vec, &mut out)?;
                self.state = DkgState::R3(next);
                Ok((out, None))
            },
            DkgState::R3(r) => {
                let (i, t, n) = r.params();
                if round != 3 || !r.is_well_formed() {
                    return Err(malformed);
                }
                let triples = match m3_bodies(input) {
                    Some(v) => v,
                    None => {
                        return Err(malformed);
                    },
                };
                if triples.len() != (n - 1) as usize {
                    return Err(malformed);
                }
                let mut decrypted: Vec<S> = Vec::new();
                let mut j: usize = 0;
                while j < triples.len()
                    invariant
                        j <= triples@.len(),
                        decrypted@.len() == j,
                    decreases triples@.len() - j,
                {
                    decrypted.push(self.crypto.decrypt_share(r.keys(), &triples[j].1));
                    j = j + 1;
                }
                let mut bad_actors: Vec<usize> = Vec::new();
                let mut k: usize = 0;
                while k < triples.len()
                    invariant
                        k <= triples@.len(),
                        triples@.len() == n - 1,
                        r.well_formed(),
                        r.spec_party() == i,
                        r.spec_parties() == n,
                    decreases triples@.len() - k,
                {
                    let sender: u16 = if k < (i - 1) as usize {
                        (k + 1) as u16
                    } else {
                        (k + 2) as u16
                    };
                    let comm = &r.bc_vec()[(sender - 1) as usize];
                    let (setup, statement) = self.crypto.nsf_instance(r.keys(), comm);
                    if !triples[k].2.verify(&setup, &statement) {
                        bad_actors.push(sender as usize);
                    }
                    k = k + 1;
                }
                if bad_actors.len() > 0 {
                    let error_type = String::from_str("no small factor proof");
                    return Err(ProceedError::Round3VerifyVssConstruct(ErrorType { error_type, bad_actors }));
                }
                let (vss, shares, proofs) = r.including_me(&triples, decrypted);
                let checked = self.crypto.verify_shares(r.keys(), t, n, r.y_vec(), &shares, &vss, &proofs, r.bc_vec(), i);
                let next = r.proceed(vss, checked, &mut out)?;
                self.state = DkgState::R4(next);
                Ok((out, None))
            },
            DkgState::R4(r) => {
                let (i, t, n) = r.params();
                if round != 4 || !r.is_well_formed() {
                    return Err(malformed);
                }
                let proofs = match m4_bodies(input) {
                    Some(v) => v,
                    None => {
                        return Err(malformed);
                    },
                };
                if proofs.len() != (n - 1) as usize {
                    return Err(malformed);
                }
                let proofs = r.dlog_proofs(proofs);
                let checked = self.crypto.verify_dlog_proofs(t, n, &proofs, r.y_vec(), r.vss_vec());
                let x_i = self.crypto.linear_share(r.shared_keys());
                let mut pk_vec: Vec<Vec<u8>> = Vec::new();
                let mut j: usize = 0;
                while j < proofs.len()
                    invariant
                        j <= proofs@.len(),
                        pk_vec@.len() == j,
                    decreases proofs@.len() - j,
                {
                    pk_vec.push(self.crypto.proof_key(&proofs[j]));
                    j = j + 1;
                }
                let comms = r.bc_vec();
                let mut paillier_key_vec: Vec<Vec<u8>> = Vec::new();
                let mut h1_h2_n_tilde_vec: Vec<Vec<u8>> = Vec::new();
                let mut j: usize = 0;
                while j < comms.len()
                    invariant
                        j <= comms@.len(),
                        paillier_key_vec@.len() == j,
                        h1_h2_n_tilde_vec@.len() == j,
                    decreases comms@.len() - j,
                {
                    paillier_key_vec.push(self.crypto.paillier_key(&comms[j]));
                    h1_h2_n_tilde_vec.push(self.crypto.dlog_statement(&comms[j]));
                    j = j + 1;
                }
                let paillier_dk = self.crypto.decryption_key(r.keys());
                let vss_scheme = self.crypto.vss_bytes(&r.vss_vec()[(i - 1) as usize]);
                let u_i = self.crypto.secret_contribution(r.keys());
                let raw_key = self.crypto.keys_bytes(r.keys());
                let key = r.proceed(checked, u_i, raw_key, x_i, pk_vec, paillier_dk, paillier_key_vec, h1_h2_n_tilde_vec, vss_scheme)?;
                Ok((out, Some(key)))
            },
            DkgState::Done => Err(malformed),
        }
        }
}


impl<K, C: Clone, D: Clone, V: Clone, S: Clone, SK, L: Clone, X: KeygenCrypto<K, C, D, V, S, NoSmallFactorProof, SK, L>>
    KeygenRounds<KeygenBody<C, D, V, NoSmallFactorProof, L>, LocalKey> for Dkg<K, C, D, V, S, NoSmallFactorProof, SK, L, X> {
    /// Every round but the one that only opens commitments is costly.
    open spec fn spec_is_expensive(&self, round: u16) -> bool {
        round != 1
    }

    open spec fn spec_body_round(&self, body: &KeygenBody<C, D, V, NoSmallFactorProof, L>) -> u16 {
        body.spec_round_id()
    }

    fn body_round(&self, body: &KeygenBody<C, D, V, NoSmallFactorProof, L>) -> (r: u16) {
        body.round_id()
    }

    closed spec fn spec_runs(&self) -> Seq<RoundRun<KeygenBody<C, D, V, NoSmallFactorProof, L>, LocalKey>> {
        self.runs@
    }

    fn is_expensive(&self, round: u16) -> (r: bool) {
        round != 1
    }

    fn proceed(&mut self, round: u16, input: Vec<KeygenBody<C, D, V, NoSmallFactorProof, L>>) -> (r: Result<(Vec<Msg<KeygenBody<C, D, V, NoSmallFactorProof, L>>>, Option<LocalKey>), ProceedError>) {
        let ghost in0 = input@;
        let ghost log0 = self.runs@;
        let r = self.step(round, input);
        self.runs = Ghost(log0.push((round, in0, run_result(r))));
        r
    }
}

} // verus!
