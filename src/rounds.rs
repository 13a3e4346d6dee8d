//! The five rounds of key generation. Each round takes the results of its cryptography as
//! arguments (commitments, checks, encrypted and decrypted shares, proofs) and decides what
//! is sent, what is kept, and which error ends the run.

use vstd::prelude::*;
use vstd::pervasive::cloned;
use crate::hd::{point_add_of, public_key_add};
use crate::keygen::{ErrorType, ProceedError, ProtocolMessage};
use crate::share::LocalKey;
use crate::store::{sender_of, Msg, MsgStore};

verus! {

/// A message body of key generation: a commitment `C`, a decommitment `D`, a commitment
/// vector `V` with an encrypted share and a proof `P`, or a proof of knowledge `L`.
pub type KeygenBody<C, D, V, P, L> = ProtocolMessage<C, D, (V, Vec<u8>, P), L>;

/// `v` with `me` put in place `i - 1`, among the other parties' entries.
pub open spec fn including_me<T>(v: Seq<T>, i: u16, me: T) -> Seq<T> {
    v.insert(i - 1, me)
}

/// The sum of the compressed points `ys`, added from the first on; `None` where a sum fails.
pub open spec fn point_sum(ys: Seq<Seq<u8>>) -> Option<Seq<u8>>
    decreases ys.len(),
{
    if ys.len() <= 1 {
        if ys.len() == 1 { Some(ys[0]) } else { None }
    } else {
        match point_sum(ys.drop_last()) {
            Some(a) => point_add_of(a, ys.last()),
            None => None,
        }
    }
}

/// Whether `m` is the share message of round 3 from `i` to `j`: the commitment vector, the
/// share encrypted for `j` and the proof for `j`.
pub open spec fn is_share_message<C, D, V: Clone, P: Clone, L>(
    m: Msg<KeygenBody<C, D, V, P, L>>,
    i: u16,
    j: int,
    vss: V,
    enc: Seq<u8>,
    proof: P,
) -> bool {
    &&& m.round == 3
    &&& m.sender == i
    &&& m.receiver == Some(j as u16)
    &&& m.body matches ProtocolMessage::M3((v, e, p)) && cloned(vss, v) && e@ == enc && cloned(proof, p)
}

/// Once a prefix fails to sum, every longer one does.
proof fn lemma_point_sum_stays_none(ys: Seq<Seq<u8>>, k: int)
    requires
        1 <= k <= ys.len(),
        point_sum(ys.subrange(0, k)) is None,
    ensures
        point_sum(ys) is None,
    decreases ys.len() - k,
{
    if k < ys.len() {
        assert(ys.subrange(0, k + 1).drop_last() =~= ys.subrange(0, k));
        lemma_point_sum_stays_none(ys, k + 1);
    } else {
        assert(ys.subrange(0, k) =~= ys);
    }
}

fn insert_me<T>(v: Vec<T>, i: u16, me: T) -> (r: Vec<T>)
    requires
        1 <= i <= v@.len() + 1,
    ensures
        r@ == including_me(v@, i, me),
{
    let mut v = v;
    v.insert((i - 1) as usize, me);
    v
}

/// Round 0: the party makes its keys and broadcasts its commitment.
pub struct Round0 {
    pub party_i: u16,
    pub t: u16,
    pub n: u16,
}

impl Round0 {
    pub open spec fn well_formed(&self) -> bool {
        1 <= self.t < self.n && 1 <= self.party_i <= self.n
    }

    /// With the party's fresh `keys`, its commitment `bc1` and the opening `decom1`:
    /// broadcasts the commitment as a message of round 1.
    pub fn proceed<K, C: Clone, D, V, P, L>(self, keys: K, bc1: C, decom1: D, output: &mut Vec<Msg<KeygenBody<C, D, V, P, L>>>) -> (r: Round1<K, C, D>)
        requires
            self.well_formed(),
        ensures
            final(output)@.len() == old(output)@.len() + 1,
            final(output)@.subrange(0, old(output)@.len() as int) == old(output)@,
            final(output)@.last().round == 1,
            final(output)@.last().sender == self.party_i,
            final(output)@.last().receiver is None,
            final(output)@.last().body matches ProtocolMessage::M1(c) && cloned(bc1, c),
            r.well_formed(),
            r.spec_party() == self.party_i && r.spec_parties() == self.n && r.spec_threshold() == self.t,
            r.spec_bc1() == bc1,
            r.spec_decom1() == decom1,
    {
        let body = bc1.clone();
        output.push(Msg { round: 1, sender: self.party_i, receiver: None, body: ProtocolMessage::M1(body) });
        assert(output@.subrange(0, output@.len() - 1) =~= old(output)@);
        Round1 { keys, bc1, decom1, party_i: self.party_i, t: self.t, n: self.n }
    }

    /// Making Paillier keys and their proofs is costly.
    pub fn is_expensive(&self) -> (r: bool)
        ensures
            r,
    {
        true
    }
}

/// Round 1: once every commitment is in, the party broadcasts its decommitment.
pub struct Round1<K, C, D> {
    keys: K,
    bc1: C,
    decom1: D,
    party_i: u16,
    t: u16,
    n: u16,
}

impl<K, C, D> Round1<K, C, D> {
    /// The party's index, the threshold and the number of parties.
    pub fn params(&self) -> (r: (u16, u16, u16))
        ensures
            r == (self.spec_party(), self.spec_threshold(), self.spec_parties()),
    {
        (self.party_i, self.t, self.n)
    }

    pub fn is_well_formed(&self) -> (r: bool)
        ensures
            r == self.well_formed(),
    {
        1 <= self.t && self.t < self.n && 1 <= self.party_i && self.party_i <= self.n
    }

    pub closed spec fn spec_party(&self) -> u16 {
        self.party_i
    }

    pub closed spec fn spec_threshold(&self) -> u16 {
        self.t
    }

    pub closed spec fn spec_parties(&self) -> u16 {
        self.n
    }

    pub closed spec fn spec_bc1(&self) -> C {
        self.bc1
    }

    pub closed spec fn spec_decom1(&self) -> D {
        self.decom1
    }

    pub open spec fn well_formed(&self) -> bool {
        1 <= self.spec_threshold() < self.spec_parties() && 1 <= self.spec_party() <= self.spec_parties()
    }

    /// Broadcasts the decommitment as a message of round 2, and keeps every party's
    /// commitment, its own put in its place among the other parties' `input`.
    pub fn proceed<V, P, L>(self, input: Vec<C>, output: &mut Vec<Msg<KeygenBody<C, D, V, P, L>>>) -> (r: Round2<K, C, D>)
        where
            D: Clone,
        requires
            self.well_formed(),
            input@.len() == self.spec_parties() - 1,
        ensures
            final(output)@.len() == old(output)@.len() + 1,
            final(output)@.subrange(0, old(output)@.len() as int) == old(output)@,
            final(output)@.last().round == 2,
            final(output)@.last().sender == self.spec_party(),
            final(output)@.last().receiver is None,
            final(output)@.last().body matches ProtocolMessage::M2(d) && cloned(self.spec_decom1(), d),
            r.well_formed(),
            r.spec_party() == self.spec_party(),
            r.spec_parties() == self.spec_parties(),
            r.spec_threshold() == self.spec_threshold(),
            r.spec_received_comm() == including_me(input@, self.spec_party(), self.spec_bc1()),
            r.spec_decom() == self.spec_decom1(),
    {
        let body = self.decom1.clone();
        output.push(Msg { round: 2, sender: self.party_i, receiver: None, body: ProtocolMessage::M2(body) });
        assert(output@.subrange(0, output@.len() - 1) =~= old(output)@);
        let received_comm = insert_me(input, self.party_i, self.bc1);
        Round2 { keys: self.keys, received_comm, decom: self.decom1, party_i: self.party_i, t: self.t, n: self.n }
    }

    /// Opening a commitment costs nothing worth deferring.
    pub fn is_expensive(&self) -> (r: bool)
        ensures
            !r,
    {
        false
    }

    /// The store for the commitments: one broadcast from each other party.
    pub fn expects_messages(i: u16, n: u16) -> (r: MsgStore<C>)
        requires
            1 <= i <= n,
        ensures
            r.well_formed(),
            !r.is_p2p(),
            r.owner() == i,
            r.slots().len() == n - 1,
    {
        MsgStore::new(false, i, n)
    }
}

/// Round 2: with every decommitment in, the party checks them, shares its secret and sends
/// each other party its encrypted share.
pub struct Round2<K, C, D> {
    keys: K,
    received_comm: Vec<C>,
    decom: D,
    party_i: u16,
    t: u16,
    n: u16,
}

impl<K, C, D> Round2<K, C, D> {
    /// The party's index, the threshold and the number of parties.
    pub fn params(&self) -> (r: (u16, u16, u16))
        ensures
            r == (self.spec_party(), self.spec_threshold(), self.spec_parties()),
    {
        (self.party_i, self.t, self.n)
    }

    pub fn is_well_formed(&self) -> (r: bool)
        ensures
            r == self.well_formed(),
    {
        1 <= self.t && self.t < self.n && 1 <= self.party_i && self.party_i <= self.n && self.received_comm.len() == self.n as usize
    }

    pub closed spec fn spec_party(&self) -> u16 {
        self.party_i
    }

    pub closed spec fn spec_threshold(&self) -> u16 {
        self.t
    }

    pub closed spec fn spec_parties(&self) -> u16 {
        self.n
    }

    pub closed spec fn spec_received_comm(&self) -> Seq<C> {
        self.received_comm@
    }

    pub closed spec fn spec_decom(&self) -> D {
        self.decom
    }

    pub open spec fn well_formed(&self) -> bool {
        &&& 1 <= self.spec_threshold() < self.spec_parties()
        &&& 1 <= self.spec_party() <= self.spec_parties()
        &&& self.spec_received_comm().len() == self.spec_parties()
    }

    pub fn keys(&self) -> (r: &K) {
        &self.keys
    }

    /// Every party's commitment, in party order.
    pub fn received_comm(&self) -> (r: &Vec<C>)
        ensures
            r@ == self.spec_received_comm(),
    {
        &self.received_comm
    }

    /// Every party's decommitment, its own put in its place among the other parties' `input`.
    pub fn received_decom(&self, input: Vec<D>) -> (r: Vec<D>)
        where
            D: Clone,
        requires
            self.well_formed(),
            input@.len() == self.spec_parties() - 1,
        ensures
            r@.len() == self.spec_parties(),
            forall|k: int| 0 <= k < r@.len() && k != self.spec_party() - 1 ==> r@[k] == #[trigger] including_me(input@, self.spec_party(), self.spec_decom())[k],
            cloned(self.spec_decom(), r@[self.spec_party() - 1]),
    {
        let me = self.decom.clone();
        insert_me(input, self.party_i, me)
    }

    /// With `checked` the result of checking the decommitments (the commitment vector, one
    /// share and one proof per party), `encrypted` each party's share encrypted for it, and
    /// `y_vec` every party's public contribution: on a failed check the error, with nothing
    /// sent; otherwise one message of round 3 to each other party `j`, in order, with the
    /// commitment vector, the share encrypted for `j` and the proof for `j`.
    pub fn proceed<V: Clone, S, P: Clone, L>(
        self,
        checked: Result<(V, Vec<S>, Vec<P>), ErrorType>,
        encrypted: Vec<Vec<u8>>,
        y_vec: Vec<Vec<u8>>,
        output: &mut Vec<Msg<KeygenBody<C, D, V, P, L>>>,
    ) -> (r: Result<Round3<K, C, V, S, P>, ProceedError>)
        requires
            self.well_formed(),
            encrypted@.len() == self.spec_parties(),
            y_vec@.len() == self.spec_parties(),
            checked matches Ok((v, shares, proofs)) ==> shares@.len() == self.spec_parties() && proofs@.len() == self.spec_parties(),
        ensures
            match checked {
                Err(e) => r matches Err(ProceedError::Round2VerifyCommitments(e2)) && e2 == e
                    && final(output)@ == old(output)@,
                Ok((vss, shares, proofs)) => {
                    &&& final(output)@.len() == old(output)@.len() + self.spec_parties() - 1
                    &&& final(output)@.subrange(0, old(output)@.len() as int) == old(output)@
                    &&& forall|k: int| 0 <= k < self.spec_parties() - 1 ==> {
                        let j = sender_of(k, self.spec_party() as int);
                        is_share_message(#[trigger] final(output)@[old(output)@.len() + k], self.spec_party(), j, vss,
                            encrypted@[j - 1]@, proofs@[j - 1])
                    }
                    &&& r matches Ok(r3) && r3.well_formed() && r3.spec_party() == self.spec_party()
                        && r3.spec_parties() == self.spec_parties() && r3.spec_threshold() == self.spec_threshold()
                        && r3.spec_own_vss() == vss && r3.spec_own_share() == shares@[self.spec_party() - 1]
                        && r3.spec_own_proof() == proofs@[self.spec_party() - 1]
                        && r3.spec_y_vec() == y_vec@ && r3.spec_bc_vec() == self.spec_received_comm()
                },
            },
    {
        let (vss, shares, proofs) = match checked {
            Err(e) => {
                return Err(ProceedError::Round2VerifyCommitments(e));
            },
            Ok(c) => c,
        };
        let i = self.party_i;
        let n = self.n;
        let ghost start = output@;
        let mut j: u32 = 1;
        while j <= n as u32
            invariant
                1 <= i <= n,
                1 <= j <= n + 1,
                encrypted@.len() == n,
                proofs@.len() == n,
                output@.len() == start.len() + (if j <= i { j - 1 } else { j - 2 }),
                output@.subrange(0, start.len() as int) == start,
                forall|k: int| 0 <= k < output@.len() - start.len() ==> {
                    let jj = sender_of(k, i as int);
                    is_share_message(#[trigger] output@[start.len() + k], i, jj, vss, encrypted@[jj - 1]@, proofs@[jj - 1])
                },
            decreases n + 1 - j,
        {
            if j != i as u32 {
                let k = (j - 1) as usize;
                let body = (vss.clone(), encrypted[k].clone(), proofs[k].clone());
                let ghost before = output@;
                output.push(Msg { round: 3, sender: i, receiver: Some(j as u16), body: ProtocolMessage::M3(body) });
                assert(output@.subrange(0, start.len() as int) =~= start) by {
                    assert(before.subrange(0, start.len() as int) == start);
                }
                assert forall|kk: int| 0 <= kk < output@.len() - start.len() implies {
                    let jj = sender_of(kk, i as int);
                    is_share_message(#[trigger] output@[start.len() + kk], i, jj, vss, encrypted@[jj - 1]@, proofs@[jj - 1])
                } by {
                    if kk < output@.len() - start.len() - 1 {
                        assert(output@[start.len() + kk] == before[start.len() + kk]);
                    }
                }
            }
            j = j + 1;
        }
        let own = (i - 1) as usize;
        let own_vss = vss;
        let mut shares = shares;
        let mut proofs = proofs;
        let own_share = shares.remove(own);
        let own_nsf_proof = proofs.remove(own);
        Ok(Round3 {
            keys: self.keys,
            y_vec,
            bc_vec: self.received_comm,
            own_vss,
            own_share,
            own_nsf_proof,
            party_i: i,
            t: self.t,
            n,
        })
    }

    /// Checking the openings and sharing the secret is costly.
    pub fn is_expensive(&self) -> (r: bool)
        ensures
            r,
    {
        true
    }

    /// The store for the decommitments: one broadcast from each other party.
    pub fn expects_messages(i: u16, n: u16) -> (r: MsgStore<D>)
        requires
            1 <= i <= n,
        ensures
            r.well_formed(),
            !r.is_p2p(),
            r.owner() == i,
            r.slots().len() == n - 1,
    {
        MsgStore::new(false, i, n)
    }
}

/// Round 3: with every share in, the party checks them against the commitment vectors and
/// the proofs, forms its linear share and publishes a proof of knowledge of it.
pub struct Round3<K, C, V, S, P> {
    keys: K,
    y_vec: Vec<Vec<u8>>,
    bc_vec: Vec<C>,
    own_vss: V,
    own_share: S,
    own_nsf_proof: P,
    party_i: u16,
    t: u16,
    n: u16,
}


impl<K, C, V, S, P> Round3<K, C, V, S, P> {
    /// The party's index, the threshold and the number of parties.
    pub fn params(&self) -> (r: (u16, u16, u16))
        ensures
            r == (self.spec_party(), self.spec_threshold(), self.spec_parties()),
    {
        (self.party_i, self.t, self.n)
    }

    pub fn is_well_formed(&self) -> (r: bool)
        ensures
            r == self.well_formed(),
    {
        1 <= self.t && self.t < self.n && 1 <= self.party_i && self.party_i <= self.n && self.y_vec.len() == self.n as usize
            && self.bc_vec.len() == self.n as usize
    }

    pub closed spec fn spec_party(&self) -> u16 {
        self.party_i
    }

    pub closed spec fn spec_threshold(&self) -> u16 {
        self.t
    }

    pub closed spec fn spec_parties(&self) -> u16 {
        self.n
    }

    pub closed spec fn spec_own_vss(&self) -> V {
        self.own_vss
    }

    pub closed spec fn spec_own_share(&self) -> S {
        self.own_share
    }

    pub closed spec fn spec_own_proof(&self) -> P {
        self.own_nsf_proof
    }

    pub closed spec fn spec_y_vec(&self) -> Seq<Vec<u8>> {
        self.y_vec@
    }

    pub closed spec fn spec_bc_vec(&self) -> Seq<C> {
        self.bc_vec@
    }

    pub open spec fn well_formed(&self) -> bool {
        &&& 1 <= self.spec_threshold() < self.spec_parties()
        &&& 1 <= self.spec_party() <= self.spec_parties()
        &&& self.spec_y_vec().len() == self.spec_parties()
        &&& self.spec_bc_vec().len() == self.spec_parties()
    }

    pub fn keys(&self) -> (r: &K) {
        &self.keys
    }

    pub fn y_vec(&self) -> (r: &Vec<Vec<u8>>)
        ensures
            r@ == self.spec_y_vec(),
    {
        &self.y_vec
    }

    pub fn bc_vec(&self) -> (r: &Vec<C>)
        ensures
            r@ == self.spec_bc_vec(),
    {
        &self.bc_vec
    }

    /// Every party's commitment vector, decrypted share and proof, in party order: the other
    /// parties' from `input` and `decrypted` (in sender order), this party's own in its place.
    pub fn including_me(&self, input: &Vec<(V, Vec<u8>, P)>, decrypted: Vec<S>) -> (r: (Vec<V>, Vec<S>, Vec<P>))
        where
            V: Clone,
            S: Clone,
            P: Clone,
        requires
            self.well_formed(),
            input@.len() == self.spec_parties() - 1,
            decrypted@.len() == self.spec_parties() - 1,
        ensures
            r.0@.len() == self.spec_parties() && r.1@.len() == self.spec_parties() && r.2@.len() == self.spec_parties(),
            forall|k: int| 0 <= k < self.spec_parties() - 1 ==> {
                let at = if k < self.spec_party() - 1 { k } else { k + 1 };
                &&& cloned((#[trigger] input@[k]).0, r.0@[at])
                &&& r.1@[at] == decrypted@[k]
                &&& cloned(input@[k].2, r.2@[at])
            },
            cloned(self.spec_own_vss(), r.0@[self.spec_party() - 1]),
            cloned(self.spec_own_share(), r.1@[self.spec_party() - 1]),
            cloned(self.spec_own_proof(), r.2@[self.spec_party() - 1]),
    {
        let mut vss: Vec<V> = Vec::new();
        let mut proofs: Vec<P> = Vec::new();
        let mut k: usize = 0;
        while k < input.len()
            invariant
                k <= input@.len(),
                vss@.len() == k,
                proofs@.len() == k,
                forall|j: int| 0 <= j < k ==> cloned((#[trigger] input@[j]).0, vss@[j]) && cloned(input@[j].2, proofs@[j]),
            decreases input@.len() - k,
        {
            let v = input[k].0.clone();
            let p = input[k].2.clone();
            vss.push(v);
            proofs.push(p);
            k = k + 1;
        }
        let own_vss = self.own_vss.clone();
        let own_share = self.own_share.clone();
        let own_proof = self.own_nsf_proof.clone();
        let vss = insert_me(vss, self.party_i, own_vss);
        let shares = insert_me(decrypted, self.party_i, own_share);
        let proofs = insert_me(proofs, self.party_i, own_proof);
        (vss, shares, proofs)
    }

    /// With `vss_vec` every party's commitment vector in party order and `checked` the result
    /// of checking the shares (the linear share and the proof of knowledge of it): on a failed
    /// check the error, with nothing sent; otherwise the proof broadcast as a message of round 4.
    pub fn proceed<D, SK, L: Clone>(
        self,
        vss_vec: Vec<V>,
        checked: Result<(SK, L), ErrorType>,
        output: &mut Vec<Msg<KeygenBody<C, D, V, P, L>>>,
    ) -> (r: Result<Round4<K, C, V, SK, L>, ProceedError>)
        requires
            self.well_formed(),
            vss_vec@.len() == self.spec_parties(),
        ensures
            match checked {
                Err(e) => r matches Err(ProceedError::Round3VerifyVssConstruct(e2)) && e2 == e
                    && final(output)@ == old(output)@,
                Ok((sk, proof)) => {
                    &&& final(output)@.len() == old(output)@.len() + 1
                    &&& final(output)@.subrange(0, old(output)@.len() as int) == old(output)@
                    &&& final(output)@.last().round == 4
                    &&& final(output)@.last().sender == self.spec_party()
                    &&& final(output)@.last().receiver is None
                    &&& final(output)@.last().body matches ProtocolMessage::M4(l) && cloned(proof, l)
                    &&& r matches Ok(r4) && r4.well_formed() && r4.spec_party() == self.spec_party()
                        && r4.spec_parties() == self.spec_parties() && r4.spec_threshold() == self.spec_threshold()
                        && r4.spec_y_vec() == self.spec_y_vec() && r4.spec_bc_vec() == self.spec_bc_vec()
                        && r4.spec_vss_vec() == vss_vec@ && r4.spec_shared_keys() == sk
                        && r4.spec_own_proof() == proof
                },
            },
    {
        let (shared_keys, dlog_proof) = match checked {
            Err(e) => {
                return Err(ProceedError::Round3VerifyVssConstruct(e));
            },
            Ok(c) => c,
        };
        let body = dlog_proof.clone();
        output.push(Msg { round: 4, sender: self.party_i, receiver: None, body: ProtocolMessage::M4(body) });
        assert(output@.subrange(0, output@.len() - 1) =~= old(output)@);
        Ok(Round4 {
            keys: self.keys,
            y_vec: self.y_vec,
            bc_vec: self.bc_vec,
            shared_keys,
            own_dlog_proof: dlog_proof,
            vss_vec,
            party_i: self.party_i,
            t: self.t,
            n: self.n,
        })
    }

    /// Decrypting and checking the shares is costly.
    pub fn is_expensive(&self) -> (r: bool)
        ensures
            r,
    {
        true
    }

    /// The store for the shares: one message addressed to this party from each other party.
    pub fn expects_messages<T>(i: u16, n: u16) -> (r: MsgStore<T>)
        requires
            1 <= i <= n,
        ensures
            r.well_formed(),
            r.is_p2p(),
            r.owner() == i,
            r.slots().len() == n - 1,
    {
        MsgStore::new(true, i, n)
    }
}

/// Round 4: with every proof of knowledge in, the party checks them and assembles its share.
pub struct Round4<K, C, V, SK, L> {
    keys: K,
    y_vec: Vec<Vec<u8>>,
    bc_vec: Vec<C>,
    shared_keys: SK,
    own_dlog_proof: L,
    vss_vec: Vec<V>,
    party_i: u16,
    t: u16,
    n: u16,
}

/// Whether the shapes handed to the last round fit a share of `n` parties.
pub open spec fn key_parts_fit(n: u16, x_i: Seq<u8>, pk_vec: Seq<Vec<u8>>, paillier_key_vec: Seq<Vec<u8>>, h1_h2_n_tilde_vec: Seq<Vec<u8>>) -> bool {
    &&& x_i.len() == 32
    &&& crate::hd::be_value(x_i) < crate::hd::curve_order()
    &&& pk_vec.len() == n
    &&& forall|j: int| 0 <= j < n ==> (#[trigger] pk_vec[j])@.len() == 33
    &&& paillier_key_vec.len() == n
    &&& h1_h2_n_tilde_vec.len() == n
}

impl<K, C, V, SK, L> Round4<K, C, V, SK, L> {
    /// The party's index, the threshold and the number of parties.
    pub fn params(&self) -> (r: (u16, u16, u16))
        ensures
            r == (self.spec_party(), self.spec_threshold(), self.spec_parties()),
    {
        (self.party_i, self.t, self.n)
    }

    pub fn is_well_formed(&self) -> (r: bool)
        ensures
            r == self.well_formed(),
    {
        1 <= self.t && self.t < self.n && 1 <= self.party_i && self.party_i <= self.n && self.y_vec.len() == self.n as usize
            && self.bc_vec.len() == self.n as usize && self.vss_vec.len() == self.n as usize
    }

    pub closed spec fn spec_party(&self) -> u16 {
        self.party_i
    }

    pub closed spec fn spec_threshold(&self) -> u16 {
        self.t
    }

    pub closed spec fn spec_parties(&self) -> u16 {
        self.n
    }

    pub closed spec fn spec_y_vec(&self) -> Seq<Vec<u8>> {
        self.y_vec@
    }

    pub closed spec fn spec_bc_vec(&self) -> Seq<C> {
        self.bc_vec@
    }

    pub closed spec fn spec_vss_vec(&self) -> Seq<V> {
        self.vss_vec@
    }

    pub closed spec fn spec_shared_keys(&self) -> SK {
        self.shared_keys
    }

    pub closed spec fn spec_own_proof(&self) -> L {
        self.own_dlog_proof
    }

    pub open spec fn well_formed(&self) -> bool {
        &&& 1 <= self.spec_threshold() < self.spec_parties()
        &&& 1 <= self.spec_party() <= self.spec_parties()
        &&& self.spec_y_vec().len() == self.spec_parties()
        &&& self.spec_bc_vec().len() == self.spec_parties()
        &&& self.spec_vss_vec().len() == self.spec_parties()
    }

    pub fn keys(&self) -> (r: &K) {
        &self.keys
    }

    pub fn shared_keys(&self) -> (r: &SK) {
        &self.shared_keys
    }

    pub fn y_vec(&self) -> (r: &Vec<Vec<u8>>)
        ensures
            r@ == self.spec_y_vec(),
    {
        &self.y_vec
    }

    pub fn bc_vec(&self) -> (r: &Vec<C>)
        ensures
            r@ == self.spec_bc_vec(),
    {
        &self.bc_vec
    }

    pub fn vss_vec(&self) -> (r: &Vec<V>)
        ensures
            r@ == self.spec_vss_vec(),
    {
        &self.vss_vec
    }

    /// Every party's proof of knowledge, its own put in its place among the others' `input`.
    pub fn dlog_proofs(&self, input: Vec<L>) -> (r: Vec<L>)
        where
            L: Clone,
        requires
            self.well_formed(),
            input@.len() == self.spec_parties() - 1,
        ensures
            r@.len() == self.spec_parties(),
            forall|k: int| 0 <= k < r@.len() && k != self.spec_party() - 1 ==> r@[k] == #[trigger] including_me(input@, self.spec_party(), self.spec_own_proof())[k],
            cloned(self.spec_own_proof(), r@[self.spec_party() - 1]),
    {
        let me = self.own_dlog_proof.clone();
        insert_me(input, self.party_i, me)
    }

    /// With `checked` the result of checking every proof of knowledge against the commitment
    /// vectors, and the share's parts as bytes (the secret contribution `u_i`, the encoding of
    /// this party's own keys, the linear share `x_i`, every party's public
    /// share from its proof, every party's Paillier key and Pedersen statement, this party's
    /// decryption key and commitment vector): on a failed check the error; where the parts do
    /// not fit, or the public contributions do not sum to a point, `MalformedRoundResult`;
    /// otherwise the share, with the sum of every party's public contribution as group key.
    pub fn proceed(
        self,
        checked: Result<(), ErrorType>,
        u_i: Vec<u8>,
        raw_key: Vec<u8>,
        x_i: Vec<u8>,
        pk_vec: Vec<Vec<u8>>,
        paillier_dk: Vec<u8>,
        paillier_key_vec: Vec<Vec<u8>>,
        h1_h2_n_tilde_vec: Vec<Vec<u8>>,
        vss_scheme: Vec<u8>,
    ) -> (r: Result<LocalKey, ProceedError>)
        requires
            self.well_formed(),
        ensures
            checked matches Err(e) ==> (r matches Err(ProceedError::Round4VerifyDLogProof(e2)) && e2 == e),
            checked is Ok ==> match point_sum(self.spec_y_vec().map_values(|y: Vec<u8>| y@)) {
                Some(y_sum) => if key_parts_fit(self.spec_parties(), x_i@, pk_vec@, paillier_key_vec@, h1_h2_n_tilde_vec@)
                    && y_sum.len() == 33 && u_i@.len() == 32 && crate::hd::be_value(u_i@) < crate::hd::curve_order() {
                    r matches Ok(k) && k.well_formed() && k.i == self.spec_party() && k.t == self.spec_threshold()
                        && k.n == self.spec_parties() && k.x_i@ == x_i@ && k.pk_vec@ == pk_vec@
                        && k.u_i@ == u_i@ && k.raw_key@ == raw_key@
                        && k.y_sum_s@ == y_sum && k.paillier_dk@ == paillier_dk@
                        && k.paillier_key_vec@ == paillier_key_vec@ && k.h1_h2_n_tilde_vec@ == h1_h2_n_tilde_vec@
                        && k.vss_scheme@ == vss_scheme@
                } else {
                    r == Err::<LocalKey, ProceedError>(ProceedError::MalformedRoundResult { round: 4 })
                },
                None => r == Err::<LocalKey, ProceedError>(ProceedError::MalformedRoundResult { round: 4 }),
            },
    {
        match checked {
            Err(e) => {
                return Err(ProceedError::Round4VerifyDLogProof(e));
            },
            Ok(()) => {},
        }
        let ghost ys = self.y_vec@.map_values(|y: Vec<u8>| y@);
        let mut y_sum: Vec<u8> = self.y_vec[0].clone();
        let mut k: usize = 1;
        assert(ys.subrange(0, 1) =~= seq![ys[0]]);
        while k < self.y_vec.len()
            invariant
                checked is Ok,
                self.well_formed(),
                ys == self.y_vec@.map_values(|y: Vec<u8>| y@),
                1 <= k <= self.y_vec@.len(),
                point_sum(ys.subrange(0, k as int)) == Some(y_sum@),
            decreases self.y_vec@.len() - k,
        {
            assert(ys.subrange(0, k + 1).drop_last() =~= ys.subrange(0, k as int));
            match public_key_add(y_sum.as_slice(), self.y_vec[k].as_slice()) {
                Some(sum) => {
                    y_sum = sum;
                },
                None => {
                    proof {
                        lemma_point_sum_stays_none(ys, (k + 1) as int);
                    }
                    return Err(ProceedError::MalformedRoundResult { round: 4 });
                },
            }
            k = k + 1;
        }
        assert(ys.subrange(0, ys.len() as int) =~= ys);
        if !crate::hd::is_scalar(&x_i) || !crate::hd::is_scalar(&u_i) || pk_vec.len() != self.n as usize || y_sum.len() != 33
            || paillier_key_vec.len() != self.n as usize || h1_h2_n_tilde_vec.len() != self.n as usize {
            return Err(ProceedError::MalformedRoundResult { round: 4 });
        }
        let mut j: usize = 0;
        while j < pk_vec.len()
            invariant
                checked is Ok,
                j <= pk_vec@.len(),
                forall|jj: int| 0 <= jj < j ==> (#[trigger] pk_vec@[jj])@.len() == 33,
            decreases pk_vec@.len() - j,
        {
            if pk_vec[j].len() != 33 {
                return Err(ProceedError::MalformedRoundResult { round: 4 });
            }
            j = j + 1;
        }
        Ok(LocalKey {
            u_i,
            raw_key,
            pk_vec,
            x_i,
            y_sum_s: y_sum,
            paillier_dk,
            paillier_key_vec,
            h1_h2_n_tilde_vec,
            vss_scheme,
            i: self.party_i,
            t: self.t,
            n: self.n,
        })
    }

    /// Checking every proof of knowledge is costly.
    pub fn is_expensive(&self) -> (r: bool)
        ensures
            r,
    {
        true
    }

    /// The store for the proofs of knowledge: one broadcast from each other party.
    pub fn expects_messages(i: u16, n: u16) -> (r: MsgStore<L>)
        requires
            1 <= i <= n,
        ensures
            r.well_formed(),
            !r.is_p2p(),
            r.owner() == i,
            r.slots().len() == n - 1,
    {
        MsgStore::new(false, i, n)
    }
}

} // verus!
