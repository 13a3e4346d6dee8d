//! A party's key share and the local application of a derivation tweak to it.

use vstd::prelude::*;
use crate::account::{account_path, account_usage, bip44_path};
use crate::hd::{be_bytes, be_value, curve_order, point_add_base_of, scalar_add_mod, public_key_add_tweak, HdError, get_hd_key, hd_key_of};

verus! {

/// What a party keeps after key generation, as plain values: its own secret contribution
/// `u_i` (32 big-endian bytes) and the encoding of the rest of its own keys (its Paillier
/// keypair and Pedersen setup with their factors), its linear secret share
/// `x_i` (32 big-endian bytes), the compressed public share of every party, the compressed
/// group public key, its Paillier decryption key, every party's Paillier encryption key and
/// Pedersen statement, its commitment vector (these four in their encodings), its index and
/// the threshold parameters.
#[derive(Clone, Debug)]
pub struct LocalKey {
    pub u_i: Vec<u8>,
    pub raw_key: Vec<u8>,
    pub pk_vec: Vec<Vec<u8>>,
    pub x_i: Vec<u8>,
    pub y_sum_s: Vec<u8>,
    pub paillier_dk: Vec<u8>,
    pub paillier_key_vec: Vec<Vec<u8>>,
    pub h1_h2_n_tilde_vec: Vec<Vec<u8>>,
    pub vss_scheme: Vec<u8>,
    pub i: u16,
    pub t: u16,
    pub n: u16,
}

impl LocalKey {
    /// The shapes the share's fields must have.
    pub open spec fn well_formed(&self) -> bool {
        &&& 1 <= self.t < self.n
        &&& 1 <= self.i <= self.n
        &&& self.pk_vec@.len() == self.n
        &&& forall|j: int| 0 <= j < self.pk_vec@.len() ==> (#[trigger] self.pk_vec@[j])@.len() == 33
        &&& self.x_i@.len() == 32
        &&& be_value(self.x_i@) < curve_order()
        &&& self.u_i@.len() == 32
        &&& be_value(self.u_i@) < curve_order()
        &&& self.y_sum_s@.len() == 33
        &&& self.paillier_key_vec@.len() == self.n
        &&& self.h1_h2_n_tilde_vec@.len() == self.n
    }

    /// Public key of the secret shared between the parties.
    pub fn public_key(&self) -> (r: Vec<u8>)
        ensures
            r@ == self.y_sum_s@,
    {
        self.y_sum_s.clone()
    }
}

/// A share moved by the tweak `d`: `x + d` modulo the group order.
pub open spec fn tweaked_scalar(x: nat, d: nat) -> nat {
    ((x as int + d) % curve_order()) as nat
}

/// A public share moved by the tweak `d`: `p + d·G`, and `p` itself for a zero tweak.
pub open spec fn tweaked_point(p: Seq<u8>, d: Seq<u8>) -> Option<Seq<u8>> {
    if be_value(d) == 0 {
        Some(p)
    } else {
        point_add_base_of(p, d)
    }
}

/// Whether the tweak `d` can be applied to `key`: every moved public share is a point.
pub open spec fn tweak_applies(key: &LocalKey, d: Seq<u8>) -> bool {
    be_value(d) == 0 || forall|j: int| 0 <= j < key.pk_vec@.len() ==> point_add_base_of(#[trigger] key.pk_vec@[j]@, d).is_some()
}

proof fn lemma_be_value_zero_iff(b: Seq<u8>)
    ensures
        be_value(b) == 0 <==> forall|i: int| 0 <= i < b.len() ==> b[i] == 0,
    decreases b.len(),
{
    if b.len() > 0 {
        lemma_be_value_zero_iff(b.drop_last());
        if be_value(b) == 0 {
            assert forall|i: int| 0 <= i < b.len() implies b[i] == 0 by {
                if i < b.len() - 1 {
                    assert(b[i] == b.drop_last()[i]);
                }
            }
        }
        if forall|i: int| 0 <= i < b.len() ==> b[i] == 0 {
            assert forall|i: int| 0 <= i < b.drop_last().len() implies b.drop_last()[i] == 0 by {
                assert(b[i] == 0);
            }
        }
    }
}

/// Whether `b` is the zero scalar.
pub fn is_zero_scalar(b: &Vec<u8>) -> (r: bool)
    ensures
        r == (be_value(b@) == 0),
{
    proof {
        lemma_be_value_zero_iff(b@);
    }
    let mut i: usize = 0;
    while i < b.len()
        invariant
            i <= b@.len(),
            forall|k: int| 0 <= k < i ==> b@[k] == 0,
        decreases b@.len() - i,
    {
        if b[i] != 0 {
            assert(b@[i as int] != 0);
            assert(!(forall|k: int| 0 <= k < b@.len() ==> b@[k] == 0));
            proof {
                lemma_be_value_zero_iff(b@);
            }
            assert(be_value(b@) != 0);
            return false;
        }
        i = i + 1;
    }
    true
}

/// Whether the rows of `a` and `b` hold the same bytes.
pub open spec fn same_rows(a: Seq<Vec<u8>>, b: Seq<Vec<u8>>) -> bool {
    a.len() == b.len() && forall|k: int| 0 <= k < a.len() ==> (#[trigger] a[k])@ == b[k]@
}

/// Whether `a` and `b` agree on everything but the secret contribution, the linear share,
/// the public shares and the group key.
pub open spec fn same_keys_and_params(a: &LocalKey, b: &LocalKey) -> bool {
    &&& a.raw_key@ == b.raw_key@
    &&& a.paillier_dk@ == b.paillier_dk@
    &&& same_rows(a.paillier_key_vec@, b.paillier_key_vec@)
    &&& same_rows(a.h1_h2_n_tilde_vec@, b.h1_h2_n_tilde_vec@)
    &&& a.vss_scheme@ == b.vss_scheme@
    &&& a.i == b.i && a.t == b.t && a.n == b.n
}

fn copy_rows(v: &Vec<Vec<u8>>) -> (r: Vec<Vec<u8>>)
    ensures
        same_rows(r@, v@),
{
    let mut r: Vec<Vec<u8>> = Vec::new();
    let mut k: usize = 0;
    while k < v.len()
        invariant
            k <= v@.len(),
            r@.len() == k,
            forall|j: int| 0 <= j < k ==> (#[trigger] r@[j])@ == v@[j]@,
        decreases v@.len() - k,
    {
        let row = v[k].clone();
        assert(row@ =~= v@[k as int]@);
        r.push(row);
        k = k + 1;
    }
    r
}

fn copy_bytes(v: &Vec<u8>) -> (r: Vec<u8>)
    ensures
        r@ == v@,
{
    let r = v.clone();
    assert(r@ =~= v@);
    r
}

impl LocalKey {
    /// Adds `factor_u_i` to the secret contribution and `f` to the linear secret share, modulo
    /// the group order, and keeps everything else.
    pub fn update_private_key(&self, factor_u_i: &Vec<u8>, f: &Vec<u8>) -> (r: LocalKey)
        requires
            self.well_formed(),
            factor_u_i@.len() == 32,
            be_value(factor_u_i@) < curve_order(),
            f@.len() == 32,
            be_value(f@) < curve_order(),
        ensures
            r.well_formed(),
            be_value(r.u_i@) == tweaked_scalar(be_value(self.u_i@), be_value(factor_u_i@)),
            be_value(r.x_i@) == tweaked_scalar(be_value(self.x_i@), be_value(f@)),
            same_rows(r.pk_vec@, self.pk_vec@),
            r.y_sum_s@ == self.y_sum_s@,
            same_keys_and_params(&r, self),
    {
        let x_i = scalar_add_mod(&self.x_i, f);
        let u_i = scalar_add_mod(&self.u_i, factor_u_i);
        proof {
            vstd::arithmetic::div_mod::lemma_mod_bound(be_value(self.x_i@) as int + be_value(f@), curve_order());
            vstd::arithmetic::div_mod::lemma_mod_bound(be_value(self.u_i@) as int + be_value(factor_u_i@), curve_order());
        }
        LocalKey {
            u_i,
            raw_key: copy_bytes(&self.raw_key),
            pk_vec: copy_rows(&self.pk_vec),
            x_i,
            y_sum_s: copy_bytes(&self.y_sum_s),
            paillier_dk: copy_bytes(&self.paillier_dk),
            paillier_key_vec: copy_rows(&self.paillier_key_vec),
            h1_h2_n_tilde_vec: copy_rows(&self.h1_h2_n_tilde_vec),
            vss_scheme: copy_bytes(&self.vss_scheme),
            i: self.i,
            t: self.t,
            n: self.n,
        }
    }

    /// Moves the share to the child key of the tweak `d` (32 big-endian bytes): adds `d` to
    /// the linear secret share, `d·G` to every public share, and takes `y_sum` as the group
    /// public key. The same tweak on every party's share moves the shared secret by `d`. A
    /// public share that would become the identity cannot be held, and fails the call.
    pub fn update_hd_key(&self, factor_u_i: &Vec<u8>, d: &Vec<u8>, y_sum: &Vec<u8>) -> (r: Result<LocalKey, HdError>)
        requires
            self.well_formed(),
            factor_u_i@.len() == 32,
            be_value(factor_u_i@) < curve_order(),
            d@.len() == 32,
            be_value(d@) < curve_order(),
            y_sum@.len() == 33,
        ensures
            r is Err <==> !tweak_applies(self, d@),
            r is Err ==> r == Err::<LocalKey, HdError>(HdError::Crypto),
            r matches Ok(k) ==> {
                &&& k.well_formed()
                &&& be_value(k.u_i@) == tweaked_scalar(be_value(self.u_i@), be_value(factor_u_i@))
                &&& be_value(k.x_i@) == tweaked_scalar(be_value(self.x_i@), be_value(d@))
                &&& forall|j: int| 0 <= j < k.pk_vec@.len() ==>
                    Some(#[trigger] k.pk_vec@[j]@) == tweaked_point(self.pk_vec@[j]@, d@)
                &&& k.y_sum_s@ == y_sum@
                &&& same_keys_and_params(&k, self)
            },
    {
        let zero = is_zero_scalar(d);
        let mut pk_vec: Vec<Vec<u8>> = Vec::new();
        let mut j: usize = 0;
        while j < self.pk_vec.len()
            invariant
                self.well_formed(),
                j <= self.pk_vec@.len(),
                d@.len() == 32,
                zero == (be_value(d@) == 0),
                pk_vec@.len() == j,
                forall|k: int| 0 <= k < j ==> tweaked_point(self.pk_vec@[k]@, d@) == Some((#[trigger] pk_vec@[k])@),
                forall|k: int| 0 <= k < j ==> (#[trigger] pk_vec@[k])@.len() == 33,
            decreases self.pk_vec@.len() - j,
        {
            assert(self.pk_vec@[j as int]@.len() == 33);
            if zero {
                pk_vec.push(copy_bytes(&self.pk_vec[j]));
            } else {
                match public_key_add_tweak(self.pk_vec[j].as_slice(), d.as_slice()) {
                    Some(p) => {
                        pk_vec.push(p);
                    },
                    None => {
                        return Err(HdError::Crypto);
                    },
                }
            }
            j = j + 1;
        }
        assert forall|k: int| 0 <= k < self.pk_vec@.len() && be_value(d@) != 0 implies point_add_base_of(
            #[trigger] self.pk_vec@[k]@,
            d@,
        ).is_some() by {
            assert(tweaked_point(self.pk_vec@[k]@, d@) == Some(pk_vec@[k]@));
        }
        let x_i = scalar_add_mod(&self.x_i, d);
        let u_i = scalar_add_mod(&self.u_i, factor_u_i);
        proof {
            vstd::arithmetic::div_mod::lemma_mod_bound(be_value(self.x_i@) as int + be_value(d@), curve_order());
            vstd::arithmetic::div_mod::lemma_mod_bound(be_value(self.u_i@) as int + be_value(factor_u_i@), curve_order());
        }
        Ok(LocalKey {
            u_i,
            raw_key: copy_bytes(&self.raw_key),
            pk_vec,
            x_i,
            y_sum_s: copy_bytes(y_sum),
            paillier_dk: copy_bytes(&self.paillier_dk),
            paillier_key_vec: copy_rows(&self.paillier_key_vec),
            h1_h2_n_tilde_vec: copy_rows(&self.h1_h2_n_tilde_vec),
            vss_scheme: copy_bytes(&self.vss_scheme),
            i: self.i,
            t: self.t,
            n: self.n,
        })
    }
}

/// A share moved to a child key, with the net tweak and the child public key that moved it.
#[allow(non_camel_case_types)]
#[derive(Clone, Debug)]
pub struct LocalKey_HD {
    pub local_key: LocalKey,
    pub tweak_sk: Vec<u8>,
    pub y_sum: Vec<u8>,
}

/// A share as it is stored for the signing stage: the key share with its chain code.
#[allow(non_camel_case_types)]
#[derive(Clone, Debug)]
pub struct raw_share {
    pub local_key_hd: LocalKey,
    pub chain_code: Vec<u8>,
}

/// Derives, from the group public key of `local_share`, the net tweak and the child public
/// key for the path written `path_str`.
pub fn call_hd_key(path_str: &str, local_share: &LocalKey, chain_code: &Vec<u8>) -> (r: Result<(Vec<u8>, Vec<u8>), HdError>)
    requires
        local_share.well_formed(),
        chain_code@.len() == 32,
    ensures
        match hd_key_of(path_str@, local_share.y_sum_s@, chain_code@) {
            Ok((tweak, child)) => r matches Ok((t, c)) && t@ == be_bytes(tweak, 32) && t@.len() == 32
                && be_value(t@) == tweak && tweak < curve_order() && c@ == child,
            Err(e) => r == Err::<(Vec<u8>, Vec<u8>), HdError>(e),
        },
{
    get_hd_key(path_str, &local_share.y_sum_s, chain_code)
}

/// A share moved to the child key of one BIP44 account.
#[allow(non_camel_case_types)]
#[derive(Clone, Debug)]
pub struct HD_Account {
    pub local_key_hd: LocalKey,
    pub chain_code: Vec<u8>,
    pub index: u32,
    pub path: String,
}

impl HD_Account {
    /// Derives the account `m/44/<coin_type>/<index>/<usage>` of `local_key`: the net tweak
    /// and child key come from the group public key and `chain_code`, and the share is moved
    /// by that tweak, with the child key as its group public key.
    pub fn init(local_key: &LocalKey, chain_code: &Vec<u8>, coin_type: u32, index: u32, usage: account_usage) -> (r: Result<Self, HdError>)
        requires
            local_key.well_formed(),
            chain_code@.len() == 32,
        ensures
            ({
                let path = bip44_path(coin_type as nat, index as nat, usage.spec_num() as nat);
                match hd_key_of(path, local_key.y_sum_s@, chain_code@) {
                    Err(e) => r == Err::<Self, HdError>(e),
                    Ok((tweak, child)) => match r {
                        Err(e) => e == HdError::Crypto && (child.len() != 33
                            || !tweak_applies(local_key, be_bytes(tweak, 32))),
                        Ok(a) => {
                            &&& a.path@ == path
                            &&& a.index == index
                            &&& a.chain_code@ == chain_code@
                            &&& a.local_key_hd.well_formed()
                            &&& be_value(a.local_key_hd.x_i@) == tweaked_scalar(be_value(local_key.x_i@), tweak)
                            &&& forall|j: int| 0 <= j < a.local_key_hd.pk_vec@.len() ==>
                                Some(#[trigger] a.local_key_hd.pk_vec@[j]@)
                                    == tweaked_point(local_key.pk_vec@[j]@, be_bytes(tweak, 32))
                            &&& a.local_key_hd.y_sum_s@ == child
                            &&& be_value(a.local_key_hd.u_i@) == be_value(local_key.u_i@)
                            &&& same_keys_and_params(&a.local_key_hd, local_key)
                        },
                    },
                }
            }),
    {
        let path = account_path::init(coin_type, index, usage);
        let path_str = path.get_path_string_bip44();
        let (tweak_sk, y_sum) = match call_hd_key(path_str.as_str(), local_key, chain_code) {
            Ok(k) => k,
            Err(e) => {
                return Err(e);
            },
        };
        if y_sum.len() != 33 {
            return Err(HdError::Crypto);
        }
        let zero = crate::hd::scalar_zero();
        proof {
            vstd::arithmetic::div_mod::lemma_small_mod(be_value(local_key.u_i@), curve_order() as nat);
        }
        let local_key_hd = match local_key.update_hd_key(&zero, &tweak_sk, &y_sum) {
            Ok(k) => k,
            Err(e) => {
                return Err(e);
            },
        };
        Ok(HD_Account { local_key_hd, chain_code: chain_code.clone(), index, path: path_str })
    }
}

} // verus!
