//! Non-hardened BIP32 public derivation of a tweak for a jointly held key.

use vstd::prelude::*;
use hmac::{Hmac, Mac, NewMac};
use sha2::Sha512;
use std::convert::TryInto;
use std::str::FromStr;
use bip32::secp256k1::elliptic_curve::sec1::ToEncodedPoint;

verus! {

/// Child numbers at or above this value are hardened.
pub const HARDENED_FLAG: u32 = 0x8000_0000;

/// Longest path that a depth byte can hold.
pub const MAX_DEPTH: usize = 255;

/// Order of the secp256k1 group.
pub open spec fn curve_order() -> int {
    let w: int = 0x1_0000_0000_0000_0000;
    ((0xFFFF_FFFF_FFFF_FFFF * w + 0xFFFF_FFFF_FFFF_FFFE) * w + 0xBAAE_DCE6_AF48_A03B) * w
        + 0xBFD2_5E8C_D036_4141
}

/// Big-endian value of a byte string.
pub open spec fn be_value(b: Seq<u8>) -> nat
    decreases b.len(),
{
    if b.len() == 0 {
        0
    } else {
        be_value(b.drop_last()) * 256 + b.last() as nat
    }
}

/// The last `len` bytes of the big-endian notation of `v`.
pub open spec fn be_bytes(v: nat, len: nat) -> Seq<u8>
    decreases len,
{
    if len == 0 {
        Seq::empty()
    } else {
        be_bytes(v / 256, (len - 1) as nat).push((v % 256) as u8)
    }
}

/// Bytes are the big-endian notation of their value.
pub proof fn lemma_be_bytes_of_value(b: Seq<u8>)
    ensures
        be_bytes(be_value(b), b.len()) == b,
    decreases b.len(),
{
    if b.len() > 0 {
        let init = b.drop_last();
        lemma_be_bytes_of_value(init);
        vstd::arithmetic::div_mod::lemma_fundamental_div_mod_converse(
            be_value(b) as int,
            256,
            be_value(init) as int,
            b.last() as int,
        );
        assert(be_bytes(be_value(b), b.len()) =~= b);
    }
}

/// Big-endian bytes of a child number.
pub open spec fn u32_be(c: u32) -> Seq<u8> {
    seq![
        (c / 0x100_0000) as u8,
        ((c / 0x1_0000) % 256) as u8,
        ((c / 0x100) % 256) as u8,
        (c % 256) as u8,
    ]
}

/// HMAC-SHA512 of `data` keyed by `key`.
pub uninterp spec fn hmac_sha512_of(key: Seq<u8>, data: Seq<u8>) -> Seq<u8>;

/// The compressed point `pk + tweak·G`, where `pk` is a compressed point and `tweak` a
/// non-zero scalar; `None` otherwise, or where the sum is the identity.
pub uninterp spec fn point_add_base_of(pk: Seq<u8>, tweak: Seq<u8>) -> Option<Seq<u8>>;

/// The compressed point `a + b` for compressed points `a` and `b`; `None` where either is no
/// point or the sum is the identity.
pub uninterp spec fn point_add_of(a: Seq<u8>, b: Seq<u8>) -> Option<Seq<u8>>;

/// The child numbers of a derivation path `m/i/j/...`, hardened ones with the high bit set.
pub uninterp spec fn derivation_path_of(s: Seq<char>) -> Option<Seq<u32>>;

/// Relies on hmac's `Hmac<Sha512>`, which takes a key of any length: the 64-byte HMAC.
#[verifier::external_body]
fn hmac_sha512(key: &[u8], data: &[u8]) -> (r: Vec<u8>)
    ensures
        r@ == hmac_sha512_of(key@, data@),
        r@.len() == 64,
{
    let mut mac = Hmac::<Sha512>::new_from_slice(key).unwrap();
    mac.update(data);
    mac.finalize().into_bytes().to_vec()
}

/// Relies on bip32's `PublicKey::from_bytes` and `PublicKey::derive_child` for secp256k1
/// verifying keys: decodes the compressed point and adds `tweak·G`. `derive_child` refuses a
/// tweak that is zero or not below the group order.
#[verifier::external_body]
pub(crate) fn public_key_add_tweak(pk: &[u8], tweak: &[u8]) -> (r: Option<Vec<u8>>)
    requires
        pk@.len() == 33,
        tweak@.len() == 32,
    ensures
        r.is_some() == point_add_base_of(pk@, tweak@).is_some(),
        r.is_some() ==> r.unwrap()@ == point_add_base_of(pk@, tweak@).unwrap(),
        r.is_some() ==> r.unwrap()@.len() == 33,
        r.is_some() ==> 0 < be_value(tweak@) < curve_order(),
{
    let bytes: [u8; 33] = pk.try_into().unwrap();
    let t: [u8; 32] = tweak.try_into().unwrap();
    let key = <bip32::secp256k1::ecdsa::VerifyingKey as bip32::PublicKey>::from_bytes(bytes).ok()?;
    let child = bip32::PublicKey::derive_child(&key, t).ok()?;
    Some(bip32::PublicKey::to_bytes(&child).to_vec())
}

/// Relies on k256's `PublicKey::from_sec1_bytes`, projective addition and
/// `PublicKey::from_affine` (which refuses the identity), re-exported by bip32: the sum of two
/// compressed points, compressed.
#[verifier::external_body]
pub(crate) fn public_key_add(a: &[u8], b: &[u8]) -> (r: Option<Vec<u8>>)
    ensures
        r.is_some() == point_add_of(a@, b@).is_some(),
        r.is_some() ==> r.unwrap()@ == point_add_of(a@, b@).unwrap(),
        r.is_some() ==> r.unwrap()@.len() == 33,
{
    let x = bip32::secp256k1::PublicKey::from_sec1_bytes(a).ok()?;
    let y = bip32::secp256k1::PublicKey::from_sec1_bytes(b).ok()?;
    let sum = bip32::secp256k1::AffinePoint::from(x.to_projective() + y.to_projective());
    let sum = bip32::secp256k1::PublicKey::from_affine(sum).ok()?;
    Some(sum.to_encoded_point(true).as_bytes().to_vec())
}

/// Relies on bip32's `DerivationPath::from_str`: the path's child numbers as integers.
#[verifier::external_body]
fn parse_derivation_path(s: &str) -> (r: Option<Vec<u32>>)
    ensures
        r.is_some() == derivation_path_of(s@).is_some(),
        r.is_some() ==> r.unwrap()@ == derivation_path_of(s@).unwrap(),
{
    let path = bip32::DerivationPath::from_str(s).ok()?;
    Some(path.iter().map(|c| c.0).collect())
}


/// Why a derivation was refused.
#[derive(Clone, Copy, Debug, PartialEq, Eq, Structural)]
pub enum HdError {
    /// The path text is no derivation path.
    Decode,
    /// A hardened child number: public derivation cannot reach it.
    ChildNumber,
    /// The path is longer than a depth byte can count.
    Depth,
    /// A tweak fell outside the group, or a key reached the identity.
    Crypto,
}

/// One level of public derivation from `pk` with chain code `cc`: the child key, the child
/// chain code and the tweak, or `None` where the tweak is refused.
pub open spec fn child_step(pk: Seq<u8>, cc: Seq<u8>, index: u32) -> Option<(Seq<u8>, Seq<u8>, Seq<u8>)> {
    let h = hmac_sha512_of(cc, pk + u32_be(index));
    let tweak = h.subrange(0, 32);
    match point_add_base_of(pk, tweak) {
        Some(child) => Some((child, h.subrange(32, 64), tweak)),
        None => None,
    }
}

/// Derivation along `path` at depth `depth`, with `acc` the running sum of the tweaks
/// (modulo the group order): the final sum and the final public key.
pub open spec fn derive_path(path: Seq<u32>, pk: Seq<u8>, cc: Seq<u8>, acc: nat, depth: nat) -> Result<(nat, Seq<u8>), HdError>
    decreases path.len(),
{
    if path.len() == 0 {
        Ok((acc, pk))
    } else if depth >= MAX_DEPTH {
        Err(HdError::Depth)
    } else if path[0] >= HARDENED_FLAG {
        Err(HdError::ChildNumber)
    } else {
        match child_step(pk, cc, path[0]) {
            None => Err(HdError::Crypto),
            Some((child, next_cc, tweak)) => {
                let sum = ((acc as int + be_value(tweak)) % curve_order()) as nat;
                derive_path(path.drop_first(), child, next_cc, sum, depth + 1)
            }
        }
    }
}

/// The net tweak, the sum of the tweaks of every level modulo the group order, and the child
/// public key for the child numbers `path`.
pub open spec fn hd_key_for(path: Seq<u32>, pk: Seq<u8>, cc: Seq<u8>) -> Result<(nat, Seq<u8>), HdError> {
    derive_path(path, pk, cc, 0, 0)
}

/// `hd_key_for` on the path written as text.
pub open spec fn hd_key_of(path_str: Seq<char>, pk: Seq<u8>, cc: Seq<u8>) -> Result<(nat, Seq<u8>), HdError> {
    match derivation_path_of(path_str) {
        None => Err(HdError::Decode),
        Some(path) => hd_key_for(path, pk, cc),
    }
}

proof fn lemma_be_value_zeros(b: Seq<u8>)
    requires
        forall|i: int| 0 <= i < b.len() ==> b[i] == 0,
    ensures
        be_value(b) == 0,
    decreases b.len(),
{
    if b.len() > 0 {
        lemma_be_value_zeros(b.drop_last());
    }
}

/// `curve_order()` as 32 big-endian bytes.
fn order_bytes() -> (r: Vec<u8>)
    ensures
        r@.len() == 32,
        be_value(r@) == curve_order(),
{
    let r: Vec<u8> = vec![
        0xFF, 0xFF, 0xFF, 0xFF, 0xFF, 0xFF, 0xFF, 0xFF, 0xFF, 0xFF, 0xFF, 0xFF, 0xFF, 0xFF, 0xFF, 0xFE,
        0xBA, 0xAE, 0xDC, 0xE6, 0xAF, 0x48, 0xA0, 0x3B, 0xBF, 0xD2, 0x5E, 0x8C, 0xD0, 0x36, 0x41, 0x41,
    ];
    assert(be_value(r@) == curve_order()) by {
        reveal_with_fuel(be_value, 33);
    }
    r
}

/// Whether `b` is a scalar of the group in 32 big-endian bytes.
pub fn is_scalar(b: &Vec<u8>) -> (r: bool)
    ensures
        r == (b@.len() == 32 && be_value(b@) < curve_order()),
{
    if b.len() != 32 {
        return false;
    }
    let order = order_bytes();
    crate::bignum::big_lt(&crate::bignum::big_from_bytes(b.as_slice()), &crate::bignum::big_from_bytes(order.as_slice()))
}

/// The scalar zero as 32 big-endian bytes.
pub(crate) fn scalar_zero() -> (r: Vec<u8>)
    ensures
        r@.len() == 32,
        be_value(r@) == 0,
{
    let mut r: Vec<u8> = Vec::new();
    while r.len() < 32
        invariant
            r@.len() <= 32,
            forall|i: int| 0 <= i < r@.len() ==> r@[i] == 0,
        decreases 32 - r.len(),
    {
        r.push(0);
    }
    proof {
        lemma_be_value_zeros(r@);
    }
    r
}

/// `256^k`.
pub open spec fn pow256(k: nat) -> nat
    decreases k,
{
    if k == 0 {
        1
    } else {
        256 * pow256((k - 1) as nat)
    }
}

proof fn lemma_mag_bytes_value(v: nat)
    ensures
        be_value(crate::bignum::mag_bytes(v)) == v,
    decreases v,
{
    let m = crate::bignum::mag_bytes(v);
    if v >= 256 {
        lemma_mag_bytes_value(v / 256);
        assert(m.drop_last() =~= crate::bignum::mag_bytes(v / 256));
        vstd::arithmetic::div_mod::lemma_fundamental_div_mod(v as int, 256);
        assert(m.last() as nat == v % 256);
        assert(be_value(m) == be_value(m.drop_last()) * 256 + m.last() as nat);
    } else {
        assert(m.drop_last() =~= Seq::<u8>::empty());
        assert(be_value(m) == be_value(m.drop_last()) * 256 + m.last() as nat);
    }
}

proof fn lemma_mag_bytes_len(v: nat, k: nat)
    requires
        k >= 1,
        v < pow256(k),
    ensures
        crate::bignum::mag_bytes(v).len() <= k,
    decreases v,
{
    if v >= 256 {
        if k == 1 {
            assert(pow256(1) == 256) by {
                reveal_with_fuel(pow256, 2);
            }
        } else {
            let p = pow256((k - 1) as nat);
            assert(v / 256 < p) by (nonlinear_arith)
                requires
                    v < 256 * p,
            ;
            lemma_mag_bytes_len(v / 256, (k - 1) as nat);
        }
    }
}

proof fn lemma_leading_zero(b: Seq<u8>)
    ensures
        be_value(seq![0u8] + b) == be_value(b),
    decreases b.len(),
{
    let z = seq![0u8] + b;
    if b.len() == 0 {
        assert(z.drop_last() =~= Seq::<u8>::empty());
        assert(be_value(z) == be_value(z.drop_last()) * 256 + z.last() as nat);
    } else {
        lemma_leading_zero(b.drop_last());
        assert(z.drop_last() =~= seq![0u8] + b.drop_last());
        assert(z.last() == b.last());
        assert(be_value(z) == be_value(z.drop_last()) * 256 + z.last() as nat);
        assert(be_value(b) == be_value(b.drop_last()) * 256 + b.last() as nat);
    }
}

/// The scalar `v` (below the group order) as 32 big-endian bytes.
fn scalar_bytes_of(v: &crate::bignum::BigNum) -> (r: Vec<u8>)
    requires
        0 <= v.value() < curve_order(),
    ensures
        r@.len() == 32,
        be_value(r@) == v.value(),
{
    let m = crate::bignum::big_to_bytes(v);
    proof {
        lemma_mag_bytes_value(v.value() as nat);
        assert(curve_order() < pow256(32)) by {
            reveal_with_fuel(pow256, 33);
        }
        lemma_mag_bytes_len(v.value() as nat, 32);
    }
    let mut r: Vec<u8> = m;
    while r.len() < 32
        invariant
            r@.len() <= 32,
            be_value(r@) == v.value(),
        decreases 32 - r@.len(),
    {
        let ghost before = r@;
        r.insert(0, 0u8);
        proof {
            assert(r@ =~= seq![0u8] + before);
            lemma_leading_zero(before);
        }
    }
    r
}

/// `(a + b) mod n` for scalars `a` and `b` in 32 big-endian bytes.
pub(crate) fn scalar_add_mod(a: &Vec<u8>, b: &Vec<u8>) -> (r: Vec<u8>)
    ensures
        r@.len() == 32,
        be_value(r@) == (be_value(a@) as int + be_value(b@)) % curve_order(),
{
    let order = crate::bignum::big_from_bytes(order_bytes().as_slice());
    let sum = crate::bignum::big_add(&crate::bignum::big_from_bytes(a.as_slice()), &crate::bignum::big_from_bytes(b.as_slice()));
    let reduced = crate::bignum::big_rem(&sum, &order);
    scalar_bytes_of(&reduced)
}

fn child_number_bytes(c: u32) -> (r: Vec<u8>)
    ensures
        r@ == u32_be(c),
{
    let r: Vec<u8> = vec![(c / 0x100_0000) as u8, ((c / 0x1_0000) % 256) as u8, ((c / 0x100) % 256) as u8, (c % 256) as u8];
    assert(r@ =~= u32_be(c));
    r
}

fn concat_bytes(a: &[u8], b: &[u8]) -> (r: Vec<u8>)
    ensures
        r@ == a@ + b@,
{
    let mut r: Vec<u8> = Vec::new();
    let mut i: usize = 0;
    while i < a.len()
        invariant
            i <= a@.len(),
            r@ == a@.subrange(0, i as int),
        decreases a@.len() - i,
    {
        r.push(a[i]);
        i = i + 1;
    }
    let mut j: usize = 0;
    while j < b.len()
        invariant
            j <= b@.len(),
            r@ == a@ + b@.subrange(0, j as int),
        decreases b@.len() - j,
    {
        r.push(b[j]);
        j = j + 1;
    }
    assert(a@.subrange(0, a@.len() as int) =~= a@);
    assert(b@.subrange(0, b@.len() as int) =~= b@);
    r
}

fn sub_bytes(a: &[u8], from: usize, to: usize) -> (r: Vec<u8>)
    requires
        from <= to <= a@.len(),
    ensures
        r@ == a@.subrange(from as int, to as int),
{
    let mut r: Vec<u8> = Vec::new();
    let mut i: usize = from;
    while i < to
        invariant
            from <= i <= to,
            to <= a@.len(),
            r@ == a@.subrange(from as int, i as int),
        decreases to - i,
    {
        r.push(a[i]);
        i = i + 1;
    }
    r
}

/// Derives the net tweak and the child public key for the child numbers `path` from the
/// compressed public key `par_pk` and the chain code `chain_code`.
pub fn derive_hd_key(path: &Vec<u32>, par_pk: &Vec<u8>, chain_code: &Vec<u8>) -> (r: Result<(Vec<u8>, Vec<u8>), HdError>)
    requires
        par_pk@.len() == 33,
        chain_code@.len() == 32,
    ensures
        match hd_key_for(path@, par_pk@, chain_code@) {
            Ok((tweak, child)) => r matches Ok((t, c)) && t@ == be_bytes(tweak, 32) && t@.len() == 32
                && be_value(t@) == tweak && tweak < curve_order() && c@ == child,
            Err(e) => r == Err::<(Vec<u8>, Vec<u8>), HdError>(e),
        },
{
    let mut pk: Vec<u8> = par_pk.clone();
    let mut cc: Vec<u8> = chain_code.clone();
    let mut acc: Vec<u8> = scalar_zero();
    let mut k: usize = 0;
    assert(path@.subrange(0, path@.len() as int) =~= path@);
    assert(pk@ =~= par_pk@);
    assert(cc@ =~= chain_code@);
    while k < path.len()
        invariant
            k <= path@.len(),
            pk@.len() == 33,
            cc@.len() == 32,
            acc@.len() == 32,
            be_value(acc@) < curve_order(),
            hd_key_for(path@, par_pk@, chain_code@)
                == derive_path(path@.subrange(k as int, path@.len() as int), pk@, cc@, be_value(acc@), k as nat),
        decreases path@.len() - k,
    {
        let ghost rest = path@.subrange(k as int, path@.len() as int);
        assert(rest.drop_first() =~= path@.subrange(k + 1, path@.len() as int));
        if k >= MAX_DEPTH {
            return Err(HdError::Depth);
        }
        let c = path[k];
        if c >= HARDENED_FLAG {
            return Err(HdError::ChildNumber);
        }
        let data = concat_bytes(pk.as_slice(), child_number_bytes(c).as_slice());
        let h = hmac_sha512(cc.as_slice(), data.as_slice());
        let tweak = sub_bytes(h.as_slice(), 0, 32);
        let next_cc = sub_bytes(h.as_slice(), 32, 64);
        let child = match public_key_add_tweak(pk.as_slice(), tweak.as_slice()) {
            Some(p) => p,
            None => {
                return Err(HdError::Crypto);
            },
        };
        let sum = scalar_add_mod(&acc, &tweak);
        proof {
            vstd::arithmetic::div_mod::lemma_mod_bound(be_value(acc@) as int + be_value(tweak@), curve_order());
        }
        pk = child;
        cc = next_cc;
        acc = sum;
        k = k + 1;
    }
    assert(path@.subrange(k as int, path@.len() as int) =~= Seq::<u32>::empty());
    let tweak = acc;
    proof {
        lemma_be_bytes_of_value(tweak@);
    }
    Ok((tweak, pk))
}

/// Derives the net tweak and the child public key for the path written `path_str`
/// (`m/i/j/...`) from the compressed public key `par_pk` and the chain code `chain_code`.
pub fn get_hd_key(path_str: &str, par_pk: &Vec<u8>, chain_code: &Vec<u8>) -> (r: Result<(Vec<u8>, Vec<u8>), HdError>)
    requires
        par_pk@.len() == 33,
        chain_code@.len() == 32,
    ensures
        match hd_key_of(path_str@, par_pk@, chain_code@) {
            Ok((tweak, child)) => r matches Ok((t, c)) && t@ == be_bytes(tweak, 32) && t@.len() == 32
                && be_value(t@) == tweak && tweak < curve_order() && c@ == child,
            Err(e) => r == Err::<(Vec<u8>, Vec<u8>), HdError>(e),
        },
{
    match parse_derivation_path(path_str) {
        None => Err(HdError::Decode),
        Some(path) => derive_hd_key(&path, par_pk, chain_code),
    }
}

} // verus!
