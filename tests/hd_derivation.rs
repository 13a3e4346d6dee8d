use multi_party_ecdsa::account::account_usage;
use multi_party_ecdsa::hd::{derive_hd_key, get_hd_key, HdError};
use multi_party_ecdsa::derive::Derive;
use multi_party_ecdsa::share::{call_hd_key, raw_share, LocalKey, HD_Account};
use num_bigint::{BigInt, Sign};

const ORDER_HEX: &str = "FFFFFFFFFFFFFFFFFFFFFFFFFFFFFFFEBAAEDCE6AF48A03BBFD25E8CD0364141";

fn order() -> BigInt {
    BigInt::parse_bytes(ORDER_HEX.as_bytes(), 16).unwrap()
}

fn scalar_bytes(v: &BigInt) -> Vec<u8> {
    let (_, mag) = v.to_bytes_be();
    let mut out = vec![0u8; 32 - mag.len()];
    out.extend(mag);
    out
}

fn scalar_value(b: &[u8]) -> BigInt {
    BigInt::from_bytes_be(Sign::Plus, b)
}

/// `v·G`, compressed, computed with the curve crate directly.
fn point_of(v: &BigInt) -> Vec<u8> {
    let sk = bip32::secp256k1::ecdsa::SigningKey::from_bytes(&scalar_bytes(v)).unwrap();
    bip32::PublicKey::to_bytes(&sk.verifying_key()).to_vec()
}

fn zero() -> Vec<u8> {
    vec![0u8; 32]
}

fn chain_code() -> Vec<u8> {
    (0u8..32).map(|i| i.wrapping_mul(7).wrapping_add(3)).collect()
}

fn generator() -> Vec<u8> {
    point_of(&BigInt::from(1))
}

#[test]
fn derivation_is_reproducible_and_moves_the_key() {
    let g = generator();
    let a = get_hd_key("m/44/0/0/0", &g, &chain_code()).unwrap();
    let b = get_hd_key("m/44/0/0/0", &g, &chain_code()).unwrap();
    assert_eq!(a, b);
    assert_eq!(a.0.len(), 32);
    assert_eq!(a.1.len(), 33);
    assert_ne!(a.1, g);
    assert_ne!(scalar_value(&a.0), BigInt::from(0));
    // the child key is the parent moved by the net tweak
    let expected = point_of(&((BigInt::from(1) + scalar_value(&a.0)) % order()));
    assert_eq!(a.1, expected);
}

#[test]
fn derivation_agrees_with_bip32_public_derivation() {
    let g = generator();
    let cc = chain_code();
    let (_, child) = get_hd_key("m/44/0", &g, &cc).unwrap();
    let attrs = bip32::ExtendedKeyAttrs {
        parent_fingerprint: [0u8; 4],
        child_number: bip32::ChildNumber(0),
        chain_code: cc.clone().try_into().unwrap(),
        depth: 0,
    };
    let key_bytes: [u8; 33] = g.clone().try_into().unwrap();
    let xpub = bip32::XPub::try_from(bip32::ExtendedKey { prefix: bip32::Prefix::XPUB, attrs, key_bytes }).unwrap();
    let expected = xpub.derive_child(bip32::ChildNumber(44)).unwrap().derive_child(bip32::ChildNumber(0)).unwrap();
    assert_eq!(child, expected.to_bytes().to_vec());
}

#[test]
fn other_paths_give_other_keys() {
    let g = generator();
    let a = get_hd_key("m/44/0/0/0", &g, &chain_code()).unwrap();
    let b = get_hd_key("m/44/0/0/1", &g, &chain_code()).unwrap();
    assert_ne!(a.1, b.1);
    assert_ne!(a.0, b.0);
}

#[test]
fn root_path_has_zero_tweak() {
    let g = generator();
    let (tweak, child) = get_hd_key("m", &g, &chain_code()).unwrap();
    assert_eq!(tweak, vec![0u8; 32]);
    assert_eq!(child, g);
    let (tweak, child) = derive_hd_key(&vec![], &g, &chain_code()).unwrap();
    assert_eq!(tweak, vec![0u8; 32]);
    assert_eq!(child, g);
}

#[test]
fn hardened_and_malformed_paths_are_refused() {
    let g = generator();
    assert_eq!(get_hd_key("m/44'/0", &g, &chain_code()), Err(HdError::ChildNumber));
    assert_eq!(derive_hd_key(&vec![1, 0x8000_0000], &g, &chain_code()), Err(HdError::ChildNumber));
    assert_eq!(get_hd_key("n/44/0", &g, &chain_code()), Err(HdError::Decode));
    assert_eq!(get_hd_key("m/x", &g, &chain_code()), Err(HdError::Decode));
}

#[test]
fn invalid_parent_key_is_refused() {
    let mut bad = generator();
    bad[0] = 5;
    assert_eq!(get_hd_key("m/1", &bad, &chain_code()), Err(HdError::Crypto));
}

#[test]
fn too_deep_path_is_refused() {
    let path: Vec<u32> = vec![0; 256];
    assert_eq!(derive_hd_key(&path, &generator(), &chain_code()), Err(HdError::Depth));
}

/// A (1, 3) sharing of `d` with the line `d + a·x`.
fn sharing(d: &BigInt, a: &BigInt) -> Vec<LocalKey> {
    let n = order();
    let shares: Vec<BigInt> = (1..=3).map(|i| (d + a * BigInt::from(i)) % &n).collect();
    let pk_vec: Vec<Vec<u8>> = shares.iter().map(point_of).collect();
    (1..=3u16)
        .map(|i| LocalKey {
            u_i: scalar_bytes(&BigInt::from(u64::from(i))),
            raw_key: vec![9],
            pk_vec: pk_vec.clone(),
            x_i: scalar_bytes(&shares[usize::from(i) - 1]),
            y_sum_s: point_of(d),
            paillier_dk: vec![1, 2, 3],
            paillier_key_vec: vec![vec![4]; 3],
            h1_h2_n_tilde_vec: vec![vec![5]; 3],
            vss_scheme: vec![6],
            i,
            t: 1,
            n: 3,
        })
        .collect()
}

fn modinv(v: &BigInt) -> BigInt {
    v.modinv(&order()).unwrap()
}

/// The secret at zero from the shares of parties `i` and `j`.
fn reconstruct(i: i64, xi: &BigInt, j: i64, xj: &BigInt) -> BigInt {
    let n = order();
    let li = (BigInt::from(j) * modinv(&((BigInt::from(j - i) % &n + &n) % &n))) % &n;
    let lj = (BigInt::from(i) * modinv(&((BigInt::from(i - j) % &n + &n) % &n))) % &n;
    ((li * xi + lj * xj) % &n + &n) % &n
}

#[test]
fn three_parties_derive_one_child_key_that_every_quorum_can_sign_for() {
    let d = BigInt::from(123456789u64);
    let keys = sharing(&d, &BigInt::from(987654321u64));
    let cc = chain_code();
    let accounts: Vec<HD_Account> = keys
        .iter()
        .map(|k| HD_Account::init(k, &cc, 0, 0, account_usage::Receive).unwrap())
        .collect();
    for a in &accounts {
        assert_eq!(a.path, "m/44/0/0/0");
        assert_eq!(a.local_key_hd.y_sum_s, accounts[0].local_key_hd.y_sum_s);
        assert_eq!(a.local_key_hd.pk_vec, accounts[0].local_key_hd.pk_vec);
    }
    let (tweak, child) = call_hd_key("m/44/0/0/0", &keys[0], &cc).unwrap();
    assert_eq!(accounts[0].local_key_hd.y_sum_s, child);
    let x: Vec<BigInt> = accounts.iter().map(|a| scalar_value(&a.local_key_hd.x_i)).collect();
    let d_child = reconstruct(1, &x[0], 2, &x[1]);
    assert_eq!(reconstruct(1, &x[0], 3, &x[2]), d_child);
    assert_eq!(reconstruct(2, &x[1], 3, &x[2]), d_child);
    assert_eq!(d_child, (&d + scalar_value(&tweak)) % order());
    assert_eq!(point_of(&d_child), child);
    for (k, a) in accounts.iter().enumerate() {
        assert_eq!(a.local_key_hd.pk_vec[k], point_of(&x[k]));
    }
}

#[test]
fn applying_a_tweak_twice_adds_it_twice() {
    let keys = sharing(&BigInt::from(5), &BigInt::from(7));
    let (tweak, child) = call_hd_key("m/44/0/0/0", &keys[0], &chain_code()).unwrap();
    let once = keys[0].update_hd_key(&zero(), &tweak, &child).unwrap();
    let twice = once.update_hd_key(&zero(), &tweak, &child).unwrap();
    assert_ne!(once.x_i, twice.x_i);
    let x0 = scalar_value(&keys[0].x_i);
    let d = scalar_value(&tweak);
    assert_eq!(scalar_value(&twice.x_i), (x0 + BigInt::from(2) * d) % order());
    assert_eq!(twice.public_key(), child);
}

#[test]
fn zero_tweak_keeps_the_share() {
    let keys = sharing(&BigInt::from(5), &BigInt::from(7));
    let y = keys[1].y_sum_s.clone();
    let same = keys[1].update_hd_key(&zero(), &vec![0u8; 32], &y).unwrap();
    assert_eq!(same.x_i, keys[1].x_i);
    assert_eq!(same.pk_vec, keys[1].pk_vec);
}

#[test]
fn tweak_moving_a_public_share_to_the_identity_is_refused() {
    // party 1's public share is x·G, and x + (n - x) is zero
    let keys = sharing(&BigInt::from(5), &BigInt::from(7));
    let x = scalar_value(&keys[0].x_i);
    let minus_x = scalar_bytes(&(order() - x));
    let y = keys[0].y_sum_s.clone();
    assert_eq!(keys[0].update_hd_key(&zero(), &minus_x, &y).err(), Some(HdError::Crypto));
}

#[test]
fn hd_update_keeps_keys_and_parameters() {
    let keys = sharing(&BigInt::from(5), &BigInt::from(7));
    let (tweak, child) = call_hd_key("m/1", &keys[2], &chain_code()).unwrap();
    let moved = keys[2].update_hd_key(&zero(), &tweak, &child).unwrap();
    assert_eq!(moved.paillier_dk, keys[2].paillier_dk);
    assert_eq!(moved.paillier_key_vec, keys[2].paillier_key_vec);
    assert_eq!(moved.h1_h2_n_tilde_vec, keys[2].h1_h2_n_tilde_vec);
    assert_eq!(moved.vss_scheme, keys[2].vss_scheme);
    assert_eq!((moved.i, moved.t, moved.n), (3, 1, 3));
}

#[test]
fn derive_round_matches_account_derivation() {
    let keys = sharing(&BigInt::from(11), &BigInt::from(13));
    let cc = chain_code();
    let share = raw_share { local_key_hd: keys[2].clone(), chain_code: cc.clone() };
    let derive = Derive::new(3, 5, account_usage::Change, share);
    let (tweak, child) = derive.proceed().unwrap();
    let (t2, c2) = call_hd_key("m/44/0/5/1", &keys[2], &cc).unwrap();
    assert_eq!(tweak, t2);
    assert_eq!(child, c2);
}

#[test]
fn private_update_adds_to_the_secret_share_only() {
    let keys = sharing(&BigInt::from(5), &BigInt::from(7));
    let f = scalar_bytes(&BigInt::from(100));
    let moved = keys[0].update_private_key(&zero(), &f);
    assert_eq!(scalar_value(&moved.x_i), scalar_value(&keys[0].x_i) + BigInt::from(100));
    assert_eq!(moved.pk_vec, keys[0].pk_vec);
    assert_eq!(moved.y_sum_s, keys[0].y_sum_s);
    assert_eq!(moved.paillier_key_vec, keys[0].paillier_key_vec);
    assert_eq!(moved.h1_h2_n_tilde_vec, keys[0].h1_h2_n_tilde_vec);
    let wrap = scalar_bytes(&(order() - scalar_value(&keys[0].x_i)));
    assert_eq!(keys[0].update_private_key(&zero(), &wrap).x_i, vec![0u8; 32]);
}
