//! Properties of the derivation tweak that relate several calls.

use vstd::prelude::*;
use vstd::arithmetic::div_mod::{lemma_add_mod_noop, lemma_mul_mod_noop_right, lemma_fundamental_div_mod, lemma_small_mod};
use vstd::arithmetic::mul::lemma_mul_is_distributive_add;
use crate::hd::{be_bytes, curve_order, hd_key_of, HdError};
use crate::share::tweaked_scalar;
use crate::rounds::point_sum;

verus! {

/// Applying a non-zero tweak `d` twice to a share adds `2·d`, and the second application
/// changes the share again: applying a tweak is not idempotent.
pub proof fn lemma_tweak_twice_adds_twice(x: nat, d: nat)
    requires
        x < curve_order(),
        0 < d < curve_order(),
    ensures
        tweaked_scalar(tweaked_scalar(x, d), d) == (x + 2 * d as int) % curve_order(),
        tweaked_scalar(tweaked_scalar(x, d), d) != tweaked_scalar(x, d),
{
    let n = curve_order();
    lemma_small_mod(d, n as nat);
    lemma_add_mod_noop((x + d) as int, d as int, n);
    let a: int = x as int + 2 * d;
    let b: int = x as int + d;
    lemma_fundamental_div_mod(a, n);
    lemma_fundamental_div_mod(b, n);
    if a % n == b % n {
        let k = a / n - b / n;
        assert(d == n * k) by (nonlinear_arith)
            requires
                a == n * (a / n) + a % n,
                b == n * (b / n) + b % n,
                a % n == b % n,
                a - b == d,
                k == a / n - b / n,
        ;
        assert(false) by (nonlinear_arith)
            requires
                d == n * k,
                0 < d < n,
        ;
    }
}

/// What a derivation hands back, with the tweak as 32 big-endian bytes.
pub open spec fn hd_key_result(path_str: Seq<char>, pk: Seq<u8>, cc: Seq<u8>) -> Result<(Seq<u8>, Seq<u8>), HdError> {
    match hd_key_of(path_str, pk, cc) {
        Ok((tweak, child)) => Ok((be_bytes(tweak, 32), child)),
        Err(e) => Err(e),
    }
}

/// Deriving one path twice from one group key and chain code gives the same tweak and the
/// same child public key, byte for byte.
pub proof fn lemma_derivation_reproducible(
    path_str: Seq<char>,
    pk: Seq<u8>,
    cc: Seq<u8>,
    first: Result<(Seq<u8>, Seq<u8>), HdError>,
    second: Result<(Seq<u8>, Seq<u8>), HdError>,
)
    requires
        first == hd_key_result(path_str, pk, cc),
        second == hd_key_result(path_str, pk, cc),
    ensures
        first == second,
{
}

/// `Σ w[k]·x[k]`.
pub open spec fn weighted_sum(w: Seq<int>, x: Seq<int>) -> int
    decreases w.len(),
{
    if w.len() == 0 || x.len() == 0 {
        0
    } else {
        weighted_sum(w.drop_last(), x.drop_last()) + w.last() * x.last()
    }
}

/// `Σ w[k]`.
pub open spec fn sum_of(w: Seq<int>) -> int
    decreases w.len(),
{
    if w.len() == 0 {
        0
    } else {
        sum_of(w.drop_last()) + w.last()
    }
}

/// Every share moved by the tweak `d`, modulo the group order.
pub open spec fn tweak_all(x: Seq<int>, d: int) -> Seq<int> {
    Seq::new(x.len(), |k: int| (x[k] + d) % curve_order())
}

proof fn lemma_weighted_sum_shift(w: Seq<int>, x: Seq<int>, d: int)
    requires
        w.len() == x.len(),
    ensures
        weighted_sum(w, tweak_all(x, d)) % curve_order() == (weighted_sum(w, x) + d * sum_of(w)) % curve_order(),
    decreases w.len(),
{
    let n = curve_order();
    if w.len() > 0 {
        let w0 = w.drop_last();
        let x0 = x.drop_last();
        assert(tweak_all(x, d).drop_last() =~= tweak_all(x0, d));
        lemma_weighted_sum_shift(w0, x0, d);
        let a = weighted_sum(w0, tweak_all(x0, d));
        let b = weighted_sum(w0, x0) + d * sum_of(w0);
        let wl = w.last();
        let xl = x.last();
        // a ≡ b, and wl·((xl + d) mod n) ≡ wl·(xl + d)
        lemma_mul_mod_noop_right(wl, xl + d, n);
        lemma_add_mod_noop(a, wl * ((xl + d) % n), n);
        lemma_add_mod_noop(b, wl * (xl + d), n);
        lemma_mul_is_distributive_add(wl, xl, d);
        assert(d * sum_of(w) == d * sum_of(w0) + d * wl) by (nonlinear_arith)
            requires
                sum_of(w) == sum_of(w0) + wl,
        ;
        assert(weighted_sum(w, tweak_all(x, d)) == a + wl * ((xl + d) % n));
        assert(b + wl * (xl + d) == weighted_sum(w, x) + d * sum_of(w));
    }
}

/// Reconstruction is sound under the tweak: where the interpolation weights `w` of a
/// quorum sum to one modulo the group order, the weighted sum of the tweaked shares is the
/// weighted sum of the untweaked shares plus the tweak, whichever quorum it is.
pub proof fn lemma_reconstruction_moves_by_tweak(w: Seq<int>, x: Seq<int>, d: int)
    requires
        w.len() == x.len(),
        sum_of(w) % curve_order() == 1,
    ensures
        weighted_sum(w, tweak_all(x, d)) % curve_order() == (weighted_sum(w, x) + d) % curve_order(),
{
    let n = curve_order();
    lemma_weighted_sum_shift(w, x, d);
    lemma_mul_mod_noop_right(d, sum_of(w), n);
    lemma_add_mod_noop(weighted_sum(w, x), d * sum_of(w), n);
    lemma_add_mod_noop(weighted_sum(w, x), d, n);
}


/// Parties that hold the same public contributions, in the same order, assemble the same group
/// key: the last round takes the sum of the contributions, whichever party computes it.
pub proof fn lemma_group_key_agreed(first: Seq<Vec<u8>>, second: Seq<Vec<u8>>)
    requires
        first.len() == second.len(),
        forall|k: int| 0 <= k < first.len() ==> (#[trigger] first[k])@ == second[k]@,
    ensures
        point_sum(first.map_values(|y: Vec<u8>| y@)) == point_sum(second.map_values(|y: Vec<u8>| y@)),
{
    assert(first.map_values(|y: Vec<u8>| y@) =~= second.map_values(|y: Vec<u8>| y@));
}

} // verus!
