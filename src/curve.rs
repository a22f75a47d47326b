//! The operations of dusk-bls12_381 that signing and verification use.
//!
//! Scalars travel as their canonical 32-byte little-endian encoding, points
//! of G1 as their 48-byte and points of G2 as their 96-byte compressed
//! encoding. Both groups have the prime order `scalar_order()` and a fixed
//! generator, so each point is named by the scalar that multiplies the
//! generator to give it.
use crate::field::{is_canonical, le_value, scalar_order};
use dusk_bls12_381::{pairing, BlsScalar, G1Affine, G2Affine};
use ff::Field;
use rand::{CryptoRng, Rng};
use vstd::prelude::*;

verus! {

/// Compressed encoding of the G1 generator multiplied by `k`
/// (`G1Affine::to_compressed` of `G1Affine::generator() * k`).
pub uninterp spec fn g1_point(k: nat) -> Seq<u8>;

/// Compressed encoding of the G2 generator multiplied by `k`
/// (`G2Affine::to_compressed` of `G2Affine::generator() * k`).
pub uninterp spec fn g2_point(k: nat) -> Seq<u8>;

/// The field element that `BlsScalar::hash_to_scalar` gives for `input`.
pub uninterp spec fn hash_scalar(input: Seq<u8>) -> nat;

/// Compressed encoding of the identity of G1, the point at infinity:
/// the compression and infinity flags set, all other bits clear.
pub open spec fn g1_identity() -> Seq<u8> {
    Seq::new(48, |i: int| if i == 0 { 0xc0u8 } else { 0u8 })
}

/// `b` encodes a point of G1.
pub open spec fn is_g1_point(b: Seq<u8>) -> bool {
    exists|k: nat| k < scalar_order() && b == g1_point(k)
}

/// `b` encodes a point of G2.
pub open spec fn is_g2_point(b: Seq<u8>) -> bool {
    exists|k: nat| k < scalar_order() && b == g2_point(k)
}

/// Relies on `ff::Field::random` for `BlsScalar` and `BlsScalar::to_bytes`:
/// the scalar is drawn from 64 bytes of `rng`, reduced into the field, and
/// its canonical encoding returned.
#[verifier::external_body]
pub(crate) fn random_scalar<T>(rng: &mut T) -> (r: [u8; 32])
    where
        T: Rng + CryptoRng,
    ensures
        is_canonical(r@),
{
    <BlsScalar as Field>::random(rng).to_bytes()
}

/// Relies on `BlsScalar::from_bytes`, which accepts exactly the canonical
/// encodings (values below the modulus).
#[verifier::external_body]
pub(crate) fn scalar_is_canonical(b: &[u8; 32]) -> (r: bool)
    ensures
        r == (le_value(b@) < scalar_order()),
{
    bool::from(BlsScalar::from_bytes(b).is_some())
}

/// Relies on `BlsScalar::hash_to_scalar` (BLAKE2b-512 reduced into the
/// field) and `BlsScalar::to_bytes`.
#[verifier::external_body]
pub(crate) fn hash_to_scalar(input: &[u8]) -> (r: [u8; 32])
    ensures
        is_canonical(r@),
        le_value(r@) == hash_scalar(input@),
{
    BlsScalar::hash_to_scalar(input).to_bytes()
}

/// Relies on `G1Affine::generator`, `G1Affine * BlsScalar` and
/// `G1Affine::to_compressed`.
#[verifier::external_body]
pub(crate) fn g1_generator_mul(s: &[u8; 32]) -> (r: [u8; 48])
    requires
        is_canonical(s@),
    ensures
        r@ == g1_point(le_value(s@)),
{
    let s = BlsScalar::from_bytes(s).unwrap();
    G1Affine::from(G1Affine::generator() * s).to_compressed()
}

/// Relies on `G1Affine::from_compressed`, `G1Affine * BlsScalar` and
/// `G1Affine::to_compressed`: the group has prime order, so multiplying
/// the point named `k` by `s` gives the point named `k * s mod r`, and
/// multiplying any point by zero gives the identity.
#[verifier::external_body]
pub(crate) fn g1_mul(p: &[u8; 48], s: &[u8; 32]) -> (r: [u8; 48])
    requires
        is_g1_point(p@),
        is_canonical(s@),
    ensures
        forall|k: nat| #![trigger g1_point(k)] k < scalar_order() && p@ == g1_point(k)
            ==> r@ == g1_point((k * le_value(s@)) % scalar_order()),
        le_value(s@) == 0 ==> r@ == g1_identity(),
{
    let p = G1Affine::from_compressed(p).unwrap();
    let s = BlsScalar::from_bytes(s).unwrap();
    G1Affine::from(p * s).to_compressed()
}

/// Relies on `G2Affine::generator`, `G2Affine * BlsScalar` and
/// `G2Affine::to_compressed`.
#[verifier::external_body]
pub(crate) fn g2_generator_mul(s: &[u8; 32]) -> (r: [u8; 96])
    requires
        is_canonical(s@),
    ensures
        r@ == g2_point(le_value(s@)),
{
    let s = BlsScalar::from_bytes(s).unwrap();
    G2Affine::from(G2Affine::generator() * s).to_compressed()
}

/// Relies on `G2Affine::from_compressed`, `G2Affine * BlsScalar` and
/// `G2Affine::to_compressed`: multiplying the point named `k` by `s` gives
/// the point named `k * s mod r`.
#[verifier::external_body]
pub(crate) fn g2_mul(p: &[u8; 96], s: &[u8; 32]) -> (r: [u8; 96])
    requires
        is_g2_point(p@),
        is_canonical(s@),
    ensures
        forall|k: nat| #![trigger g2_point(k)] k < scalar_order() && p@ == g2_point(k)
            ==> r@ == g2_point((k * le_value(s@)) % scalar_order()),
{
    let p = G2Affine::from_compressed(p).unwrap();
    let s = BlsScalar::from_bytes(s).unwrap();
    G2Affine::from(p * s).to_compressed()
}

/// Relies on `dusk_bls12_381::pairing` and equality of its `Gt` results.
/// The pairing is bilinear and non-degenerate on groups of prime order, so
/// `e(a, b) == e(c, d)` holds exactly when the products of the points'
/// names agree modulo `r`.
#[verifier::external_body]
pub(crate) fn pairings_equal(a: &[u8; 48], b: &[u8; 96], c: &[u8; 48], d: &[u8; 96]) -> (r: bool)
    requires
        is_g1_point(a@),
        is_g2_point(b@),
        is_g1_point(c@),
        is_g2_point(d@),
    ensures
        forall|ka: nat, kb: nat, kc: nat, kd: nat|
            #![trigger g1_point(ka), g2_point(kb), g1_point(kc), g2_point(kd)]
            ka < scalar_order() && kb < scalar_order() && kc < scalar_order() && kd < scalar_order()
                && a@ == g1_point(ka) && b@ == g2_point(kb) && c@ == g1_point(kc)
                && d@ == g2_point(kd)
            ==> (r == ((ka * kb) % scalar_order() == (kc * kd) % scalar_order())),
{
    let a = G1Affine::from_compressed(a).unwrap();
    let b = G2Affine::from_compressed(b).unwrap();
    let c = G1Affine::from_compressed(c).unwrap();
    let d = G2Affine::from_compressed(d).unwrap();
    pairing(&a, &b) == pairing(&c, &d)
}

} // verus!
