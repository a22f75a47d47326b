//! Secret keys, public keys and signatures, with the two signing modes and
//! their verification relations.
use crate::curve::{
    g1_generator_mul, g1_identity, g1_mul, g1_point, g2_generator_mul, g2_mul, g2_point,
    hash_scalar, hash_to_scalar, is_g1_point, is_g2_point, pairings_equal, random_scalar,
    scalar_is_canonical,
};
use crate::field::{is_canonical, le_value, one_bytes, scalar_order, zero_bytes};
use rand::{CryptoRng, Rng};
use vstd::arithmetic::div_mod::{
    lemma_mod_bound, lemma_mul_mod_noop_left, lemma_mul_mod_noop_right, lemma_small_mod,
};
use vstd::arithmetic::mul::lemma_mul_is_associative;
use vstd::prelude::*;

verus! {

/// The scalar that names the plain signature of `msg` under the secret
/// scalar `sk`: `h0(msg) * sk`, where `h0(msg)` is the generator times the
/// hash of `msg`.
pub open spec fn vulnerable_exponent(sk: nat, msg: Seq<u8>) -> nat {
    (hash_scalar(msg) * sk) % scalar_order()
}

/// The scalar that names the rogue-key resistant signature: the plain one
/// multiplied by `h1(pk)`, the hash of the public key's encoding.
pub open spec fn resistant_exponent(sk: nat, pk: Seq<u8>, msg: Seq<u8>) -> nat {
    (vulnerable_exponent(sk, msg) * hash_scalar(pk)) % scalar_order()
}

/// Encoding of the plain signature of `msg` under `sk`.
pub open spec fn vulnerable_signature(sk: nat, msg: Seq<u8>) -> Seq<u8> {
    g1_point(vulnerable_exponent(sk, msg))
}

/// Encoding of the rogue-key resistant signature of `msg` under `sk`, made
/// with the public key encoded as `pk`.
pub open spec fn resistant_signature(sk: nat, pk: Seq<u8>, msg: Seq<u8>) -> Seq<u8> {
    g1_point(resistant_exponent(sk, pk, msg))
}

/// Encoding of the public key of the secret scalar `sk`: the G2 generator
/// times `sk`.
pub open spec fn public_key_of(sk: nat) -> Seq<u8> {
    g2_point(sk)
}

/// The pairing check `e(sig, g2) == e(g1 * h, pk * t)`: the signature
/// names `ks`, the public key names `kp`, and `ks == h * kp * t` in the
/// field. With `t == 1` it is the plain check, with `t == h1(pk)` the
/// rogue-key resistant one.
pub open spec fn accepts(sig: Seq<u8>, h: nat, pk: Seq<u8>, t: nat) -> bool {
    exists|ks: nat, kp: nat|
        #![trigger g1_point(ks), g2_point(kp)]
        ks < scalar_order() && kp < scalar_order() && sig == g1_point(ks) && pk == g2_point(kp)
            && ks == (h * ((kp * t) % scalar_order())) % scalar_order()
}

/// A BLS secret key: one element of the scalar field, held in its
/// canonical encoding.
#[derive(Clone, Copy, Debug, PartialEq, Eq)]
pub struct SecretKey(pub(crate) [u8; 32]);

/// A BLS public key: a point of G2, held in its compressed encoding.
#[derive(Clone, Copy, Debug, PartialEq, Eq)]
pub struct PublicKey(pub(crate) [u8; 96]);

/// A BLS signature: a point of G1, held in its compressed encoding.
#[derive(Clone, Copy, Debug, PartialEq, Eq)]
pub struct Signature(pub(crate) [u8; 48]);

impl SecretKey {
    #[verifier::type_invariant]
    spec fn inv(self) -> bool {
        is_canonical(self.0@)
    }

    /// The field element that the key holds. Its encoding is canonical, so
    /// the reduction leaves the value as it is.
    pub closed spec fn scalar(self) -> nat {
        le_value(self.0@) % scalar_order()
    }

    /// The scalar of a key lies in the field.
    pub proof fn lemma_scalar_in_field(self)
        ensures
            self.scalar() < scalar_order(),
    {
        lemma_mod_bound(le_value(self.0@) as int, scalar_order() as int);
    }

    proof fn lemma_scalar_is_value(self)
        requires
            is_canonical(self.0@),
        ensures
            self.scalar() == le_value(self.0@),
    {
        lemma_small_mod(le_value(self.0@), scalar_order());
    }

    /// Generates a new secret key from a cryptographically secure source of
    /// randomness; the scalar is uniform over the field.
    pub fn new<T>(rand: &mut T) -> (r: Self)
        where
            T: Rng + CryptoRng,
        ensures
            r.scalar() < scalar_order(),
    {
        SecretKey(random_scalar(rand))
    }

    /// Reads a key from the canonical little-endian encoding of its scalar;
    /// `None` where the bytes stand for a value not below the field's order.
    pub fn from_bytes(bytes: &[u8; 32]) -> (r: Option<Self>)
        ensures
            r.is_some() == (le_value(bytes@) < scalar_order()),
            r.is_some() ==> r.unwrap().scalar() == le_value(bytes@),
    {
        if scalar_is_canonical(bytes) {
            let sk = SecretKey(*bytes);
            proof {
                sk.lemma_scalar_is_value();
            }
            Some(sk)
        } else {
            None
        }
    }

    /// Signs a message, producing a [`Signature`]: `h0(msg) * sk`.
    /// The signature is open to a rogue-key attack: use it only where it is
    /// verified alone, against one known public key.
    pub fn sign_vulnerable(&self, msg: &[u8]) -> (r: Signature)
        ensures
            r.encoding() == vulnerable_signature(self.scalar(), msg@),
            self.scalar() == 0 ==> r.encoding() == g1_identity(),
    {
        proof {
            use_type_invariant(self);
            self.lemma_scalar_is_value();
        }
        // Hash the message onto the curve
        let h = h0(msg);
        // Multiply the point by the secret scalar
        let e = g1_mul(&h, &self.0);
        proof {
            let k = hash_scalar(msg@);
            assert(h@ == g1_point(k));
            assert(e@ == g1_point((k * self.scalar()) % scalar_order()));
            assert(is_g1_point(e@));
        }
        Signature(e)
    }

    /// Signs a message in a rogue-key resistant way: the plain signature,
    /// multiplied by `h1(pk)`. `pk` is meant to be this key's own public
    /// key; with another one the signature does not verify.
    pub fn sign(&self, pk: &PublicKey, msg: &[u8]) -> (r: Signature)
        ensures
            r.encoding() == g1_point(
                (vulnerable_exponent(self.scalar(), msg@) * hash_scalar(pk.encoding()))
                    % scalar_order(),
            ),
            r.encoding() == resistant_signature(self.scalar(), pk.encoding(), msg@),
            self.scalar() == 0 ==> r.encoding() == g1_identity(),
    {
        let sig = self.sign_vulnerable(msg);
        // Bind the signature to the signer's own public key
        let t = h1(pk);
        let e = g1_mul(&sig.0, &t);
        proof {
            let kv = vulnerable_exponent(self.scalar(), msg@);
            assert(sig.0@ == g1_point(kv));
            assert(e@ == g1_point((kv * le_value(t@)) % scalar_order()));
            assert(is_g1_point(e@));
            if self.scalar() == 0 {
                let hs = hash_scalar(msg@);
                let sv = self.scalar();
                assert(hs * sv == 0) by (nonlinear_arith)
                    requires
                        sv == 0,
                ;
                lemma_small_mod(0, scalar_order());
                assert(kv == 0);
                let tv = le_value(t@);
                assert(kv * tv == 0) by (nonlinear_arith)
                    requires
                        kv == 0,
                ;
                assert(g1_point(0) == g1_identity());
                assert(e@ == g1_point(0));
            }
        }
        Signature(e)
    }
}

impl Default for SecretKey {
    /// The zero key, a placeholder that must never sign in earnest.
    fn default() -> (r: Self)
        ensures
            r.scalar() == 0,
    {
        SecretKey(zero_bytes())
    }
}

impl PublicKey {
    #[verifier::type_invariant]
    spec fn inv(self) -> bool {
        is_g2_point(self.0@)
    }

    /// The compressed encoding of the key's point.
    pub closed spec fn encoding(self) -> Seq<u8> {
        self.0@
    }

    /// The public key of a secret key: the G2 generator times its scalar.
    pub fn from_secret_key(sk: &SecretKey) -> (r: Self)
        ensures
            r.encoding() == public_key_of(sk.scalar()),
    {
        proof {
            use_type_invariant(sk);
            sk.lemma_scalar_is_value();
        }
        let p = g2_generator_mul(&sk.0);
        PublicKey(p)
    }

    /// The compressed encoding of the key's point.
    pub fn to_bytes(&self) -> (r: [u8; 96])
        ensures
            r@ == self.encoding(),
    {
        self.0
    }

    /// Verifies a plain signature: `e(sig, g2) == e(h0(msg), pk)`.
    pub fn verify_vulnerable(&self, sig: &Signature, msg: &[u8]) -> (r: bool)
        ensures
            r == accepts(sig.encoding(), hash_scalar(msg@), self.encoding(), 1),
    {
        proof {
            use_type_invariant(self);
        }
        let one = one_bytes();
        pairing_check(sig, msg, &self.0, &one)
    }

    /// Verifies a rogue-key resistant signature:
    /// `e(sig, g2) == e(h0(msg), pk * h1(pk))`.
    pub fn verify(&self, sig: &Signature, msg: &[u8]) -> (r: bool)
        ensures
            r == accepts(sig.encoding(), hash_scalar(msg@), self.encoding(), hash_scalar(self.encoding())),
    {
        proof {
            use_type_invariant(self);
        }
        let t = h1(self);
        pairing_check(sig, msg, &self.0, &t)
    }
}

impl Signature {
    #[verifier::type_invariant]
    spec fn inv(self) -> bool {
        is_g1_point(self.0@)
    }

    /// The compressed encoding of the signature's point.
    pub closed spec fn encoding(self) -> Seq<u8> {
        self.0@
    }

    /// The compressed encoding of the signature's point.
    pub fn to_bytes(&self) -> (r: [u8; 48])
        ensures
            r@ == self.encoding(),
    {
        self.0
    }
}

/// Hash to the curve: the G1 generator times the hash of `msg`.
fn h0(msg: &[u8]) -> (r: [u8; 48])
    ensures
        r@ == g1_point(hash_scalar(msg@)),
        hash_scalar(msg@) < scalar_order(),
        is_g1_point(r@),
{
    let s = hash_to_scalar(msg);
    g1_generator_mul(&s)
}

/// Hash of a public key's encoding into the field.
fn h1(pk: &PublicKey) -> (r: [u8; 32])
    ensures
        is_canonical(r@),
        le_value(r@) == hash_scalar(pk.encoding()),
{
    hash_to_scalar(&pk.0)
}

/// The pairing check `e(sig, g2) == e(h0(msg), pk * t)`.
fn pairing_check(sig: &Signature, msg: &[u8], pk: &[u8; 96], t: &[u8; 32]) -> (r: bool)
    requires
        is_g2_point(pk@),
        is_canonical(t@),
    ensures
        r == accepts(sig.encoding(), hash_scalar(msg@), pk@, le_value(t@)),
{
    proof {
        use_type_invariant(sig);
    }
    let one = one_bytes();
    let g2 = g2_generator_mul(&one);
    let h = h0(msg);
    let apk = g2_mul(pk, t);
    let r = pairings_equal(&sig.0, &g2, &h, &apk);
    proof {
        let n = scalar_order();
        let hs = hash_scalar(msg@);
        let tv = le_value(t@);
        let ks0 = choose|ks: nat| ks < n && sig.0@ == g1_point(ks);
        let kp0 = choose|kp: nat| kp < n && pk@ == g2_point(kp);
        assert(apk@ == g2_point((kp0 * tv) % n));
        assert(r == ((ks0 * 1) % n == (hs * ((kp0 * tv) % n)) % n));
        assert forall|ks: nat, kp: nat|
            ks < n && kp < n && sig.0@ == g1_point(ks) && pk@ == g2_point(kp)
            implies (r == (ks == (hs * ((kp * tv) % n)) % n)) by {
            assert(apk@ == g2_point((kp * tv) % n));
            lemma_mod_bound((kp * tv) as int, n as int);
            lemma_small_mod(ks, n);
            assert(ks * 1 == ks);
            assert(g1_point(ks) == sig.0@);
            assert(g2_point(1) == g2@);
            assert(g1_point(hs) == h@);
            assert(g2_point((kp * tv) % n) == apk@);
        }
        if r {
            assert(g1_point(ks0) == sig.0@);
            assert(g2_point(kp0) == pk@);
        }
    }
    r
}

/// Signing holds no hidden randomness: under one secret key, for one
/// message (and, in the resistant mode, one public key), any two
/// signatures that the signing contracts allow are the same value.
pub proof fn lemma_signing_is_deterministic(
    sk: SecretKey,
    pk: PublicKey,
    msg: Seq<u8>,
    a: Signature,
    b: Signature,
    c: Signature,
    d: Signature,
)
    requires
        a.encoding() == vulnerable_signature(sk.scalar(), msg),
        b.encoding() == vulnerable_signature(sk.scalar(), msg),
        c.encoding() == resistant_signature(sk.scalar(), pk.encoding(), msg),
        d.encoding() == resistant_signature(sk.scalar(), pk.encoding(), msg),
    ensures
        a == b,
        c == d,
{
    assert(a.0 =~= b.0) by {
        assert forall|i: int| 0 <= i < 48 implies a.0[i] == b.0[i] by {
            assert(a.0@[i] == b.0@[i]);
        }
    }
    assert(c.0 =~= d.0) by {
        assert forall|i: int| 0 <= i < 48 implies c.0[i] == d.0[i] by {
            assert(c.0@[i] == d.0@[i]);
        }
    }
}

/// Signatures verify: for every secret scalar `sk` and message `msg`, the
/// plain signature passes the plain pairing check against the public key
/// of `sk`, and the resistant signature made with that public key passes
/// the resistant check, whose exponent is `h1` of the same key.
pub proof fn lemma_signatures_verify(sk: nat, msg: Seq<u8>)
    requires
        sk < scalar_order(),
    ensures
        accepts(vulnerable_signature(sk, msg), hash_scalar(msg), public_key_of(sk), 1),
        accepts(
            resistant_signature(sk, public_key_of(sk), msg),
            hash_scalar(msg),
            public_key_of(sk),
            hash_scalar(public_key_of(sk)),
        ),
{
    let n = scalar_order();
    let h = hash_scalar(msg);
    let t = hash_scalar(public_key_of(sk));
    let kv = vulnerable_exponent(sk, msg);
    let kr = resistant_exponent(sk, public_key_of(sk), msg);
    lemma_mod_bound((h * sk) as int, n as int);
    lemma_mod_bound((kv * t) as int, n as int);
    lemma_small_mod(sk, n);
    assert(sk * 1 == sk);
    assert(kv == (h * ((sk * 1) % n)) % n);
    assert(g1_point(kv) == vulnerable_signature(sk, msg));
    assert(g2_point(sk) == public_key_of(sk));
    lemma_mul_mod_noop_left((h * sk) as int, t as int, n as int);
    lemma_mul_mod_noop_right(h as int, (sk * t) as int, n as int);
    lemma_mul_is_associative(h as int, sk as int, t as int);
    assert(kr == (h * ((sk * t) % n)) % n);
    assert(g1_point(kr) == resistant_signature(sk, public_key_of(sk), msg));
}

} // verus!
