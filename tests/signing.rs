use bls12_381_sign::{PublicKey, SecretKey};
use rand::rngs::StdRng;
use rand::SeedableRng;

fn key_pair(seed: u64) -> (SecretKey, PublicKey) {
    let mut rng = StdRng::seed_from_u64(seed);
    let sk = SecretKey::new(&mut rng);
    let pk = PublicKey::from_secret_key(&sk);
    (sk, pk)
}

fn scalar_bytes(v: u64) -> [u8; 32] {
    let mut b = [0u8; 32];
    b[..8].copy_from_slice(&v.to_le_bytes());
    b
}

/// The modulus of the scalar field, little-endian.
fn modulus_bytes() -> [u8; 32] {
    let limbs: [u64; 4] = [
        0xffff_ffff_0000_0001,
        0x53bd_a402_fffe_5bfe,
        0x3339_d808_09a1_d805,
        0x73ed_a753_299d_7d48,
    ];
    let mut b = [0u8; 32];
    for (i, l) in limbs.iter().enumerate() {
        b[8 * i..8 * i + 8].copy_from_slice(&l.to_le_bytes());
    }
    b
}

#[test]
fn signing_is_deterministic() {
    let (sk, pk) = key_pair(1);
    let msg = b"hello";
    assert_eq!(sk.sign_vulnerable(msg), sk.sign_vulnerable(msg));
    assert_eq!(sk.sign(&pk, msg), sk.sign(&pk, msg));
    let copy = SecretKey::from_bytes(&scalar_bytes(7)).unwrap();
    let again = SecretKey::from_bytes(&scalar_bytes(7)).unwrap();
    assert_eq!(copy.sign_vulnerable(msg), again.sign_vulnerable(msg));
}

#[test]
fn signatures_verify() {
    for seed in 0..3u64 {
        let (sk, pk) = key_pair(seed);
        for msg in [&b""[..], &b"a"[..], &b"some longer message to sign"[..]] {
            assert!(pk.verify_vulnerable(&sk.sign_vulnerable(msg), msg));
            assert!(pk.verify(&sk.sign(&pk, msg), msg));
        }
    }
}

#[test]
fn signature_does_not_verify_for_other_message() {
    let (sk, pk) = key_pair(3);
    assert!(!pk.verify_vulnerable(&sk.sign_vulnerable(b"one"), b"two"));
    assert!(!pk.verify(&sk.sign(&pk, b"one"), b"two"));
}

#[test]
fn distinct_messages_give_distinct_signatures() {
    let (sk, pk) = key_pair(4);
    assert_ne!(sk.sign_vulnerable(b"m1"), sk.sign_vulnerable(b"m2"));
    assert_ne!(sk.sign(&pk, b"m1"), sk.sign(&pk, b"m2"));
}

#[test]
fn signatures_are_bound_to_the_key() {
    let (sk1, pk1) = key_pair(5);
    let (sk2, pk2) = key_pair(6);
    let msg = b"shared message";
    assert_ne!(sk1.sign(&pk1, msg), sk2.sign(&pk2, msg));
    let swapped = sk1.sign(&pk2, msg);
    assert!(!pk1.verify(&swapped, msg));
    assert!(!pk2.verify(&swapped, msg));
}

#[test]
fn resistant_signature_differs_from_plain_one() {
    let (sk, pk) = key_pair(7);
    let msg = b"mode";
    let plain = sk.sign_vulnerable(msg);
    let resistant = sk.sign(&pk, msg);
    assert_ne!(plain, resistant);
    assert!(!pk.verify(&plain, msg));
    assert!(!pk.verify_vulnerable(&resistant, msg));
}

#[test]
fn zero_key_signs_to_identity() {
    let sk = SecretKey::default();
    let mut identity = [0u8; 48];
    identity[0] = 0xc0;
    assert_eq!(sk.sign_vulnerable(b"test message").to_bytes(), identity);
    assert_eq!(sk.sign_vulnerable(b"").to_bytes(), identity);
    let (_, pk) = key_pair(8);
    assert_eq!(sk.sign(&pk, b"test message").to_bytes(), identity);
    assert_eq!(SecretKey::from_bytes(&[0u8; 32]), Some(sk));
}

#[test]
fn from_bytes_accepts_exactly_canonical_scalars() {
    assert!(SecretKey::from_bytes(&scalar_bytes(1)).is_some());
    assert!(SecretKey::from_bytes(&[0xff; 32]).is_none());
    let m = modulus_bytes();
    assert!(SecretKey::from_bytes(&m).is_none());
    let mut below = m;
    below[0] -= 1;
    assert!(SecretKey::from_bytes(&below).is_some());
}

#[test]
fn verification_rejects_signature_of_other_key() {
    let a = SecretKey::from_bytes(&scalar_bytes(6)).unwrap();
    let b = SecretKey::from_bytes(&scalar_bytes(3)).unwrap();
    assert_ne!(a.sign_vulnerable(b"x"), b.sign_vulnerable(b"x"));
    let pa = PublicKey::from_secret_key(&a);
    assert!(pa.verify_vulnerable(&a.sign_vulnerable(b"x"), b"x"));
    assert!(!pa.verify_vulnerable(&b.sign_vulnerable(b"x"), b"x"));
}

#[test]
fn golden_vector() {
    let sk = SecretKey::from_bytes(&scalar_bytes(0x1234_5678)).unwrap();
    let pk = PublicKey::from_secret_key(&sk);
    let plain = sk.sign_vulnerable(b"test message").to_bytes();
    let resistant = sk.sign(&pk, b"test message").to_bytes();
    let expected_plain: [u8; 48] = [
        0xab, 0xa3, 0x39, 0xd4, 0x82, 0xcc, 0xff, 0x07, 0x59, 0x32, 0x66, 0x57,
        0x41, 0x8d, 0xc5, 0x3e, 0x41, 0x6c, 0xb5, 0x37, 0x93, 0x0d, 0xf4, 0x04,
        0xf9, 0xce, 0x0b, 0xa9, 0xe1, 0x60, 0x93, 0xc8, 0x8b, 0x94, 0x68, 0xcd,
        0x21, 0xd0, 0x0b, 0xe9, 0xdd, 0xd1, 0x0c, 0xcb, 0x26, 0xa3, 0x94, 0x02,
    ];
    assert_eq!(plain, expected_plain);
    let expected_resistant: [u8; 48] = [
        0x83, 0x29, 0xb7, 0xd7, 0x41, 0x8f, 0x79, 0xf0, 0x4f, 0xd7, 0x13, 0x5e,
        0x20, 0x50, 0x2c, 0x47, 0x30, 0xdd, 0xd1, 0xe5, 0xb1, 0x43, 0xf5, 0x3a,
        0x84, 0xe0, 0xc2, 0xca, 0xd2, 0x36, 0x0b, 0xc1, 0xf0, 0xa2, 0x45, 0x8d,
        0x0e, 0xfe, 0xb4, 0xff, 0x82, 0xd7, 0x64, 0xaa, 0xfc, 0xc3, 0xad, 0x1d,
    ];
    assert_eq!(resistant, expected_resistant);
}
