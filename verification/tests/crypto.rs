//! Key pairs, signatures and hashing primitives.

use farcoin::key::{PrivateKey, PublicKey};

fn hex_of(bytes: &[u8]) -> String {
    String::from_utf8(farcoin::hex::hex_encode(&bytes.to_vec())).unwrap()
}

fn scalar_hex(last: u8) -> String {
    let mut bytes = [0u8; 32];
    bytes[31] = last;
    hex_of(&bytes)
}

#[test]
fn sign_then_verify_succeeds() {
    let sk = PrivateKey::from_hex(&scalar_hex(1)).unwrap();
    let pk = PublicKey::from_private(&sk);
    let h = farcoin::hash::Hash::new(vec![1, 2, 3, 4]);
    let sig = sk.sign(&h).unwrap();
    assert!(pk.verify(&h, &sig));
}

#[test]
fn verify_rejects_wrong_message_and_wrong_key() {
    let sk = PrivateKey::from_hex(&scalar_hex(1)).unwrap();
    let pk = PublicKey::from_private(&sk);
    let h = farcoin::hash::Hash::new(vec![1, 2, 3, 4]);
    let h2 = farcoin::hash::Hash::new(vec![1, 2, 3, 5]);
    let sig = sk.sign(&h).unwrap();
    assert!(!pk.verify(&h2, &sig));
    let other = PublicKey::from_private(&PrivateKey::from_hex(&scalar_hex(2)).unwrap());
    assert!(!other.verify(&h, &sig));
}

#[test]
fn random_keys_sign_and_differ() {
    let a = PrivateKey::random();
    let b = PrivateKey::random();
    let pa = PublicKey::from_private(&a);
    let pb = PublicKey::from_private(&b);
    assert!(pa != pb);
    let h = farcoin::hash::Hash::new(vec![9, 9, 9]);
    let sig = a.sign(&h).unwrap();
    assert!(pa.verify(&h, &sig));
    assert!(!pb.verify(&h, &sig));
}

#[test]
fn private_key_hex_parsing() {
    assert!(PrivateKey::from_hex(&scalar_hex(1)).is_some());
    // the zero scalar is not a valid key
    assert!(PrivateKey::from_hex(&scalar_hex(0)).is_none());
    // invalid hex
    assert!(PrivateKey::from_hex("zz").is_none());
}

#[test]
fn public_key_hex_round_trip() {
    let pk = PublicKey::from_private(&PrivateKey::from_hex(&scalar_hex(3)).unwrap());
    let text = String::from_utf8(pk.to_hex()).unwrap();
    let back = PublicKey::from_hex(&text).unwrap();
    assert_eq!(back, pk);
}

#[test]
fn public_key_hex_rejects_invalid_points() {
    // not valid hex
    assert!(PublicKey::from_hex("not hex").is_none());
    // valid hex, but not a valid SEC1 point encoding
    assert!(PublicKey::from_hex(&hex_of(&[0u8; 33])).is_none());
}

#[test]
fn public_key_parse_canonicalizes_uncompressed_points() {
    let raw = k256::ecdsa::SigningKey::from_slice(&{
        let mut b = [0u8; 32];
        b[31] = 5;
        b
    })
    .unwrap();
    let uncompressed = raw.verifying_key().to_encoded_point(false);
    assert_eq!(uncompressed.as_bytes().len(), 65);
    let parsed = PublicKey::from_hex(&hex_of(uncompressed.as_bytes())).unwrap();
    // stored canonically: SEC1-compressed, 33 bytes, equal to the derived key
    assert_eq!(parsed.as_bytes().len(), 33);
    let ours = PublicKey::from_private(&PrivateKey::from_hex(&scalar_hex(5)).unwrap());
    assert_eq!(parsed, ours);
}

#[test]
fn signature_hex_round_trip() {
    let sk = PrivateKey::from_hex(&scalar_hex(1)).unwrap();
    let pk = PublicKey::from_private(&sk);
    let h = farcoin::hash::Hash::new(vec![7, 7, 7]);
    let sig = sk.sign(&h).unwrap();
    let text = String::from_utf8(sig.to_hex()).unwrap();
    let back = farcoin::key::Signature::from_hex(&text).unwrap();
    assert_eq!(back, sig);
    assert!(pk.verify(&h, &back));
}

#[test]
fn signature_hex_rejects_invalid_input() {
    // not valid hex
    assert!(farcoin::key::Signature::from_hex("not hex").is_none());
    // valid hex, but not a valid DER signature encoding
    assert!(farcoin::key::Signature::from_hex(&hex_of(&[0u8; 8])).is_none());
}

#[test]
fn event_hash_is_a_digest() {
    let sk = PrivateKey::from_hex(&scalar_hex(1)).unwrap();
    let pk = PublicKey::from_private(&sk);
    let ev = farcoin::block::BlockData::CreateWallet {
        id: 7,
        key: pk,
        time: farcoin::time::UtcDateTime::from_nanos(1000),
        signature: farcoin::key::Signature::empty(),
    };
    // a SHA3-256 digest, not the encoded input handed back
    assert_eq!(ev.hash().bytes().len(), 32);
}

#[test]
fn event_hash_depends_on_fields_not_signature() {
    let sk = PrivateKey::from_hex(&scalar_hex(1)).unwrap();
    let pk = PublicKey::from_private(&sk);
    let t = farcoin::time::UtcDateTime::from_nanos(1000);
    let ev1 = farcoin::block::BlockData::CreateWallet {
        id: 7,
        key: pk.clone(),
        time: t,
        signature: farcoin::key::Signature::empty(),
    };
    let h = ev1.hash();
    let sig = sk.sign(&h).unwrap();
    let ev2 = farcoin::block::BlockData::CreateWallet { id: 7, key: pk.clone(), time: t, signature: sig };
    let ev3 = farcoin::block::BlockData::CreateWallet {
        id: 8,
        key: pk,
        time: t,
        signature: farcoin::key::Signature::empty(),
    };
    // the signature is not covered; the id is
    assert_eq!(ev2.hash(), h);
    assert!(ev3.hash() != h);
}

#[test]
fn clock_reads() {
    assert!(farcoin::time::UtcDateTime::now().is_some());
}
