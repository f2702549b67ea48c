//! Asymmetric key pairs and digital signatures (secp256k1 ECDSA). Keys and
//! signatures are held as their canonical byte encodings — SEC1-compressed
//! points for public keys, raw scalars for private keys, DER for signatures —
//! so that equality is byte-exact and a public key can serve as an account
//! identifier. The curve operations themselves are performed by the `k256`
//! crate behind the trusted items below.

use vstd::prelude::*;
use vstd::string::StringSliceAdditionalSpecFns;
use k256::ecdsa::signature::{Signer, Verifier};

verus! {

/// What ECDSA verification returns for the given public-key, message and
/// signature bytes. Verification is deterministic, so this is a function of
/// the three byte sequences alone; its value is computed only by
/// [`PublicKey::verify`].
pub uninterp spec fn sig_verifies(key: Seq<u8>, msg: Seq<u8>, sig: Seq<u8>) -> bool;

/// The SEC1-compressed public key derived from the given private-key bytes,
/// a function of those bytes alone; computed only by [`PublicKey::from_private`].
pub uninterp spec fn public_of(key: Seq<u8>) -> Seq<u8>;

/// The canonical SEC1-compressed form of a public-key encoding, or `None`
/// when the bytes are not a valid curve point encoding; computed only by
/// [`sec1_canonical`]. Canonical forms are fixed points: re-canonicalizing
/// an output yields it unchanged.
pub uninterp spec fn canon_pub(bytes: Seq<u8>) -> Option<Seq<u8>>;

/// The canonical scalar form of a private-key encoding, or `None` when the
/// bytes are not a valid non-zero scalar; computed only by [`scalar_canonical`].
pub uninterp spec fn canon_priv(bytes: Seq<u8>) -> Option<Seq<u8>>;

/// The canonical DER form of a signature encoding, or `None` when the bytes
/// are not a valid DER-encoded ECDSA signature; computed only by
/// [`der_canonical`].
pub uninterp spec fn canon_sig(bytes: Seq<u8>) -> Option<Seq<u8>>;

/// A public key; doubles as an account identifier. Equality is byte-exact
/// over the canonical SEC1-compressed encoding.
#[derive(Debug)]
pub struct PublicKey {
    bytes: Vec<u8>,
}

/// A private key, held as its raw non-zero scalar bytes.
#[derive(Debug)]
pub struct PrivateKey {
    bytes: Vec<u8>,
}

/// An ECDSA signature, held as its DER encoding.
#[derive(Debug)]
pub struct Signature {
    bytes: Vec<u8>,
}

impl View for PublicKey {
    type V = Seq<u8>;

    closed spec fn view(&self) -> Seq<u8> {
        self.bytes@
    }
}

impl View for PrivateKey {
    type V = Seq<u8>;

    closed spec fn view(&self) -> Seq<u8> {
        self.bytes@
    }
}

impl View for Signature {
    type V = Seq<u8>;

    closed spec fn view(&self) -> Seq<u8> {
        self.bytes@
    }
}

impl Clone for PublicKey {
    fn clone(&self) -> (r: Self)
        ensures
            r@ == self@,
    {
        PublicKey { bytes: crate::clone_bytes(&self.bytes) }
    }
}

impl Clone for PrivateKey {
    fn clone(&self) -> (r: Self)
        ensures
            r@ == self@,
    {
        PrivateKey { bytes: crate::clone_bytes(&self.bytes) }
    }
}

impl Clone for Signature {
    fn clone(&self) -> (r: Self)
        ensures
            r@ == self@,
    {
        Signature { bytes: crate::clone_bytes(&self.bytes) }
    }
}

impl PartialEq for PublicKey {
    fn eq(&self, other: &Self) -> (r: bool) {
        crate::bytes_eq(&self.bytes, &other.bytes)
    }
}

impl vstd::std_specs::cmp::PartialEqSpecImpl for PublicKey {
    open spec fn obeys_eq_spec() -> bool {
        true
    }

    open spec fn eq_spec(&self, other: &Self) -> bool {
        self@ == other@
    }
}

impl PartialEq for Signature {
    fn eq(&self, other: &Self) -> (r: bool) {
        crate::bytes_eq(&self.bytes, &other.bytes)
    }
}

impl vstd::std_specs::cmp::PartialEqSpecImpl for Signature {
    open spec fn obeys_eq_spec() -> bool {
        true
    }

    open spec fn eq_spec(&self, other: &Self) -> bool {
        self@ == other@
    }
}

impl PublicKey {
    /// Verifies `signature` over the exact bytes of `hash` under this key;
    /// never panics, false on any malformed input or mismatch.
    ///
    /// Relies on `k256::ecdsa::VerifyingKey::from_sec1_bytes`,
    /// `k256::ecdsa::Signature::from_der` and ECDSA `Verifier::verify`:
    /// deterministic in the key, message and signature bytes.
    #[verifier::external_body]
    pub fn verify(&self, hash: &crate::hash::Hash, signature: &Signature) -> (r: bool)
        ensures
            r == sig_verifies(self@, hash@, signature@),
    {
        let Ok(vk) = k256::ecdsa::VerifyingKey::from_sec1_bytes(self.bytes.as_slice()) else {
            return false;
        };
        let Ok(sig) = k256::ecdsa::Signature::from_der(signature.bytes.as_slice()) else {
            return false;
        };
        vk.verify(hash.bytes().as_slice(), &sig).is_ok()
    }

    /// The public key belonging to a private key.
    ///
    /// Relies on `k256::ecdsa::SigningKey::verifying_key` and SEC1 point
    /// compression: the result is a function of the private-key bytes alone
    /// (the empty encoding when the bytes are not a valid scalar), and for a
    /// valid scalar it is a canonical compressed encoding, which
    /// re-canonicalizes to itself. For invalid bytes the empty encoding is
    /// no curve point, so it canonicalizes to `None`.
    #[verifier::external_body]
    pub fn from_private(key: &PrivateKey) -> (r: PublicKey)
        ensures
            r@ == public_of(key@),
            canon_pub(r@) matches Some(v) ==> v == r@,
    {
        match k256::ecdsa::SigningKey::from_slice(key.bytes.as_slice()) {
            Ok(sk) => PublicKey {
                bytes: sk.verifying_key().to_encoded_point(true).as_bytes().to_vec(),
            },
            Err(_) => PublicKey { bytes: Vec::new() },
        }
    }

    /// Parses a hex-encoded public key; fails on invalid hex or on an
    /// invalid curve point encoding. A parsed key holds the canonical form,
    /// so parsing its own hex text yields it back.
    pub fn from_hex(s: &str) -> (r: Option<PublicKey>)
        ensures
            ({
                let d = crate::hex::spec_hex_decode(s.spec_bytes());
                match r {
                    Option::Some(k) => d matches Some(b) && canon_pub(b) == Some(k@)
                        && canon_pub(k@) == Some(k@),
                    Option::None => d matches Some(b) ==> canon_pub(b) is None,
                }
            }),
    {
        match crate::hex::hex_decode(s) {
            Option::Some(bytes) => match sec1_canonical(&bytes) {
                Option::Some(canon) => Some(PublicKey { bytes: canon }),
                Option::None => None,
            },
            Option::None => None,
        }
    }

    /// This key's canonical encoding as lowercase hex text (ASCII bytes).
    pub fn to_hex(&self) -> (r: Vec<u8>)
        ensures
            r@ == crate::hex::spec_hex_encode(self@),
    {
        crate::hex::hex_encode(&self.bytes)
    }

    /// The canonical SEC1-compressed encoding.
    pub fn as_bytes(&self) -> (r: &Vec<u8>)
        ensures
            r@ == self@,
    {
        &self.bytes
    }
}

impl PrivateKey {
    /// A fresh random private key.
    ///
    /// Relies on `k256::ecdsa::SigningKey::random` with the operating-system
    /// RNG; nothing is promised of the value drawn.
    #[verifier::external_body]
    pub fn random() -> (r: PrivateKey)
    {
        let sk = k256::ecdsa::SigningKey::random(&mut rand_core::OsRng);
        PrivateKey { bytes: sk.to_bytes().to_vec() }
    }

    /// Signs the exact bytes of `hash`; `None` when the underlying signing
    /// operation fails. A produced signature verifies under this key's
    /// public key and the same hash bytes.
    ///
    /// Relies on `k256::ecdsa::SigningKey::try_sign` (RFC 6979 ECDSA): a
    /// signature it produces is accepted by ECDSA verification under the
    /// corresponding public key and the same message.
    #[verifier::external_body]
    pub fn sign(&self, hash: &crate::hash::Hash) -> (r: Option<Signature>)
        ensures
            r matches Some(s) ==> sig_verifies(public_of(self@), hash@, s@),
    {
        let Ok(sk) = k256::ecdsa::SigningKey::from_slice(self.bytes.as_slice()) else {
            return None;
        };
        let res: Result<k256::ecdsa::Signature, _> = sk.try_sign(hash.bytes().as_slice());
        match res {
            Ok(sig) => Some(Signature { bytes: sig.to_der().as_bytes().to_vec() }),
            Err(_) => None,
        }
    }

    /// Parses a hex-encoded private key; fails on invalid hex or on bytes
    /// that are not a valid non-zero scalar.
    pub fn from_hex(s: &str) -> (r: Option<PrivateKey>)
        ensures
            ({
                let d = crate::hex::spec_hex_decode(s.spec_bytes());
                match r {
                    Option::Some(k) => d matches Some(b) && canon_priv(b) == Some(k@),
                    Option::None => d matches Some(b) ==> canon_priv(b) is None,
                }
            }),
    {
        match crate::hex::hex_decode(s) {
            Option::Some(bytes) => match scalar_canonical(&bytes) {
                Option::Some(canon) => Some(PrivateKey { bytes: canon }),
                Option::None => None,
            },
            Option::None => None,
        }
    }
}

impl Signature {
    /// A placeholder signature (the empty encoding), used in a candidate
    /// block before sealing overwrites it.
    pub fn empty() -> (r: Self)
        ensures
            r@ == Seq::<u8>::empty(),
    {
        Signature { bytes: Vec::new() }
    }

    /// Parses a hex-encoded signature; fails on invalid hex or on bytes
    /// that are not a valid DER-encoded ECDSA signature.
    pub fn from_hex(s: &str) -> (r: Option<Signature>)
        ensures
            ({
                let d = crate::hex::spec_hex_decode(s.spec_bytes());
                match r {
                    Option::Some(g) => d matches Some(b) && canon_sig(b) == Some(g@),
                    Option::None => d matches Some(b) ==> canon_sig(b) is None,
                }
            }),
    {
        match crate::hex::hex_decode(s) {
            Option::Some(bytes) => match der_canonical(&bytes) {
                Option::Some(canon) => Some(Signature { bytes: canon }),
                Option::None => None,
            },
            Option::None => None,
        }
    }

    /// This signature's DER encoding as lowercase hex text (ASCII bytes).
    pub fn to_hex(&self) -> (r: Vec<u8>)
        ensures
            r@ == crate::hex::spec_hex_encode(self@),
    {
        crate::hex::hex_encode(&self.bytes)
    }

    /// The DER encoding.
    pub fn as_bytes(&self) -> (r: &Vec<u8>)
        ensures
            r@ == self@,
    {
        &self.bytes
    }
}

/// The canonical SEC1-compressed form of a public-key encoding.
///
/// Relies on `k256::ecdsa::VerifyingKey::from_sec1_bytes` (which accepts
/// exactly the valid SEC1 point encodings) and `to_encoded_point(true)`:
/// parsing a compressed encoding and re-compressing it reproduces the same
/// bytes, so canonicalization is idempotent.
#[verifier::external_body]
fn sec1_canonical(bytes: &Vec<u8>) -> (r: Option<Vec<u8>>)
    ensures
        match r {
            Option::Some(v) => canon_pub(bytes@) == Some(v@) && canon_pub(v@) == Some(v@),
            Option::None => canon_pub(bytes@) is None,
        },
{
    match k256::ecdsa::VerifyingKey::from_sec1_bytes(bytes.as_slice()) {
        Ok(vk) => Some(vk.to_encoded_point(true).as_bytes().to_vec()),
        Err(_) => None,
    }
}

/// The canonical DER form of a signature encoding.
///
/// Relies on `k256::ecdsa::Signature::from_der` (which accepts exactly the
/// valid DER-encoded ECDSA signatures) and `to_der`.
#[verifier::external_body]
fn der_canonical(bytes: &Vec<u8>) -> (r: Option<Vec<u8>>)
    ensures
        match r {
            Option::Some(v) => canon_sig(bytes@) == Some(v@),
            Option::None => canon_sig(bytes@) is None,
        },
{
    match k256::ecdsa::Signature::from_der(bytes.as_slice()) {
        Ok(sig) => Some(sig.to_der().as_bytes().to_vec()),
        Err(_) => None,
    }
}

/// The canonical scalar form of a private-key encoding.
///
/// Relies on `k256::ecdsa::SigningKey::from_slice` (which accepts exactly
/// the valid non-zero scalars) and `to_bytes`.
#[verifier::external_body]
fn scalar_canonical(bytes: &Vec<u8>) -> (r: Option<Vec<u8>>)
    ensures
        match r {
            Option::Some(v) => canon_priv(bytes@) == Some(v@),
            Option::None => canon_priv(bytes@) is None,
        },
{
    match k256::ecdsa::SigningKey::from_slice(bytes.as_slice()) {
        Ok(sk) => Some(sk.to_bytes().to_vec()),
        Err(_) => None,
    }
}

} // verus!
