//! Hash values: opaque byte sequences, with the empty sequence serving as a
//! distinguished "none" sentinel used before a value has been computed.

use vstd::prelude::*;
use sha3::Digest;

verus! {

/// The SHA3-256 digest of a byte sequence, a function of those bytes alone;
/// computed only by [`sha3_256`].
pub uninterp spec fn sha3_of(data: Seq<u8>) -> Seq<u8>;

/// An opaque hash value; equality is byte-exact.
#[derive(Debug)]
pub struct Hash {
    bytes: Vec<u8>,
}

impl View for Hash {
    type V = Seq<u8>;

    closed spec fn view(&self) -> Seq<u8> {
        self.bytes@
    }
}

impl Hash {
    pub fn new(bytes: Vec<u8>) -> (r: Self)
        ensures
            r@ == bytes@,
    {
        Hash { bytes }
    }

    /// The distinguished empty hash, used before a value has been computed.
    pub fn empty() -> (r: Self)
        ensures
            r@ == Seq::<u8>::empty(),
    {
        Hash { bytes: Vec::new() }
    }

    pub fn bytes(&self) -> (r: &Vec<u8>)
        ensures
            r@ == self@,
    {
        &self.bytes
    }

    /// This hash as lowercase hex text (ASCII bytes).
    pub fn to_hex(&self) -> (r: Vec<u8>)
        ensures
            r@ == crate::hex::spec_hex_encode(self@),
    {
        crate::hex::hex_encode(&self.bytes)
    }
}

impl Clone for Hash {
    fn clone(&self) -> (r: Self)
        ensures
            r@ == self@,
    {
        Hash { bytes: crate::clone_bytes(&self.bytes) }
    }
}

impl PartialEq for Hash {
    fn eq(&self, other: &Self) -> (r: bool) {
        crate::bytes_eq(&self.bytes, &other.bytes)
    }
}

impl vstd::std_specs::cmp::PartialEqSpecImpl for Hash {
    open spec fn obeys_eq_spec() -> bool {
        true
    }

    open spec fn eq_spec(&self, other: &Self) -> bool {
        self@ == other@
    }
}

/// The SHA3-256 digest of the given bytes.
///
/// Relies on `sha3::Sha3_256`: the digest is a function of the input bytes
/// alone, and its output size is fixed at 32 bytes.
#[verifier::external_body]
pub fn sha3_256(data: &Vec<u8>) -> (r: Hash)
    ensures
        r@ == sha3_of(data@),
        r@.len() == 32,
{
    let mut hasher = sha3::Sha3_256::new();
    hasher.update(data.as_slice());
    Hash { bytes: hasher.finalize().to_vec() }
}

} // verus!
