//! The canonical byte encoding of signable data. Signatures and hashes cover
//! an explicitly fixed, deterministic, length-prefixed concatenation of
//! fields — this exact byte sequence is the signing and hashing contract
//! shared by producer and verifier.

use vstd::prelude::*;
use crate::block::{Block, BlockData, BlockModel, DataModel};

verus! {

/// A `u64` as eight little-endian bytes.
#[verifier::opaque]
pub open spec fn spec_u64_le(x: u64) -> Seq<u8> {
    seq![
        (x % 256) as u8,
        (x / 256 % 256) as u8,
        (x / 65536 % 256) as u8,
        (x / 16777216 % 256) as u8,
        (x / 4294967296 % 256) as u8,
        (x / 1099511627776 % 256) as u8,
        (x / 281474976710656 % 256) as u8,
        (x / 72057594037927936 % 256) as u8,
    ]
}

/// A byte sequence prefixed by its length as a little-endian `u64`.
pub open spec fn spec_lp(b: Seq<u8>) -> Seq<u8> {
    spec_u64_le(b.len() as u64) + b
}

/// The bytes covered by an event's signature: a variant tag, then the
/// event's fields except the signature, in a fixed order.
#[verifier::opaque]
pub open spec fn spec_data_signable(d: DataModel) -> Seq<u8> {
    match d {
        DataModel::CreateWallet { id, key, time, .. } => seq![0u8] + spec_u64_le(id) + spec_lp(
            key,
        ) + spec_u64_le(time),
        DataModel::Transaction { fee, amount, time, sender, receiver, .. } => seq![1u8]
            + spec_u64_le(fee) + spec_u64_le(amount) + spec_u64_le(time) + spec_lp(sender)
            + spec_lp(receiver),
    }
}

/// An event's signature bytes.
pub open spec fn spec_data_signature(d: DataModel) -> Seq<u8> {
    match d {
        DataModel::CreateWallet { signature, .. } => signature,
        DataModel::Transaction { signature, .. } => signature,
    }
}

/// The full encoding of an event as stored in a block: its signable bytes
/// followed by its length-prefixed signature.
pub open spec fn spec_data_full(d: DataModel) -> Seq<u8> {
    spec_data_signable(d) + spec_lp(spec_data_signature(d))
}

/// An event's signable bytes do not depend on its signature field.
pub proof fn lemma_signable_ignores_signature(a: DataModel, b: DataModel)
    requires
        a matches DataModel::CreateWallet { id, key, time, .. } ==> (b matches
            DataModel::CreateWallet { id: id2, key: key2, time: time2, .. } && id2 == id && key2
            == key && time2 == time),
        a matches DataModel::Transaction { fee, amount, time, sender, receiver, .. } ==> (b matches
            DataModel::Transaction {
                fee: fee2,
                amount: amount2,
                time: time2,
                sender: sender2,
                receiver: receiver2,
                ..
            } && fee2 == fee && amount2 == amount && time2 == time && sender2 == sender
            && receiver2 == receiver),
    ensures
        spec_data_signable(a) == spec_data_signable(b),
{
    reveal(spec_data_signable);
}

/// The concatenated full encodings of the first `n` events.
pub open spec fn spec_events_take(ds: Seq<DataModel>, n: int) -> Seq<u8>
    decreases n,
{
    if n <= 0 {
        Seq::empty()
    } else {
        spec_events_take(ds, n - 1) + spec_data_full(ds[n - 1])
    }
}

/// The bytes covered by a block's stored (unsigned) hash: every field except
/// the miner signature and the stored hash itself.
pub open spec fn spec_block_unsigned(b: BlockModel) -> Seq<u8> {
    spec_u64_le(b.id) + spec_u64_le(b.nonce) + spec_lp(b.miner) + spec_u64_le(b.time) + spec_u64_le(
        b.data.len() as u64,
    ) + spec_events_take(b.data, b.data.len() as int) + spec_lp(b.previous_hash)
}

/// The bytes covered by a block's sealed (signed) hash: the unsigned bytes
/// followed by the length-prefixed miner signature.
pub open spec fn spec_block_signed(b: BlockModel) -> Seq<u8> {
    spec_block_unsigned(b) + spec_lp(b.signature)
}

/// Appends the little-endian encoding of `x`.
pub fn push_u64_le(out: &mut Vec<u8>, x: u64)
    ensures
        final(out)@ == old(out)@ + spec_u64_le(x),
{
    proof {
        reveal(spec_u64_le);
    }
    out.push((x % 256) as u8);
    out.push((x / 256 % 256) as u8);
    out.push((x / 65536 % 256) as u8);
    out.push((x / 16777216 % 256) as u8);
    out.push((x / 4294967296 % 256) as u8);
    out.push((x / 1099511627776 % 256) as u8);
    out.push((x / 281474976710656 % 256) as u8);
    out.push((x / 72057594037927936 % 256) as u8);
    proof {
        assert(out@ =~= old(out)@ + spec_u64_le(x));
    }
}

/// Appends a length-prefixed byte sequence.
pub fn push_lp(out: &mut Vec<u8>, b: &Vec<u8>)
    ensures
        final(out)@ == old(out)@ + spec_lp(b@),
{
    push_u64_le(out, b.len() as u64);
    let ghost mid = out@;
    let mut i: usize = 0;
    while i < b.len()
        invariant
            i <= b.len(),
            out@ == mid + b@.take(i as int),
        decreases b.len() - i,
    {
        out.push(b[i]);
        proof {
            assert(b@.take(i + 1) =~= b@.take(i as int).push(b@[i as int]));
            assert(mid + b@.take(i + 1) =~= (mid + b@.take(i as int)).push(b@[i as int]));
        }
        i = i + 1;
    }
    proof {
        assert(b@.take(b@.len() as int) =~= b@);
        assert(out@ =~= old(out)@ + spec_lp(b@));
    }
}

/// Appends the signable bytes of an event.
pub fn push_data_signable(out: &mut Vec<u8>, d: &BlockData)
    ensures
        final(out)@ == old(out)@ + spec_data_signable(d@),
{
    proof {
        reveal(spec_data_signable);
    }
    match d {
        BlockData::CreateWallet { id, key, time, .. } => {
            out.push(0u8);
            push_u64_le(out, *id);
            push_lp(out, key.as_bytes());
            push_u64_le(out, time.nanos());
        },
        BlockData::Transaction { fee, amount, time, sender, receiver, .. } => {
            out.push(1u8);
            push_u64_le(out, *fee);
            push_u64_le(out, *amount);
            push_u64_le(out, time.nanos());
            push_lp(out, sender.as_bytes());
            push_lp(out, receiver.as_bytes());
        },
    }
    proof {
        assert(out@ =~= old(out)@ + spec_data_signable(d@));
    }
}

/// Appends the full encoding of an event, signature included.
pub fn push_data_full(out: &mut Vec<u8>, d: &BlockData)
    ensures
        final(out)@ == old(out)@ + spec_data_full(d@),
{
    push_data_signable(out, d);
    match d {
        BlockData::CreateWallet { signature, .. } => push_lp(out, signature.as_bytes()),
        BlockData::Transaction { signature, .. } => push_lp(out, signature.as_bytes()),
    }
    proof {
        assert(out@ =~= old(out)@ + spec_data_full(d@));
    }
}

/// The unsigned bytes of a block.
pub fn block_unsigned_bytes(b: &Block) -> (r: Vec<u8>)
    ensures
        r@ == spec_block_unsigned(b@),
{
    let mut out: Vec<u8> = Vec::new();
    push_u64_le(&mut out, b.id);
    push_u64_le(&mut out, b.nonce);
    push_lp(&mut out, b.miner.as_bytes());
    push_u64_le(&mut out, b.time.nanos());
    push_u64_le(&mut out, b.data.len() as u64);
    let ghost mid = out@;
    let mut i: usize = 0;
    while i < b.data.len()
        invariant
            i <= b.data.len(),
            out@ == mid + spec_events_take(b@.data, i as int),
        decreases b.data.len() - i,
    {
        push_data_full(&mut out, &b.data[i]);
        proof {
            assert(b@.data[i as int] == b.data@[i as int]@);
            assert(spec_events_take(b@.data, i + 1) == spec_events_take(b@.data, i as int)
                + spec_data_full(b@.data[i as int]));
            assert(out@ =~= mid + spec_events_take(b@.data, i + 1));
        }
        i = i + 1;
    }
    push_lp(&mut out, b.previous_hash.bytes());
    proof {
        assert(out@ =~= spec_block_unsigned(b@));
    }
    out
}

/// The signed bytes of a block.
pub fn block_signed_bytes(b: &Block) -> (r: Vec<u8>)
    ensures
        r@ == spec_block_signed(b@),
{
    let mut out = block_unsigned_bytes(b);
    push_lp(&mut out, b.signature.as_bytes());
    proof {
        assert(out@ =~= spec_block_signed(b@));
    }
    out
}

} // verus!
