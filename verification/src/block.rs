//! Ledger events, blocks and the chain: hashing, proof-of-work sealing and
//! whole-chain validation.
//!
//! Each type has a mathematical model (`DataModel`, `BlockModel`) of plain
//! values — byte sequences for keys, signatures and hashes, integers for
//! times — and every contract speaks over those models.

use vstd::prelude::*;
use crate::codec::{
    spec_block_signed, spec_block_unsigned, spec_data_signable, block_signed_bytes,
    block_unsigned_bytes,
};
use crate::hash::{sha3_of, sha3_256};
use crate::key::{sig_verifies, public_of, PublicKey, PrivateKey, Signature};
use crate::time::UtcDateTime;

verus! {

/// The proof-of-work target: the leading byte a sealed hash must start with.
pub const HASH_DIFFICULTY: u8 = 0xFC;

/// A ledger event: a signed intent to create a wallet or transfer value.
/// `signature` covers the event's other fields (see `codec`); a transfer is
/// signed by `sender`, a wallet creation by the new wallet's own key.
pub enum BlockData {
    CreateWallet { id: u64, key: PublicKey, time: UtcDateTime, signature: Signature },
    Transaction {
        fee: u64,
        amount: u64,
        time: UtcDateTime,
        sender: PublicKey,
        receiver: PublicKey,
        signature: Signature,
    },
}

/// The mathematical model of a ledger event.
pub ghost enum DataModel {
    CreateWallet { id: u64, key: Seq<u8>, time: u64, signature: Seq<u8> },
    Transaction {
        fee: u64,
        amount: u64,
        time: u64,
        sender: Seq<u8>,
        receiver: Seq<u8>,
        signature: Seq<u8>,
    },
}

impl View for BlockData {
    type V = DataModel;

    open spec fn view(&self) -> DataModel {
        match self {
            BlockData::CreateWallet { id, key, time, signature } => DataModel::CreateWallet {
                id: *id,
                key: key@,
                time: time@,
                signature: signature@,
            },
            BlockData::Transaction { fee, amount, time, sender, receiver, signature } => {
                DataModel::Transaction {
                    fee: *fee,
                    amount: *amount,
                    time: time@,
                    sender: sender@,
                    receiver: receiver@,
                    signature: signature@,
                }
            },
        }
    }
}

impl Clone for BlockData {
    fn clone(&self) -> (r: Self)
        ensures
            r@ == self@,
    {
        match self {
            BlockData::CreateWallet { id, key, time, signature } => BlockData::CreateWallet {
                id: *id,
                key: key.clone(),
                time: *time,
                signature: signature.clone(),
            },
            BlockData::Transaction { fee, amount, time, sender, receiver, signature } => {
                BlockData::Transaction {
                    fee: *fee,
                    amount: *amount,
                    time: *time,
                    sender: sender.clone(),
                    receiver: receiver.clone(),
                    signature: signature.clone(),
                }
            },
        }
    }
}

/// A sealed unit of events, linked to its predecessor by `previous_hash`.
/// `hash` stores the sealed (signed) hash once sealing succeeds.
pub struct Block {
    pub id: u64,
    pub nonce: u64,
    pub miner: PublicKey,
    pub time: UtcDateTime,
    pub data: Vec<BlockData>,
    pub previous_hash: crate::hash::Hash,
    pub signature: Signature,
    pub hash: crate::hash::Hash,
}

/// The mathematical model of a block.
pub ghost struct BlockModel {
    pub id: u64,
    pub nonce: u64,
    pub miner: Seq<u8>,
    pub time: u64,
    pub data: Seq<DataModel>,
    pub previous_hash: Seq<u8>,
    pub signature: Seq<u8>,
    pub hash: Seq<u8>,
}

impl View for Block {
    type V = BlockModel;

    open spec fn view(&self) -> BlockModel {
        BlockModel {
            id: self.id,
            nonce: self.nonce,
            miner: self.miner@,
            time: self.time@,
            data: Seq::new(self.data@.len(), |i: int| self.data@[i]@),
            previous_hash: self.previous_hash@,
            signature: self.signature@,
            hash: self.hash@,
        }
    }
}

/// The hash covered by an event's signature.
pub open spec fn spec_data_hash(d: DataModel) -> Seq<u8> {
    sha3_of(spec_data_signable(d))
}

/// A block's unsigned hash: what the miner signs.
pub open spec fn spec_block_hash(b: BlockModel) -> Seq<u8> {
    sha3_of(spec_block_unsigned(b))
}

/// A block's sealed (signed) hash: what must meet the difficulty target.
pub open spec fn spec_block_signed_hash(b: BlockModel) -> Seq<u8> {
    sha3_of(spec_block_signed(b))
}

/// Whether a hash meets the proof-of-work target.
pub open spec fn meets_difficulty(h: Seq<u8>) -> bool {
    h.len() >= 1 && h[0] == HASH_DIFFICULTY
}

/// A block is sealed when its stored hash is its recomputed signed hash,
/// that hash meets the difficulty target, and the miner's signature over the
/// unsigned hash verifies.
pub open spec fn spec_block_sealed(b: BlockModel) -> bool {
    &&& b.hash == spec_block_signed_hash(b)
    &&& meets_difficulty(b.hash)
    &&& sig_verifies(b.miner, spec_block_hash(b), b.signature)
}

/// What chain validation checks of an adjacent pair of blocks.
pub open spec fn spec_pair_ok(a: BlockModel, b: BlockModel) -> bool {
    &&& b.id == a.id + 1
    &&& spec_block_sealed(a)
    &&& spec_block_sealed(b)
    &&& b.previous_hash == a.hash
}

/// Validity of the first `n` blocks: every adjacent pair checks out. A chain
/// of length 0 or 1 is trivially valid.
pub open spec fn spec_chain_valid_upto(c: Seq<BlockModel>, n: int) -> bool
    decreases n,
{
    n <= 1 || (spec_chain_valid_upto(c, n - 1) && spec_pair_ok(c[n - 2], c[n - 1]))
}

/// Whole-chain validity.
pub open spec fn spec_chain_valid(c: Seq<BlockModel>) -> bool {
    spec_chain_valid_upto(c, c.len() as int)
}

/// Invalidity of a prefix persists in every longer prefix.
proof fn lemma_upto_mono(c: Seq<BlockModel>, k: int, n: int)
    requires
        k <= n,
        !spec_chain_valid_upto(c, k),
    ensures
        !spec_chain_valid_upto(c, n),
    decreases n,
{
    if n > k {
        lemma_upto_mono(c, k, n - 1);
    }
}

/// A valid prefix has every adjacent pair in it checked.
proof fn lemma_upto_pair(c: Seq<BlockModel>, n: int, i: int)
    requires
        spec_chain_valid_upto(c, n),
        1 <= i < n,
    ensures
        spec_pair_ok(c[i - 1], c[i]),
    decreases n,
{
    if i < n - 1 {
        lemma_upto_pair(c, n - 1, i);
    }
}

/// One bad adjacent pair makes the whole chain invalid.
proof fn lemma_bad_pair_invalid(c: Seq<BlockModel>, i: int)
    requires
        1 <= i < c.len(),
        !spec_pair_ok(c[i - 1], c[i]),
    ensures
        !spec_chain_valid(c),
{
    assert(!spec_chain_valid_upto(c, i + 1));
    lemma_upto_mono(c, i + 1, c.len() as int);
}

/// The unsigned bytes of a block do not depend on its signature or stored
/// hash fields.
proof fn lemma_unsigned_ignores_seal(a: BlockModel, b: BlockModel)
    requires
        a.id == b.id,
        a.nonce == b.nonce,
        a.miner == b.miner,
        a.time == b.time,
        a.data == b.data,
        a.previous_hash == b.previous_hash,
    ensures
        spec_block_unsigned(a) == spec_block_unsigned(b),
{
}

/// The signed bytes of a block do not depend on its stored hash field.
proof fn lemma_signed_ignores_hash(a: BlockModel, b: BlockModel)
    requires
        a.id == b.id,
        a.nonce == b.nonce,
        a.miner == b.miner,
        a.time == b.time,
        a.data == b.data,
        a.previous_hash == b.previous_hash,
        a.signature == b.signature,
    ensures
        spec_block_signed(a) == spec_block_signed(b),
{
}

impl BlockData {
    /// The hash covered by this event's signature: a 32-byte digest of the
    /// event's signable bytes, so re-signing an event never changes it.
    pub fn hash(&self) -> (r: crate::hash::Hash)
        ensures
            r@ == spec_data_hash(self@),
            r@.len() == 32,
    {
        let mut bytes: Vec<u8> = Vec::new();
        crate::codec::push_data_signable(&mut bytes, self);
        sha3_256(&bytes)
    }
}

impl Block {
    /// The unsigned hash: a 32-byte digest of every field except the miner
    /// signature and the stored hash. This is what the miner signs.
    pub fn hash(&self) -> (r: crate::hash::Hash)
        ensures
            r@ == spec_block_hash(self@),
            r@.len() == 32,
    {
        let bytes = block_unsigned_bytes(self);
        sha3_256(&bytes)
    }

    /// The sealed (signed) hash: a 32-byte digest of the unsigned fields
    /// plus the miner signature. This is what must meet the difficulty
    /// target.
    pub fn signed_hash(&self) -> (r: crate::hash::Hash)
        ensures
            r@ == spec_block_signed_hash(self@),
            r@.len() == 32,
    {
        let bytes = block_signed_bytes(self);
        sha3_256(&bytes)
    }
}

/// Whether a computed hash meets the proof-of-work target.
pub fn meets_difficulty_check(h: &crate::hash::Hash) -> (r: bool)
    ensures
        r == meets_difficulty(h@),
{
    let b = h.bytes();
    b.len() >= 1 && b[0] == HASH_DIFFICULTY
}

/// Whether a single block is sealed.
fn seal_check(x: &Block) -> (r: bool)
    ensures
        r == spec_block_sealed(x@),
{
    let sh = x.signed_hash();
    if !crate::bytes_eq(x.hash.bytes(), sh.bytes()) {
        return false;
    }
    if !meets_difficulty_check(&x.hash) {
        return false;
    }
    let uh = x.hash();
    x.miner.verify(&uh, &x.signature)
}

/// Whether an adjacent pair of blocks checks out.
fn pair_check(a: &Block, b: &Block) -> (r: bool)
    ensures
        r == spec_pair_ok(a@, b@),
{
    if a.id == u64::MAX || b.id != a.id + 1 {
        return false;
    }
    if !seal_check(a) {
        return false;
    }
    if !seal_check(b) {
        return false;
    }
    crate::bytes_eq(b.previous_hash.bytes(), a.hash.bytes())
}

/// The ordered, append-only sequence of blocks.
pub struct BlockChain {
    chain: Vec<Block>,
}

impl View for BlockChain {
    type V = Seq<BlockModel>;

    closed spec fn view(&self) -> Seq<BlockModel> {
        Seq::new(self.chain@.len(), |i: int| self.chain@[i]@)
    }
}

impl Default for BlockChain {
    fn default() -> (r: Self)
        ensures
            r@ == Seq::<BlockModel>::empty(),
    {
        BlockChain::new()
    }
}

impl BlockChain {
    pub fn new() -> (r: Self)
        ensures
            r@ == Seq::<BlockModel>::empty(),
    {
        let r = BlockChain { chain: Vec::new() };
        proof {
            assert(r@ =~= Seq::<BlockModel>::empty());
        }
        r
    }

    /// The blocks, oldest first.
    pub fn blocks(&self) -> (r: &Vec<Block>)
        ensures
            r@.len() == self@.len(),
            forall|i: int| 0 <= i < r@.len() ==> r@[i]@ == self@[i],
    {
        &self.chain
    }

    /// Appends a block. The chain is append-only: once appended a block is
    /// never mutated.
    pub fn add_block(&mut self, block: Block)
        ensures
            final(self)@ == old(self)@.push(block@),
    {
        self.chain.push(block);
        proof {
            assert(self@ =~= old(self)@.push(block@));
        }
    }

    /// Seals a candidate block by searching for a nonce and signature whose
    /// signed hash meets the difficulty target. On success the block's
    /// `signature` and `hash` fields hold the seal; `id`, `miner`, `time`,
    /// `data` and `previous_hash` are never altered, and the nonce never
    /// moves backwards. Returns `false` only if the signing primitive fails
    /// or the nonce space is exhausted; a failed attempt leaves the stored
    /// hash untouched (though the nonce and signature may have advanced).
    pub fn mine_block(block: &mut Block, key: &PrivateKey) -> (r: bool)
        ensures
            final(block).id == old(block).id,
            final(block).miner == old(block).miner,
            final(block).time == old(block).time,
            final(block).data == old(block).data,
            final(block).previous_hash == old(block).previous_hash,
            final(block).nonce >= old(block).nonce,
            r ==> final(block)@.hash == spec_block_signed_hash(final(block)@),
            r ==> meets_difficulty(final(block)@.hash),
            r ==> sig_verifies(public_of(key@), spec_block_hash(final(block)@), final(block)@.signature),
            !r ==> final(block).hash == old(block).hash,
    {
        loop
            invariant
                block.id == old(block).id,
                block.miner == old(block).miner,
                block.time == old(block).time,
                block.data == old(block).data,
                block.previous_hash == old(block).previous_hash,
                block.nonce >= old(block).nonce,
                block.hash == old(block).hash,
            decreases u64::MAX - block.nonce,
        {
            let unsigned = block.hash();
            let signature = match key.sign(&unsigned) {
                Option::Some(s) => s,
                Option::None => {
                    return false;
                },
            };
            let ghost before = block@;
            block.signature = signature;
            proof {
                lemma_unsigned_ignores_seal(block@, before);
            }
            let sealed = block.signed_hash();
            if meets_difficulty_check(&sealed) {
                let ghost mid = block@;
                block.hash = sealed;
                proof {
                    lemma_signed_ignores_hash(block@, mid);
                    lemma_unsigned_ignores_seal(block@, mid);
                }
                return true;
            }
            if block.nonce == u64::MAX {
                return false;
            }
            block.nonce = block.nonce + 1;
        }
    }

    /// Whole-chain validation: every adjacent pair is linked, sealed and
    /// consecutively numbered. A chain of length 0 or 1 is trivially valid.
    pub fn validate(&self) -> (r: bool)
        ensures
            r == spec_chain_valid(self@),
    {
        let n = self.chain.len();
        if n <= 1 {
            return true;
        }
        let mut i: usize = 1;
        while i < n
            invariant
                1 <= i <= n,
                n == self.chain.len(),
                spec_chain_valid_upto(self@, i as int),
            decreases n - i,
        {
            let ok = pair_check(&self.chain[i - 1], &self.chain[i]);
            proof {
                assert(self.chain@[i - 1]@ == self@[i - 1]);
                assert(self.chain@[i as int]@ == self@[i as int]);
            }
            if !ok {
                proof {
                    lemma_bad_pair_invalid(self@, i as int);
                }
                return false;
            }
            i = i + 1;
        }
        true
    }

    /// Validity of this chain with one more block appended, without
    /// modifying anything.
    pub fn valid_with(&self, block: &Block) -> (r: bool)
        ensures
            r == spec_chain_valid(self@.push(block@)),
    {
        let ghost c2 = self@.push(block@);
        let n = self.chain.len();
        let mut i: usize = 1;
        while i < n
            invariant
                1 <= i,
                i <= n || n == 0,
                n == self.chain.len(),
                c2 == self@.push(block@),
                spec_chain_valid_upto(c2, i as int),
            decreases n - i,
        {
            let ok = pair_check(&self.chain[i - 1], &self.chain[i]);
            proof {
                assert(c2[i - 1] == self.chain@[i - 1]@);
                assert(c2[i as int] == self.chain@[i as int]@);
            }
            if !ok {
                proof {
                    lemma_bad_pair_invalid(c2, i as int);
                }
                return false;
            }
            i = i + 1;
        }
        if n >= 1 {
            let ok = pair_check(&self.chain[n - 1], block);
            proof {
                assert(c2[n - 1] == self.chain@[n - 1]@);
                assert(c2[n as int] == block@);
            }
            if !ok {
                proof {
                    lemma_bad_pair_invalid(c2, n as int);
                }
                return false;
            }
        }
        true
    }

    /// Builds the candidate block for the next sealing attempt: id one past
    /// the tip's (0 for an empty chain), previous hash the tip's hash (the
    /// empty hash for an empty chain), nonce 0, and placeholder signature
    /// and hash awaiting the seal. `None` only when the tip's id is already
    /// the largest representable one.
    pub fn make_candidate(
        &self,
        miner: PublicKey,
        time: UtcDateTime,
        data: Vec<BlockData>,
    ) -> (r: Option<Block>)
        ensures
            (r is Some) == (self@.len() == 0 || self@.last().id < u64::MAX),
            r matches Some(b) ==> {
                &&& b.id == if self@.len() == 0 {
                    0u64
                } else {
                    (self@.last().id + 1) as u64
                }
                &&& b.nonce == 0
                &&& b.miner == miner
                &&& b.time == time
                &&& b.data == data
                &&& b@.previous_hash == if self@.len() == 0 {
                    Seq::<u8>::empty()
                } else {
                    self@.last().hash
                }
                &&& b@.signature == Seq::<u8>::empty()
                &&& b@.hash == Seq::<u8>::empty()
            },
    {
        let n = self.chain.len();
        if n == 0 {
            Some(
                Block {
                    id: 0,
                    nonce: 0,
                    miner,
                    time,
                    data,
                    previous_hash: crate::hash::Hash::empty(),
                    signature: Signature::empty(),
                    hash: crate::hash::Hash::empty(),
                },
            )
        } else {
            let tip = &self.chain[n - 1];
            proof {
                assert(tip@ == self@[n - 1]);
                assert(self@[n - 1] == self@.last());
            }
            if tip.id == u64::MAX {
                return None;
            }
            Some(
                Block {
                    id: tip.id + 1,
                    nonce: 0,
                    miner,
                    time,
                    data,
                    previous_hash: tip.hash.clone(),
                    signature: Signature::empty(),
                    hash: crate::hash::Hash::empty(),
                },
            )
        }
    }
}

/// Tampering with a block's stored hash in a valid chain of two or more
/// blocks makes the chain invalid.
pub proof fn lemma_tamper_hash(c: Seq<BlockModel>, i: int, h2: Seq<u8>)
    requires
        spec_chain_valid(c),
        c.len() >= 2,
        0 <= i < c.len(),
        h2 != c[i].hash,
    ensures
        !spec_chain_valid(c.update(i, BlockModel { hash: h2, ..c[i] })),
{
    let c2 = c.update(i, BlockModel { hash: h2, ..c[i] });
    let j: int = if i >= 1 {
        i
    } else {
        1
    };
    lemma_upto_pair(c, c.len() as int, j);
    lemma_signed_ignores_hash(c2[i], c[i]);
    assert(spec_block_signed_hash(c2[i]) == spec_block_signed_hash(c[i]));
    assert(!spec_block_sealed(c2[i]));
    assert(!spec_pair_ok(c2[j - 1], c2[j]));
    lemma_bad_pair_invalid(c2, j);
}

/// Tampering with a non-genesis block's stored previous-hash link in a valid
/// chain makes the chain invalid.
pub proof fn lemma_tamper_previous_hash(c: Seq<BlockModel>, i: int, p2: Seq<u8>)
    requires
        spec_chain_valid(c),
        1 <= i < c.len(),
        p2 != c[i].previous_hash,
    ensures
        !spec_chain_valid(c.update(i, BlockModel { previous_hash: p2, ..c[i] })),
{
    let c2 = c.update(i, BlockModel { previous_hash: p2, ..c[i] });
    lemma_upto_pair(c, c.len() as int, i);
    assert(c[i].previous_hash == c[i - 1].hash);
    assert(!spec_pair_ok(c2[i - 1], c2[i]));
    lemma_bad_pair_invalid(c2, i);
}

/// Tampering with a block's id in a valid chain of two or more blocks makes
/// the chain invalid.
pub proof fn lemma_tamper_id(c: Seq<BlockModel>, i: int, id2: u64)
    requires
        spec_chain_valid(c),
        c.len() >= 2,
        0 <= i < c.len(),
        id2 != c[i].id,
    ensures
        !spec_chain_valid(c.update(i, BlockModel { id: id2, ..c[i] })),
{
    let c2 = c.update(i, BlockModel { id: id2, ..c[i] });
    if i >= 1 {
        lemma_upto_pair(c, c.len() as int, i);
        assert(c[i].id == c[i - 1].id + 1);
        assert(!spec_pair_ok(c2[i - 1], c2[i]));
        lemma_bad_pair_invalid(c2, i);
    } else {
        lemma_upto_pair(c, c.len() as int, 1);
        assert(c[1].id == c[0].id + 1);
        assert(!spec_pair_ok(c2[0], c2[1]));
        lemma_bad_pair_invalid(c2, 1);
    }
}

} // verus!
