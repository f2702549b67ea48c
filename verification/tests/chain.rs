//! Sealing and whole-chain validation.

use farcoin::block::{Block, BlockChain, HASH_DIFFICULTY};
use farcoin::key::{PrivateKey, PublicKey};
use farcoin::time::UtcDateTime;

fn test_key(last: u8) -> PrivateKey {
    let mut bytes = [0u8; 32];
    bytes[31] = last;
    let text = String::from_utf8(farcoin::hex::hex_encode(&bytes.to_vec())).unwrap();
    PrivateKey::from_hex(&text).unwrap()
}

fn clone_block(b: &Block) -> Block {
    Block {
        id: b.id,
        nonce: b.nonce,
        miner: b.miner.clone(),
        time: b.time,
        data: b.data.clone(),
        previous_hash: b.previous_hash.clone(),
        signature: b.signature.clone(),
        hash: b.hash.clone(),
    }
}

fn sealed_pair() -> (BlockChain, Block, Block, PrivateKey) {
    let sk = test_key(1);
    let pk = PublicKey::from_private(&sk);
    let mut chain = BlockChain::new();
    let mut b0 = chain
        .make_candidate(pk.clone(), UtcDateTime::from_nanos(100), Vec::new())
        .unwrap();
    assert!(BlockChain::mine_block(&mut b0, &sk));
    chain.add_block(clone_block(&b0));
    let mut b1 = chain
        .make_candidate(pk, UtcDateTime::from_nanos(200), Vec::new())
        .unwrap();
    assert!(BlockChain::mine_block(&mut b1, &sk));
    chain.add_block(clone_block(&b1));
    (chain, b0, b1, sk)
}

fn chain_of(blocks: Vec<Block>) -> BlockChain {
    let mut chain = BlockChain::new();
    for b in blocks {
        chain.add_block(b);
    }
    chain
}

#[test]
fn sealing_meets_difficulty_and_numbers_blocks() {
    let (chain, b0, b1, _) = sealed_pair();
    assert_eq!(b0.id, 0);
    assert_eq!(b1.id, 1);
    assert_eq!(b0.hash.bytes()[0], HASH_DIFFICULTY);
    assert_eq!(b1.hash.bytes()[0], HASH_DIFFICULTY);
    assert_eq!(b1.previous_hash, b0.hash);
    assert!(chain.validate());
}

#[test]
fn sealing_preserves_candidate_fields() {
    let sk = test_key(2);
    let pk = PublicKey::from_private(&sk);
    let chain = BlockChain::new();
    let mut b = chain
        .make_candidate(pk.clone(), UtcDateTime::from_nanos(42), Vec::new())
        .unwrap();
    assert!(BlockChain::mine_block(&mut b, &sk));
    assert_eq!(b.id, 0);
    assert_eq!(b.time.nanos(), 42);
    assert_eq!(b.miner, pk);
    assert_eq!(b.previous_hash.bytes().len(), 0);
    // the sealed hash really is the recomputed signed hash
    assert_eq!(b.hash, b.signed_hash());
    assert!(b.miner.verify(&b.hash(), &b.signature));
}

#[test]
fn empty_and_single_block_chains_are_trivially_valid() {
    let (_, b0, _, _) = sealed_pair();
    assert!(BlockChain::new().validate());
    assert!(chain_of(vec![b0]).validate());
}

#[test]
fn tampered_stored_hash_invalidates_chain() {
    let (_, b0, b1, _) = sealed_pair();
    let mut bad = clone_block(&b1);
    let mut bytes = bad.hash.bytes().clone();
    bytes[5] ^= 0x01;
    bad.hash = farcoin::hash::Hash::new(bytes);
    assert!(!chain_of(vec![b0, bad]).validate());
}

#[test]
fn swapped_signature_invalidates_chain() {
    let (_, b0, b1, _) = sealed_pair();
    let mut bad = clone_block(&b1);
    // a well-formed but wrong signature: the sealed hash no longer matches
    bad.signature = b0.signature.clone();
    assert!(!chain_of(vec![b0, bad]).validate());
}

#[test]
fn tampered_previous_hash_invalidates_chain() {
    let (_, b0, b1, _) = sealed_pair();
    let mut bad = clone_block(&b1);
    let mut bytes = bad.previous_hash.bytes().clone();
    bytes[0] ^= 0x80;
    bad.previous_hash = farcoin::hash::Hash::new(bytes);
    assert!(!chain_of(vec![b0, bad]).validate());
}

#[test]
fn tampered_id_invalidates_chain() {
    let (_, b0, b1, _) = sealed_pair();
    let mut bad = clone_block(&b1);
    bad.id = 7;
    assert!(!chain_of(vec![clone_block(&b0), bad]).validate());
    let mut bad0 = clone_block(&b0);
    bad0.id = 3;
    assert!(!chain_of(vec![bad0, b1]).validate());
}

#[test]
fn unlinked_blocks_invalidate_chain() {
    let (_, b0, _, sk) = sealed_pair();
    let pk = PublicKey::from_private(&sk);
    // a block sealed on an empty chain claims no predecessor; appending it
    // after b0 breaks both the numbering and the link
    let empty = BlockChain::new();
    let mut stray = empty
        .make_candidate(pk, UtcDateTime::from_nanos(300), Vec::new())
        .unwrap();
    assert!(BlockChain::mine_block(&mut stray, &sk));
    assert!(!chain_of(vec![b0, stray]).validate());
}
