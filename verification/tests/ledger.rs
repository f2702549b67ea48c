//! The ledger state machine: wallet creation, transfers, sealing cycles,
//! replay and rejection semantics.

use farcoin::block::{Block, BlockChain, BlockData};
use farcoin::key::{PrivateKey, PublicKey, Signature};
use farcoin::time::UtcDateTime;
use farcoin::world::{AccountRef, Reason, WorldState};

fn test_key(last: u8) -> PrivateKey {
    let mut bytes = [0u8; 32];
    bytes[31] = last;
    let text = String::from_utf8(farcoin::hex::hex_encode(&bytes.to_vec())).unwrap();
    PrivateKey::from_hex(&text).unwrap()
}

fn clone_block(b: &Block) -> Block {
    Block {
        id: b.id,
        nonce: b.nonce,
        miner: b.miner.clone(),
        time: b.time,
        data: b.data.clone(),
        previous_hash: b.previous_hash.clone(),
        signature: b.signature.clone(),
        hash: b.hash.clone(),
    }
}

fn t(nanos: u64) -> UtcDateTime {
    UtcDateTime::from_nanos(nanos)
}

fn seal_cycle(world: &mut WorldState, miner_sk: &PrivateKey, time: u64) {
    let miner_pk = PublicKey::from_private(miner_sk);
    let data = world.take_waiting();
    assert!(!data.is_empty());
    let mut block = world.chain.make_candidate(miner_pk, t(time), data).unwrap();
    assert!(BlockChain::mine_block(&mut block, miner_sk));
    assert!(world.add_block(block));
}

fn balance(world: &WorldState, key: &PublicKey) -> u64 {
    world
        .query_balance(&AccountRef::ByKey(key.clone()))
        .unwrap()
}

/// Three funded wallets (ids 1, 2, 3 for a, b, m) sealed into one block.
fn funded_world() -> (WorldState, PrivateKey, PrivateKey, PrivateKey) {
    let (a, b, m) = (test_key(1), test_key(2), test_key(3));
    let mut world = WorldState::new(BlockChain::new()).unwrap();
    assert_eq!(
        world.submit_create_wallet(1, &PublicKey::from_private(&a), &a, t(10)),
        Ok(())
    );
    assert_eq!(
        world.submit_create_wallet(2, &PublicKey::from_private(&b), &b, t(20)),
        Ok(())
    );
    assert_eq!(
        world.submit_create_wallet(3, &PublicKey::from_private(&m), &m, t(30)),
        Ok(())
    );
    seal_cycle(&mut world, &m, 100);
    (world, a, b, m)
}

#[test]
fn new_wallet_balance_is_exactly_100() {
    let (world, a, b, m) = funded_world();
    assert_eq!(balance(&world, &PublicKey::from_private(&a)), 100);
    assert_eq!(balance(&world, &PublicKey::from_private(&b)), 100);
    assert_eq!(balance(&world, &PublicKey::from_private(&m)), 100);
}

#[test]
fn balance_queries_resolve_keys_and_ids() {
    let (world, a, _, _) = funded_world();
    assert_eq!(world.query_balance(&AccountRef::ById(1)), Ok(100));
    assert_eq!(
        world.query_balance(&AccountRef::ByKey(PublicKey::from_private(&a))),
        Ok(100)
    );
    assert_eq!(
        world.query_balance(&AccountRef::ById(99)),
        Err(Reason::NotFound)
    );
    assert_eq!(
        world.query_balance(&AccountRef::ByKey(PublicKey::from_private(&test_key(9)))),
        Err(Reason::NotFound)
    );
}

#[test]
fn end_to_end_transfer_settles_balances() {
    let (mut world, a, b, m) = funded_world();
    let (pa, pb, pm) = (
        PublicKey::from_private(&a),
        PublicKey::from_private(&b),
        PublicKey::from_private(&m),
    );
    assert_eq!(world.submit_transfer(&pa, &pb, &a, 30, 5, t(200)), Ok(()));
    seal_cycle(&mut world, &m, 300);
    assert_eq!(balance(&world, &pa), 70);
    assert_eq!(balance(&world, &pb), 125);
    assert_eq!(balance(&world, &pm), 105);
    assert!(world.query_validity());
    // an overdraft is rejected and changes nothing
    assert_eq!(
        world.submit_transfer(&pa, &pb, &a, 9999, 5, t(400)),
        Err(Reason::InsufficientFunds)
    );
    assert_eq!(balance(&world, &pa), 70);
    assert_eq!(balance(&world, &pb), 125);
    assert_eq!(balance(&world, &pm), 105);
}

#[test]
fn duplicate_wallet_id_is_a_conflict() {
    let (mut world, _, _, _) = funded_world();
    let other = test_key(9);
    assert_eq!(
        world.submit_create_wallet(1, &PublicKey::from_private(&other), &other, t(500)),
        Err(Reason::Conflict)
    );
}

#[test]
fn duplicate_wallet_key_is_a_conflict() {
    let (mut world, a, _, _) = funded_world();
    assert_eq!(
        world.submit_create_wallet(42, &PublicKey::from_private(&a), &a, t(500)),
        Err(Reason::Conflict)
    );
}

#[test]
fn duplicate_timestamp_is_a_conflict() {
    let (mut world, a, b, m) = funded_world();
    let (pa, pb) = (PublicKey::from_private(&a), PublicKey::from_private(&b));
    assert_eq!(world.submit_transfer(&pa, &pb, &a, 10, 1, t(200)), Ok(()));
    seal_cycle(&mut world, &m, 300);
    assert_eq!(
        world.submit_transfer(&pa, &pb, &a, 10, 1, t(200)),
        Err(Reason::Conflict)
    );
}

#[test]
fn invalid_amounts_and_fees_are_rejected() {
    let (mut world, a, b, _) = funded_world();
    let (pa, pb) = (PublicKey::from_private(&a), PublicKey::from_private(&b));
    assert_eq!(
        world.submit_transfer(&pa, &pb, &a, 0, 0, t(200)),
        Err(Reason::InvalidInput)
    );
    assert_eq!(
        world.submit_transfer(&pa, &pb, &a, 10, 10, t(200)),
        Err(Reason::InvalidInput)
    );
}

#[test]
fn unknown_accounts_are_not_found() {
    let (mut world, a, _, _) = funded_world();
    let pa = PublicKey::from_private(&a);
    let stranger = PublicKey::from_private(&test_key(9));
    assert_eq!(
        world.submit_transfer(&pa, &stranger, &a, 10, 1, t(200)),
        Err(Reason::NotFound)
    );
}

#[test]
fn wrong_private_key_is_unauthorized() {
    let (mut world, a, b, _) = funded_world();
    let (pa, pb) = (PublicKey::from_private(&a), PublicKey::from_private(&b));
    assert_eq!(
        world.submit_create_wallet(9, &pa, &b, t(500)),
        Err(Reason::Unauthorized)
    );
    assert_eq!(
        world.submit_transfer(&pa, &pb, &b, 10, 1, t(500)),
        Err(Reason::Unauthorized)
    );
}

#[test]
fn rejected_block_leaves_no_partial_mutation() {
    let (mut world, a, b, m) = funded_world();
    let (pa, pb, pm) = (
        PublicKey::from_private(&a),
        PublicKey::from_private(&b),
        PublicKey::from_private(&m),
    );
    let chain_len = world.chain.blocks().len();
    // a sealed block holding an invalid event (zero amount) is rejected whole
    let bad_event = BlockData::Transaction {
        fee: 0,
        amount: 0,
        time: t(200),
        sender: pa.clone(),
        receiver: pb.clone(),
        signature: Signature::empty(),
    };
    let mut bad_block = world
        .chain
        .make_candidate(pm.clone(), t(300), vec![bad_event])
        .unwrap();
    assert!(BlockChain::mine_block(&mut bad_block, &m));
    assert!(!world.add_block(bad_block));
    assert_eq!(world.chain.blocks().len(), chain_len);
    assert_eq!(balance(&world, &pa), 100);
    assert_eq!(balance(&world, &pb), 100);
    assert_eq!(balance(&world, &pm), 100);
}

#[test]
fn unsealed_block_is_rejected_without_applying_events() {
    let (mut world, a, b, m) = funded_world();
    let (pa, pb, pm) = (
        PublicKey::from_private(&a),
        PublicKey::from_private(&b),
        PublicKey::from_private(&m),
    );
    // a valid, signed transfer inside a block that was never sealed
    assert_eq!(world.submit_transfer(&pa, &pb, &a, 30, 5, t(200)), Ok(()));
    let data = world.take_waiting();
    let unsealed = world.chain.make_candidate(pm.clone(), t(300), data).unwrap();
    let chain_len = world.chain.blocks().len();
    assert!(!world.add_block(unsealed));
    assert_eq!(world.chain.blocks().len(), chain_len);
    assert_eq!(balance(&world, &pa), 100);
    assert_eq!(balance(&world, &pb), 100);
    assert_eq!(balance(&world, &pm), 100);
}

#[test]
fn replay_is_deterministic() {
    let (mut world, a, b, m) = funded_world();
    let (pa, pb, pm) = (
        PublicKey::from_private(&a),
        PublicKey::from_private(&b),
        PublicKey::from_private(&m),
    );
    assert_eq!(world.submit_transfer(&pa, &pb, &a, 30, 5, t(200)), Ok(()));
    seal_cycle(&mut world, &m, 300);
    let rebuild = || {
        let mut c = BlockChain::new();
        for blk in world.chain.blocks() {
            c.add_block(clone_block(blk));
        }
        WorldState::new(c).unwrap()
    };
    let w1 = rebuild();
    let w2 = rebuild();
    for key in [&pa, &pb, &pm] {
        assert_eq!(balance(&w1, key), balance(&w2, key));
        assert_eq!(balance(&w1, key), balance(&world, key));
    }
}

#[test]
fn reconstruction_rejects_invalid_chains() {
    let (mut world, a, b, m) = funded_world();
    let (pa, pb) = (PublicKey::from_private(&a), PublicKey::from_private(&b));
    assert_eq!(world.submit_transfer(&pa, &pb, &a, 30, 5, t(200)), Ok(()));
    seal_cycle(&mut world, &m, 300);
    let blocks = world.chain.blocks();
    let mut c = BlockChain::new();
    c.add_block(clone_block(&blocks[0]));
    let mut second = clone_block(&blocks[1]);
    second.id += 1;  // break the numbering
    c.add_block(second);
    assert!(WorldState::new(c).is_none());
}
