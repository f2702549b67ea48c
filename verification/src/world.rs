//! The materialized ledger state: wallet balances, per-wallet transaction
//! histories and the id index, derived by replaying the chain, plus the
//! pending-event queue.
//!
//! Wallets are kept in an ordered list of entries looked up by first match;
//! the lookup, update and insert rules are fixed by the spec functions
//! below, and every contract speaks over them.

use vstd::prelude::*;
use crate::block::{Block, BlockChain, BlockData, BlockModel, DataModel, spec_data_hash};
use crate::key::{sig_verifies, public_of, PublicKey, PrivateKey, Signature};
use crate::time::UtcDateTime;

verus! {

/// Why an operation or event was rejected. Every rejected operation reports
/// one of these stable categories.
#[derive(Clone, Copy, Debug, PartialEq, Eq, Structural)]
pub enum Reason {
    InvalidInput,
    NotFound,
    Conflict,
    Unauthorized,
    InsufficientFunds,
    InternalError,
}

/// One entry of a wallet's transaction history.
pub enum Transaction {
    Send { fee: u64, miner: PublicKey, amount: u64, receiver: PublicKey },
    Receive { amount: u64, sender: PublicKey },
    CollectFee { fee: u64, sender: PublicKey },
}

/// The mathematical model of a history entry's content.
pub ghost enum TransactionModel {
    Send { fee: u64, miner: Seq<u8>, amount: u64, receiver: Seq<u8> },
    Receive { amount: u64, sender: Seq<u8> },
    CollectFee { fee: u64, sender: Seq<u8> },
}

impl View for Transaction {
    type V = TransactionModel;

    open spec fn view(&self) -> TransactionModel {
        match self {
            Transaction::Send { fee, miner, amount, receiver } => TransactionModel::Send {
                fee: *fee,
                miner: miner@,
                amount: *amount,
                receiver: receiver@,
            },
            Transaction::Receive { amount, sender } => TransactionModel::Receive {
                amount: *amount,
                sender: sender@,
            },
            Transaction::CollectFee { fee, sender } => TransactionModel::CollectFee {
                fee: *fee,
                sender: sender@,
            },
        }
    }
}

impl Clone for Transaction {
    fn clone(&self) -> (r: Self)
        ensures
            r@ == self@,
    {
        match self {
            Transaction::Send { fee, miner, amount, receiver } => Transaction::Send {
                fee: *fee,
                miner: miner.clone(),
                amount: *amount,
                receiver: receiver.clone(),
            },
            Transaction::Receive { amount, sender } => Transaction::Receive {
                amount: *amount,
                sender: sender.clone(),
            },
            Transaction::CollectFee { fee, sender } => Transaction::CollectFee {
                fee: *fee,
                sender: sender.clone(),
            },
        }
    }
}

/// A history entry: a wallet's record at one timestamp. Timestamps are the
/// history's uniqueness key.
pub struct HistoryEntry {
    pub time: UtcDateTime,
    pub entry: Transaction,
}

/// The mathematical model of a history entry.
pub ghost struct HistoryEntryModel {
    pub time: u64,
    pub entry: TransactionModel,
}

impl View for HistoryEntry {
    type V = HistoryEntryModel;

    open spec fn view(&self) -> HistoryEntryModel {
        HistoryEntryModel { time: self.time@, entry: self.entry@ }
    }
}

impl Clone for HistoryEntry {
    fn clone(&self) -> (r: Self)
        ensures
            r@ == self@,
    {
        HistoryEntry { time: self.time, entry: self.entry.clone() }
    }
}

/// An account: balance, creation time and transaction history.
pub struct Wallet {
    pub id: u64,
    pub balance: u64,
    pub creation_time: UtcDateTime,
    pub transaction_history: Vec<HistoryEntry>,
}

/// The mathematical model of a wallet.
pub ghost struct WalletModel {
    pub id: u64,
    pub balance: u64,
    pub creation_time: u64,
    pub history: Seq<HistoryEntryModel>,
}

/// The models of a history list, in order.
pub open spec fn hist_model(s: Seq<HistoryEntry>) -> Seq<HistoryEntryModel> {
    Seq::new(s.len(), |i: int| s[i]@)
}

impl View for Wallet {
    type V = WalletModel;

    open spec fn view(&self) -> WalletModel {
        WalletModel {
            id: self.id,
            balance: self.balance,
            creation_time: self.creation_time@,
            history: hist_model(self.transaction_history@),
        }
    }
}

impl Clone for Wallet {
    fn clone(&self) -> (r: Self)
        ensures
            r@ == self@,
    {
        let mut h: Vec<HistoryEntry> = Vec::new();
        let mut i: usize = 0;
        while i < self.transaction_history.len()
            invariant
                i <= self.transaction_history.len(),
                h@.len() == i,
                forall|j: int| 0 <= j < i ==> h@[j]@ == self.transaction_history@[j]@,
            decreases self.transaction_history.len() - i,
        {
            h.push(self.transaction_history[i].clone());
            i = i + 1;
        }
        let r = Wallet {
            id: self.id,
            balance: self.balance,
            creation_time: self.creation_time,
            transaction_history: h,
        };
        proof {
            assert(hist_model(r.transaction_history@) =~= hist_model(self.transaction_history@));
        }
        r
    }
}

/// A wallet together with the public key that owns it.
pub struct WalletEntry {
    pub key: PublicKey,
    pub wallet: Wallet,
}

/// The mathematical model of a wallet entry.
pub ghost struct WalletEntryModel {
    pub key: Seq<u8>,
    pub wallet: WalletModel,
}

impl View for WalletEntry {
    type V = WalletEntryModel;

    open spec fn view(&self) -> WalletEntryModel {
        WalletEntryModel { key: self.key@, wallet: self.wallet@ }
    }
}

impl Clone for WalletEntry {
    fn clone(&self) -> (r: Self)
        ensures
            r@ == self@,
    {
        WalletEntry { key: self.key.clone(), wallet: self.wallet.clone() }
    }
}

/// One entry of the id index, mapping a numeric id to the owning key.
pub struct IdEntry {
    pub id: u64,
    pub key: PublicKey,
}

/// The mathematical model of an id-index entry.
pub ghost struct IdEntryModel {
    pub id: u64,
    pub key: Seq<u8>,
}

impl View for IdEntry {
    type V = IdEntryModel;

    open spec fn view(&self) -> IdEntryModel {
        IdEntryModel { id: self.id, key: self.key@ }
    }
}

impl Clone for IdEntry {
    fn clone(&self) -> (r: Self)
        ensures
            r@ == self@,
    {
        IdEntry { id: self.id, key: self.key.clone() }
    }
}

/// The models of a wallet list, in order.
pub open spec fn wallets_model(s: Seq<WalletEntry>) -> Seq<WalletEntryModel> {
    Seq::new(s.len(), |i: int| s[i]@)
}

/// The models of an id-index list, in order.
pub open spec fn ids_model(s: Seq<IdEntry>) -> Seq<IdEntryModel> {
    Seq::new(s.len(), |i: int| s[i]@)
}

/// The models of an event list, in order.
pub open spec fn data_model_seq(s: Seq<BlockData>) -> Seq<DataModel> {
    Seq::new(s.len(), |i: int| s[i]@)
}

/// The index of the first element satisfying `p`, or -1 if none does.
pub open spec fn find_idx<T>(s: Seq<T>, p: spec_fn(T) -> bool) -> int
    decreases s.len(),
{
    if s.len() <= 0 {
        -1
    } else if p(s[0]) {
        0
    } else {
        let r = find_idx(s.subrange(1, s.len() as int), p);
        if r < 0 {
            -1
        } else {
            r + 1
        }
    }
}

/// What `find_idx` returns: a first match, or -1 when nothing matches.
pub proof fn lemma_find_idx_props<T>(s: Seq<T>, p: spec_fn(T) -> bool)
    ensures
        -1 <= find_idx(s, p) < s.len(),
        find_idx(s, p) >= 0 ==> p(s[find_idx(s, p)]),
        find_idx(s, p) >= 0 ==> forall|j: int| 0 <= j < find_idx(s, p) ==> !p(#[trigger] s[j]),
        find_idx(s, p) == -1 ==> forall|j: int| 0 <= j < s.len() ==> !p(#[trigger] s[j]),
    decreases s.len(),
{
    if s.len() > 0 && !p(s[0]) {
        let t = s.subrange(1, s.len() as int);
        lemma_find_idx_props(t, p);
        assert(forall|j: int| 1 <= j < s.len() ==> #[trigger] s[j] == t[j - 1]);
    }
}

/// A position that matches, with no match before it, is where `find_idx`
/// points.
pub proof fn lemma_find_idx_is<T>(s: Seq<T>, p: spec_fn(T) -> bool, i: int)
    requires
        0 <= i < s.len(),
        p(s[i]),
        forall|j: int| 0 <= j < i ==> !p(#[trigger] s[j]),
    ensures
        find_idx(s, p) == i,
{
    lemma_find_idx_props(s, p);
    let r = find_idx(s, p);
    if r == -1 {
        assert(!p(s[i]));
    } else if r < i {
        assert(!p(s[r]));
    } else if r > i {
        assert(!p(s[i]));
    }
}

/// Two lists that agree pointwise on `p` have the same first match.
pub proof fn lemma_find_idx_congr<T>(s1: Seq<T>, s2: Seq<T>, p: spec_fn(T) -> bool)
    requires
        s1.len() == s2.len(),
        forall|j: int| 0 <= j < s1.len() ==> p(#[trigger] s1[j]) == p(#[trigger] s2[j]),
    ensures
        find_idx(s1, p) == find_idx(s2, p),
    decreases s1.len(),
{
    if s1.len() > 0 {
        assert(p(s1[0]) == p(s2[0]));
        if !p(s1[0]) {
            let t1 = s1.subrange(1, s1.len() as int);
            let t2 = s2.subrange(1, s2.len() as int);
            assert(forall|j: int| 0 <= j < t1.len() ==> p(#[trigger] t1[j]) == p(#[trigger] t2[j]))
                by {
                assert(forall|j: int| 0 <= j < t1.len() ==> #[trigger] t1[j] == s1[j + 1]
                    && #[trigger] t2[j] == s2[j + 1]);
            }
            lemma_find_idx_congr(t1, t2, p);
        }
    }
}

/// Appending an element leaves an existing first match in place; otherwise
/// the new element is found exactly when it matches.
pub proof fn lemma_find_idx_push<T>(s: Seq<T>, p: spec_fn(T) -> bool, e: T)
    ensures
        find_idx(s.push(e), p) == if find_idx(s, p) >= 0 {
            find_idx(s, p)
        } else if p(e) {
            s.len() as int
        } else {
            -1
        },
    decreases s.len(),
{
    let s2 = s.push(e);
    if s.len() == 0 {
        assert(s2[0] == e);
        assert(s2.len() == 1);
        assert(s2.subrange(1, 1).len() == 0);
        assert(find_idx(s2.subrange(1, 1), p) == -1);
        assert(find_idx(s, p) == -1);
    } else {
        assert(s2[0] == s[0]);
        if !p(s[0]) {
            let t = s.subrange(1, s.len() as int);
            assert(s2.subrange(1, s2.len() as int) =~= t.push(e));
            lemma_find_idx_push(t, p, e);
        }
    }
}

/// Matching a wallet entry by key.
pub open spec fn wallet_key_is(k: Seq<u8>) -> spec_fn(WalletEntryModel) -> bool {
    |e: WalletEntryModel| e.key == k
}

/// The index of the wallet owned by `k`, or -1.
pub open spec fn w_idx(ws: Seq<WalletEntryModel>, k: Seq<u8>) -> int {
    find_idx(ws, wallet_key_is(k))
}

pub open spec fn has_wallet(ws: Seq<WalletEntryModel>, k: Seq<u8>) -> bool {
    w_idx(ws, k) >= 0
}

/// The wallet owned by `k` (meaningful only when present).
pub open spec fn wallet_at(ws: Seq<WalletEntryModel>, k: Seq<u8>) -> WalletModel {
    ws[w_idx(ws, k)].wallet
}

/// The wallet list with `k`'s wallet replaced by `w`.
pub open spec fn wallet_set(ws: Seq<WalletEntryModel>, k: Seq<u8>, w: WalletModel) -> Seq<
    WalletEntryModel,
> {
    ws.update(w_idx(ws, k), WalletEntryModel { key: ws[w_idx(ws, k)].key, wallet: w })
}

/// Matching an id-index entry by id.
pub open spec fn id_is(id: u64) -> spec_fn(IdEntryModel) -> bool {
    |e: IdEntryModel| e.id == id
}

/// The index of `id` in the id index, or -1.
pub open spec fn id_idx(ids: Seq<IdEntryModel>, id: u64) -> int {
    find_idx(ids, id_is(id))
}

/// Matching a history entry by timestamp.
pub open spec fn time_is(t: u64) -> spec_fn(HistoryEntryModel) -> bool {
    |e: HistoryEntryModel| e.time == t
}

/// The index of timestamp `t` in a history, or -1.
pub open spec fn h_idx(h: Seq<HistoryEntryModel>, t: u64) -> int {
    find_idx(h, time_is(t))
}

/// A history with the record at `t` set: overwritten in place when `t` is
/// already present, appended otherwise.
pub open spec fn h_put(h: Seq<HistoryEntryModel>, t: u64, tx: TransactionModel) -> Seq<
    HistoryEntryModel,
> {
    if h_idx(h, t) >= 0 {
        h.update(h_idx(h, t), HistoryEntryModel { time: t, entry: tx })
    } else {
        h.push(HistoryEntryModel { time: t, entry: tx })
    }
}

/// What `w_idx` points at.
pub proof fn lemma_wallet_find(ws: Seq<WalletEntryModel>, k: Seq<u8>)
    ensures
        -1 <= w_idx(ws, k) < ws.len(),
        w_idx(ws, k) >= 0 ==> ws[w_idx(ws, k)].key == k,
        w_idx(ws, k) >= 0 ==> forall|j: int| 0 <= j < w_idx(ws, k) ==> (#[trigger] ws[j]).key != k,
        w_idx(ws, k) == -1 ==> forall|j: int| 0 <= j < ws.len() ==> (#[trigger] ws[j]).key != k,
{
    assert(forall|j: int|
        0 <= j < ws.len() ==> wallet_key_is(k)(#[trigger] ws[j]) == (ws[j].key == k));
    lemma_find_idx_props(ws, wallet_key_is(k));
}

/// A matching position with no earlier match is where `w_idx` points.
pub proof fn lemma_wallet_idx_is(ws: Seq<WalletEntryModel>, k: Seq<u8>, i: int)
    requires
        0 <= i < ws.len(),
        ws[i].key == k,
        forall|j: int| 0 <= j < i ==> (#[trigger] ws[j]).key != k,
    ensures
        w_idx(ws, k) == i,
{
    assert(forall|j: int|
        0 <= j < ws.len() ==> wallet_key_is(k)(#[trigger] ws[j]) == (ws[j].key == k));
    lemma_find_idx_is(ws, wallet_key_is(k), i);
}

/// Replacing one wallet moves no indices and touches no other wallet.
pub proof fn lemma_wallet_set(ws: Seq<WalletEntryModel>, k: Seq<u8>, w: WalletModel, k2: Seq<u8>)
    requires
        has_wallet(ws, k),
    ensures
        wallet_set(ws, k, w).len() == ws.len(),
        w_idx(wallet_set(ws, k, w), k2) == w_idx(ws, k2),
        has_wallet(ws, k2) && k2 == k ==> wallet_at(wallet_set(ws, k, w), k2) == w,
        has_wallet(ws, k2) && k2 != k ==> wallet_at(wallet_set(ws, k, w), k2) == wallet_at(ws, k2),
        has_wallet(ws, k2) ==> (w_idx(ws, k2) == w_idx(ws, k) <==> k2 == k),
{
    lemma_wallet_find(ws, k);
    lemma_wallet_find(ws, k2);
    let ws2 = wallet_set(ws, k, w);
    assert(forall|j: int| 0 <= j < ws.len() ==> (#[trigger] ws2[j]).key == ws[j].key);
    assert(forall|j: int|
        0 <= j < ws.len() ==> wallet_key_is(k2)(#[trigger] ws[j]) == (ws[j].key == k2));
    assert(forall|j: int|
        0 <= j < ws2.len() ==> wallet_key_is(k2)(#[trigger] ws2[j]) == (ws2[j].key == k2));
    lemma_find_idx_congr(ws, ws2, wallet_key_is(k2));
}

/// Appending a wallet entry leaves existing wallets where they were; a key
/// not yet present is afterwards found at the end.
pub proof fn lemma_wallet_push(ws: Seq<WalletEntryModel>, e: WalletEntryModel, k2: Seq<u8>)
    ensures
        w_idx(ws.push(e), k2) == if has_wallet(ws, k2) {
            w_idx(ws, k2)
        } else if e.key == k2 {
            ws.len() as int
        } else {
            -1
        },
        has_wallet(ws, k2) ==> wallet_at(ws.push(e), k2) == wallet_at(ws, k2),
        !has_wallet(ws, k2) && e.key == k2 ==> wallet_at(ws.push(e), k2) == e.wallet,
{
    lemma_wallet_find(ws, k2);
    assert(wallet_key_is(k2)(e) == (e.key == k2));
    assert(forall|j: int|
        0 <= j < ws.len() ==> wallet_key_is(k2)(#[trigger] ws[j]) == (ws[j].key == k2));
    lemma_find_idx_push(ws, wallet_key_is(k2), e);
    lemma_wallet_find(ws.push(e), k2);
}

/// What `id_idx` points at.
pub proof fn lemma_id_find(ids: Seq<IdEntryModel>, id: u64)
    ensures
        -1 <= id_idx(ids, id) < ids.len(),
        id_idx(ids, id) >= 0 ==> ids[id_idx(ids, id)].id == id,
        id_idx(ids, id) >= 0 ==> forall|j: int|
            0 <= j < id_idx(ids, id) ==> (#[trigger] ids[j]).id != id,
        id_idx(ids, id) == -1 ==> forall|j: int| 0 <= j < ids.len() ==> (#[trigger] ids[j]).id != id,
{
    assert(forall|j: int| 0 <= j < ids.len() ==> id_is(id)(#[trigger] ids[j]) == (ids[j].id == id));
    lemma_find_idx_props(ids, id_is(id));
}

/// A matching position with no earlier match is where `id_idx` points.
pub proof fn lemma_id_idx_is(ids: Seq<IdEntryModel>, id: u64, i: int)
    requires
        0 <= i < ids.len(),
        ids[i].id == id,
        forall|j: int| 0 <= j < i ==> (#[trigger] ids[j]).id != id,
    ensures
        id_idx(ids, id) == i,
{
    assert(forall|j: int| 0 <= j < ids.len() ==> id_is(id)(#[trigger] ids[j]) == (ids[j].id == id));
    lemma_find_idx_is(ids, id_is(id), i);
}

/// What `h_idx` points at.
pub proof fn lemma_hist_find(h: Seq<HistoryEntryModel>, t: u64)
    ensures
        -1 <= h_idx(h, t) < h.len(),
        h_idx(h, t) >= 0 ==> h[h_idx(h, t)].time == t,
        h_idx(h, t) >= 0 ==> forall|j: int| 0 <= j < h_idx(h, t) ==> (#[trigger] h[j]).time != t,
        h_idx(h, t) == -1 ==> forall|j: int| 0 <= j < h.len() ==> (#[trigger] h[j]).time != t,
{
    assert(forall|j: int| 0 <= j < h.len() ==> time_is(t)(#[trigger] h[j]) == (h[j].time == t));
    lemma_find_idx_props(h, time_is(t));
}

/// A matching position with no earlier match is where `h_idx` points.
pub proof fn lemma_hist_idx_is(h: Seq<HistoryEntryModel>, t: u64, i: int)
    requires
        0 <= i < h.len(),
        h[i].time == t,
        forall|j: int| 0 <= j < i ==> (#[trigger] h[j]).time != t,
    ensures
        h_idx(h, t) == i,
{
    assert(forall|j: int| 0 <= j < h.len() ==> time_is(t)(#[trigger] h[j]) == (h[j].time == t));
    lemma_find_idx_is(h, time_is(t), i);
}

/// Why an event is rejected by verification against a ledger state, or
/// `None` when it verifies. The checks run in a fixed order, so the reason
/// reported is the first that applies.
#[verifier::opaque]
pub open spec fn spec_verify_reason(
    ws: Seq<WalletEntryModel>,
    ids: Seq<IdEntryModel>,
    d: DataModel,
) -> Option<Reason> {
    match d {
        DataModel::CreateWallet { id, key, time, signature } => {
            if id_idx(ids, id) >= 0 {
                Some(Reason::Conflict)
            } else if has_wallet(ws, key) {
                Some(Reason::Conflict)
            } else if !sig_verifies(key, spec_data_hash(d), signature) {
                Some(Reason::Unauthorized)
            } else {
                None
            }
        },
        DataModel::Transaction { fee, amount, time, sender, receiver, signature } => {
            if amount == 0 {
                Some(Reason::InvalidInput)
            } else if fee >= amount {
                Some(Reason::InvalidInput)
            } else if !has_wallet(ws, sender) {
                Some(Reason::NotFound)
            } else if !has_wallet(ws, receiver) {
                Some(Reason::NotFound)
            } else if !sig_verifies(sender, spec_data_hash(d), signature) {
                Some(Reason::Unauthorized)
            } else if wallet_at(ws, sender).balance < amount {
                Some(Reason::InsufficientFunds)
            } else if h_idx(wallet_at(ws, sender).history, time) >= 0 {
                Some(Reason::Conflict)
            } else if h_idx(wallet_at(ws, receiver).history, time) >= 0 {
                Some(Reason::Conflict)
            } else {
                None
            }
        },
    }
}

/// Whether an event verifies against a ledger state.
pub open spec fn spec_verify_data(
    ws: Seq<WalletEntryModel>,
    ids: Seq<IdEntryModel>,
    d: DataModel,
) -> bool {
    spec_verify_reason(ws, ids, d) is None
}

/// Applying one event to the wallets and id index, under a containing block
/// sealed at `btime` by `miner`. `None` when verification fails, when the
/// event is not strictly older than the block, when the miner has no wallet,
/// or when a credit would overflow a balance. A created wallet starts with
/// the fixed initial grant of 100. A transfer debits the sender by `amount`,
/// credits the receiver with `amount - fee` and the miner with `fee`, in
/// that order, recording one history entry at the event's time for each.
#[verifier::opaque]
pub open spec fn spec_apply_one(
    ws: Seq<WalletEntryModel>,
    ids: Seq<IdEntryModel>,
    d: DataModel,
    btime: u64,
    miner: Seq<u8>,
) -> Option<(Seq<WalletEntryModel>, Seq<IdEntryModel>)> {
    if spec_verify_reason(ws, ids, d) is Some {
        None
    } else {
        match d {
            DataModel::CreateWallet { id, key, time, .. } => {
                if time >= btime {
                    None
                } else {
                    let w = WalletModel {
                        id,
                        balance: 100,
                        creation_time: time,
                        history: Seq::empty(),
                    };
                    Some(
                        (
                            ws.push(WalletEntryModel { key, wallet: w }),
                            ids.push(IdEntryModel { id, key }),
                        ),
                    )
                }
            },
            DataModel::Transaction { fee, amount, time, sender, receiver, .. } => {
                if time >= btime {
                    None
                } else if !has_wallet(ws, miner) {
                    None
                } else {
                    let sw = wallet_at(ws, sender);
                    let sw2 = WalletModel {
                        balance: (sw.balance - amount) as u64,
                        history: h_put(
                            sw.history,
                            time,
                            TransactionModel::Send { fee, miner, amount, receiver },
                        ),
                        ..sw
                    };
                    let ws1 = wallet_set(ws, sender, sw2);
                    let rw = wallet_at(ws1, receiver);
                    if rw.balance + amount - fee > u64::MAX {
                        None
                    } else {
                        let rw2 = WalletModel {
                            balance: (rw.balance + amount - fee) as u64,
                            history: h_put(
                                rw.history,
                                time,
                                TransactionModel::Receive { amount: (amount - fee) as u64, sender },
                            ),
                            ..rw
                        };
                        let ws2 = wallet_set(ws1, receiver, rw2);
                        let mw = wallet_at(ws2, miner);
                        if mw.balance + fee > u64::MAX {
                            None
                        } else {
                            let mw2 = WalletModel {
                                balance: (mw.balance + fee) as u64,
                                history: h_put(
                                    mw.history,
                                    time,
                                    TransactionModel::CollectFee { fee, sender },
                                ),
                                ..mw
                            };
                            Some((wallet_set(ws2, miner, mw2), ids))
                        }
                    }
                }
            },
        }
    }
}

/// The materialized ledger state: a pure function of the chain's events,
/// plus the pending-event queue.
pub struct WorldState {
    pub chain: BlockChain,
    pub waiting: Vec<BlockData>,
    pub wallets: Vec<WalletEntry>,
    pub wallet_ids: Vec<IdEntry>,
}

/// The mathematical model of the ledger state.
pub ghost struct WorldModel {
    pub chain: Seq<BlockModel>,
    pub waiting: Seq<DataModel>,
    pub wallets: Seq<WalletEntryModel>,
    pub ids: Seq<IdEntryModel>,
}

impl View for WorldState {
    type V = WorldModel;

    open spec fn view(&self) -> WorldModel {
        WorldModel {
            chain: self.chain@,
            waiting: data_model_seq(self.waiting@),
            wallets: wallets_model(self.wallets@),
            ids: ids_model(self.wallet_ids@),
        }
    }
}

/// The index of the wallet owned by `key`, scanning in order.
fn find_wallet_idx(wallets: &Vec<WalletEntry>, key: &PublicKey) -> (r: Option<usize>)
    ensures
        match r {
            Option::Some(i) => i < wallets@.len() && w_idx(wallets_model(wallets@), key@) == i as int,
            Option::None => w_idx(wallets_model(wallets@), key@) == -1,
        },
{
    let ghost ws = wallets_model(wallets@);
    let mut i: usize = 0;
    while i < wallets.len()
        invariant
            i <= wallets.len(),
            ws == wallets_model(wallets@),
            forall|j: int| 0 <= j < i ==> (#[trigger] ws[j]).key != key@,
        decreases wallets.len() - i,
    {
        if wallets[i].key == *key {
            proof {
                lemma_wallet_idx_is(ws, key@, i as int);
            }
            return Some(i);
        }
        i = i + 1;
    }
    proof {
        lemma_wallet_find(ws, key@);
        if w_idx(ws, key@) >= 0 {
            assert(ws[w_idx(ws, key@)].key == key@);
        }
    }
    None
}

/// The index of `id` in the id index, scanning in order.
fn find_id_idx(ids: &Vec<IdEntry>, id: u64) -> (r: Option<usize>)
    ensures
        match r {
            Option::Some(i) => i < ids@.len() && id_idx(ids_model(ids@), id) == i as int,
            Option::None => id_idx(ids_model(ids@), id) == -1,
        },
{
    let ghost m = ids_model(ids@);
    let mut i: usize = 0;
    while i < ids.len()
        invariant
            i <= ids.len(),
            m == ids_model(ids@),
            forall|j: int| 0 <= j < i ==> (#[trigger] m[j]).id != id,
        decreases ids.len() - i,
    {
        if ids[i].id == id {
            proof {
                lemma_id_idx_is(m, id, i as int);
            }
            return Some(i);
        }
        i = i + 1;
    }
    proof {
        lemma_id_find(m, id);
        if id_idx(m, id) >= 0 {
            assert(m[id_idx(m, id)].id == id);
        }
    }
    None
}

/// The index of timestamp `t` in a history, scanning in order.
fn find_hist_idx(h: &Vec<HistoryEntry>, t: &UtcDateTime) -> (r: Option<usize>)
    ensures
        match r {
            Option::Some(i) => i < h@.len() && h_idx(hist_model(h@), t@) == i as int,
            Option::None => h_idx(hist_model(h@), t@) == -1,
        },
{
    let ghost m = hist_model(h@);
    let mut i: usize = 0;
    while i < h.len()
        invariant
            i <= h.len(),
            m == hist_model(h@),
            forall|j: int| 0 <= j < i ==> (#[trigger] m[j]).time != t@,
        decreases h.len() - i,
    {
        if h[i].time.nanos() == t.nanos() {
            proof {
                lemma_hist_idx_is(m, t@, i as int);
            }
            return Some(i);
        }
        i = i + 1;
    }
    proof {
        lemma_hist_find(m, t@);
        if h_idx(m, t@) >= 0 {
            assert(m[h_idx(m, t@)].time == t@);
        }
    }
    None
}

/// Sets the record at `time` in a history: overwrites in place when the
/// timestamp is already present, appends otherwise.
fn hist_put_exec(h: &mut Vec<HistoryEntry>, time: UtcDateTime, tx: Transaction)
    ensures
        hist_model(final(h)@) == h_put(hist_model(old(h)@), time@, tx@),
{
    let ghost m = hist_model(h@);
    match find_hist_idx(h, &time) {
        Option::Some(i) => {
            h.set(i, HistoryEntry { time, entry: tx });
            proof {
                assert(hist_model(h@) =~= m.update(
                    i as int,
                    HistoryEntryModel { time: time@, entry: tx@ },
                ));
            }
        },
        Option::None => {
            h.push(HistoryEntry { time, entry: tx });
            proof {
                assert(hist_model(h@) =~= m.push(
                    HistoryEntryModel { time: time@, entry: tx@ },
                ));
            }
        },
    }
}

impl WorldState {
    /// Why `data` would be rejected against the current state, or `None`
    /// when it verifies. Pure: no mutation.
    pub fn verify_reason(&self, data: &BlockData) -> (r: Option<Reason>)
        ensures
            r == spec_verify_reason(self@.wallets, self@.ids, data@),
    {
        proof {
            reveal(spec_verify_reason);
        }
        match data {
            BlockData::CreateWallet { id, key, signature, .. } => {
                if find_id_idx(&self.wallet_ids, *id).is_some() {
                    return Some(Reason::Conflict);
                }
                if find_wallet_idx(&self.wallets, key).is_some() {
                    return Some(Reason::Conflict);
                }
                let h = data.hash();
                if !key.verify(&h, signature) {
                    return Some(Reason::Unauthorized);
                }
                None
            },
            BlockData::Transaction { fee, amount, time, sender, receiver, signature } => {
                if *amount == 0 {
                    return Some(Reason::InvalidInput);
                }
                if *fee >= *amount {
                    return Some(Reason::InvalidInput);
                }
                let s_idx = match find_wallet_idx(&self.wallets, sender) {
                    Option::Some(i) => i,
                    Option::None => {
                        return Some(Reason::NotFound);
                    },
                };
                let r_idx = match find_wallet_idx(&self.wallets, receiver) {
                    Option::Some(i) => i,
                    Option::None => {
                        return Some(Reason::NotFound);
                    },
                };
                let h = data.hash();
                if !sender.verify(&h, signature) {
                    return Some(Reason::Unauthorized);
                }
                proof {
                    assert(wallets_model(self.wallets@)[s_idx as int] == self.wallets@[
                        s_idx as int
                    ]@);
                    assert(wallets_model(self.wallets@)[r_idx as int] == self.wallets@[
                        r_idx as int
                    ]@);
                }
                if self.wallets[s_idx].wallet.balance < *amount {
                    return Some(Reason::InsufficientFunds);
                }
                if find_hist_idx(&self.wallets[s_idx].wallet.transaction_history, time).is_some() {
                    return Some(Reason::Conflict);
                }
                if find_hist_idx(&self.wallets[r_idx].wallet.transaction_history, time).is_some() {
                    return Some(Reason::Conflict);
                }
                None
            },
        }
    }

    /// Whether `data` verifies against the current state. Pure: no mutation.
    pub fn verify_data(&self, data: &BlockData) -> (r: bool)
        ensures
            r == spec_verify_data(self@.wallets, self@.ids, data@),
    {
        self.verify_reason(data).is_none()
    }

    /// Verifies and applies one event under its containing block. On success
    /// the wallets and id index change exactly as [`spec_apply_one`] says;
    /// on failure nothing changes at all. The chain and the pending queue
    /// are never touched.
    pub fn process_data(&mut self, data: &BlockData, block: &Block) -> (r: bool)
        ensures
            r == (spec_apply_one(
                old(self)@.wallets,
                old(self)@.ids,
                data@,
                block@.time,
                block@.miner,
            ) is Some),
            r ==> Option::Some((final(self)@.wallets, final(self)@.ids)) == spec_apply_one(
                old(self)@.wallets,
                old(self)@.ids,
                data@,
                block@.time,
                block@.miner,
            ),
            final(self).chain == old(self).chain,
            final(self).waiting == old(self).waiting,
            !r ==> *final(self) == *old(self),
    {
        proof {
            reveal(spec_apply_one);
            reveal(spec_verify_reason);
        }
        let ghost ws0 = self@.wallets;
        let ghost ids0 = self@.ids;
        if self.verify_reason(data).is_some() {
            return false;
        }
        match data {
            BlockData::CreateWallet { id, key, time, .. } => {
                if !time.lt(&block.time) {
                    return false;
                }
                let wallet = Wallet {
                    id: *id,
                    balance: 100,
                    creation_time: *time,
                    transaction_history: Vec::new(),
                };
                self.wallets.push(WalletEntry { key: key.clone(), wallet });
                self.wallet_ids.push(IdEntry { id: *id, key: key.clone() });
                proof {
                    let wm = WalletModel {
                        id: *id,
                        balance: 100,
                        creation_time: time@,
                        history: Seq::empty(),
                    };
                    assert(wallets_model(self.wallets@) =~= ws0.push(
                        WalletEntryModel { key: key@, wallet: wm },
                    )) by {
                        assert(hist_model(self.wallets@.last().wallet.transaction_history@)
                            =~= Seq::<HistoryEntryModel>::empty());
                    }
                    assert(ids_model(self.wallet_ids@) =~= ids0.push(
                        IdEntryModel { id: *id, key: key@ },
                    ));
                }
                true
            },
            BlockData::Transaction { fee, amount, time, sender, receiver, .. } => {
                if !time.lt(&block.time) {
                    return false;
                }
                let m_idx = match find_wallet_idx(&self.wallets, &block.miner) {
                    Option::Some(i) => i,
                    Option::None => {
                        return false;
                    },
                };
                let s_idx = match find_wallet_idx(&self.wallets, sender) {
                    Option::Some(i) => i,
                    Option::None => {
                        proof {
                            assert(false);
                        }
                        return false;
                    },
                };
                let r_idx = match find_wallet_idx(&self.wallets, receiver) {
                    Option::Some(i) => i,
                    Option::None => {
                        proof {
                            assert(false);
                        }
                        return false;
                    },
                };
                proof {
                    lemma_wallet_find(ws0, sender@);
                    lemma_wallet_find(ws0, receiver@);
                    lemma_wallet_find(ws0, block.miner@);
                    assert(forall|j: int|
                        0 <= j < self.wallets@.len() ==> wallets_model(self.wallets@)[j]
                            == (#[trigger] self.wallets@[j])@);
                }
                // The spec applies the three updates in order; mirror its
                // intermediate states as ghost values to check overflow
                // before any mutation, aliasing included.
                let ghost sw = wallet_at(ws0, sender@);
                let ghost sw2 = WalletModel {
                    balance: (sw.balance - *amount) as u64,
                    history: h_put(
                        sw.history,
                        time@,
                        TransactionModel::Send {
                            fee: *fee,
                            miner: block.miner@,
                            amount: *amount,
                            receiver: receiver@,
                        },
                    ),
                    ..sw
                };
                let ghost ws1 = wallet_set(ws0, sender@, sw2);
                proof {
                    lemma_wallet_set(ws0, sender@, sw2, sender@);
                    lemma_wallet_set(ws0, sender@, sw2, receiver@);
                    lemma_wallet_set(ws0, sender@, sw2, block.miner@);
                }
                let s_bal = self.wallets[s_idx].wallet.balance;
                let s_new = s_bal - *amount;
                let gain = *amount - *fee;
                let r_base = if r_idx == s_idx {
                    s_new
                } else {
                    self.wallets[r_idx].wallet.balance
                };
                proof {
                    assert(wallet_at(ws1, receiver@).balance == r_base);
                }
                if r_base > u64::MAX - gain {
                    return false;
                }
                let r_new = r_base + gain;
                let ghost rw = wallet_at(ws1, receiver@);
                let ghost rw2 = WalletModel {
                    balance: (rw.balance + *amount - *fee) as u64,
                    history: h_put(
                        rw.history,
                        time@,
                        TransactionModel::Receive { amount: (*amount - *fee) as u64, sender: sender@ },
                    ),
                    ..rw
                };
                let ghost ws2 = wallet_set(ws1, receiver@, rw2);
                proof {
                    lemma_wallet_set(ws1, receiver@, rw2, receiver@);
                    lemma_wallet_set(ws1, receiver@, rw2, block.miner@);
                }
                let m_base = if m_idx == r_idx {
                    r_new
                } else if m_idx == s_idx {
                    s_new
                } else {
                    self.wallets[m_idx].wallet.balance
                };
                proof {
                    assert(wallet_at(ws2, block.miner@).balance == m_base);
                }
                if m_base > u64::MAX - *fee {
                    return false;
                }
                let m_new = m_base + *fee;
                let ghost mw = wallet_at(ws2, block.miner@);
                let ghost mw2 = WalletModel {
                    balance: (mw.balance + *fee) as u64,
                    history: h_put(
                        mw.history,
                        time@,
                        TransactionModel::CollectFee { fee: *fee, sender: sender@ },
                    ),
                    ..mw
                };
                let ghost ws3 = wallet_set(ws2, block.miner@, mw2);
                // Debit the sender and record the send.
                let k1 = self.wallets[s_idx].key.clone();
                let mut w1 = self.wallets[s_idx].wallet.clone();
                w1.balance = s_new;
                hist_put_exec(
                    &mut w1.transaction_history,
                    *time,
                    Transaction::Send {
                        fee: *fee,
                        miner: block.miner.clone(),
                        amount: *amount,
                        receiver: receiver.clone(),
                    },
                );
                self.wallets.set(s_idx, WalletEntry { key: k1, wallet: w1 });
                proof {
                    assert(wallets_model(self.wallets@) =~= ws1);
                }
                // Credit the receiver and record the receipt.
                let k2 = self.wallets[r_idx].key.clone();
                let mut w2 = self.wallets[r_idx].wallet.clone();
                w2.balance = r_new;
                hist_put_exec(
                    &mut w2.transaction_history,
                    *time,
                    Transaction::Receive { amount: gain, sender: sender.clone() },
                );
                self.wallets.set(r_idx, WalletEntry { key: k2, wallet: w2 });
                proof {
                    assert(wallets_model(self.wallets@) =~= ws2);
                }
                // Credit the miner with the fee and record the collection.
                let k3 = self.wallets[m_idx].key.clone();
                let mut w3 = self.wallets[m_idx].wallet.clone();
                w3.balance = m_new;
                hist_put_exec(
                    &mut w3.transaction_history,
                    *time,
                    Transaction::CollectFee { fee: *fee, sender: sender.clone() },
                );
                self.wallets.set(m_idx, WalletEntry { key: k3, wallet: w3 });
                proof {
                    assert(wallets_model(self.wallets@) =~= ws3);
                    assert(ids_model(self.wallet_ids@) == ids0);
                }
                true
            },
        }
    }
}

/// Applying the first `n` events of a block's data in order, stopping at
/// the first failure.
pub open spec fn spec_apply_events(
    ws: Seq<WalletEntryModel>,
    ids: Seq<IdEntryModel>,
    evs: Seq<DataModel>,
    n: int,
    btime: u64,
    miner: Seq<u8>,
) -> Option<(Seq<WalletEntryModel>, Seq<IdEntryModel>)>
    decreases n,
{
    if n <= 0 {
        Some((ws, ids))
    } else {
        match spec_apply_events(ws, ids, evs, n - 1, btime, miner) {
            Option::None => None,
            Option::Some(p) => spec_apply_one(p.0, p.1, evs[n - 1], btime, miner),
        }
    }
}

/// A failure while applying a block's events is final.
proof fn lemma_apply_events_none(
    ws: Seq<WalletEntryModel>,
    ids: Seq<IdEntryModel>,
    evs: Seq<DataModel>,
    k: int,
    n: int,
    btime: u64,
    miner: Seq<u8>,
)
    requires
        k <= n,
        spec_apply_events(ws, ids, evs, k, btime, miner) is None,
    ensures
        spec_apply_events(ws, ids, evs, n, btime, miner) is None,
    decreases n,
{
    if n > k {
        lemma_apply_events_none(ws, ids, evs, k, n - 1, btime, miner);
    }
}

/// Replaying the first `n` blocks of a chain from the empty state.
pub open spec fn spec_replay(c: Seq<BlockModel>, n: int) -> Option<
    (Seq<WalletEntryModel>, Seq<IdEntryModel>),
>
    decreases n,
{
    if n <= 0 {
        Some((Seq::empty(), Seq::empty()))
    } else {
        match spec_replay(c, n - 1) {
            Option::None => None,
            Option::Some(p) => spec_apply_events(
                p.0,
                p.1,
                c[n - 1].data,
                c[n - 1].data.len() as int,
                c[n - 1].time,
                c[n - 1].miner,
            ),
        }
    }
}

/// A failure while replaying a chain is final.
proof fn lemma_replay_none(c: Seq<BlockModel>, k: int, n: int)
    requires
        k <= n,
        spec_replay(c, k) is None,
    ensures
        spec_replay(c, n) is None,
    decreases n,
{
    if n > k {
        lemma_replay_none(c, k, n - 1);
    }
}

/// Replaying a chain is deterministic: the wallets and id index that come
/// out are a function of the chain alone, so two replays of the same chain
/// agree on every balance and every history.
pub proof fn lemma_replay_deterministic(
    c: Seq<BlockModel>,
    p1: (Seq<WalletEntryModel>, Seq<IdEntryModel>),
    p2: (Seq<WalletEntryModel>, Seq<IdEntryModel>),
)
    requires
        spec_replay(c, c.len() as int) == Some(p1),
        spec_replay(c, c.len() as int) == Some(p2),
    ensures
        p1 == p2,
{
}

/// Whether a block is accepted against a state: all its events apply in
/// order, and the chain with the block appended revalidates in full.
pub open spec fn spec_add_block_ok(m: WorldModel, b: BlockModel) -> bool {
    &&& spec_apply_events(m.wallets, m.ids, b.data, b.data.len() as int, b.time, b.miner) is Some
    &&& crate::block::spec_chain_valid(m.chain.push(b))
}

/// A verified deep copy of a wallet list.
fn clone_wallets(v: &Vec<WalletEntry>) -> (r: Vec<WalletEntry>)
    ensures
        wallets_model(r@) == wallets_model(v@),
{
    let mut r: Vec<WalletEntry> = Vec::new();
    let mut i: usize = 0;
    while i < v.len()
        invariant
            i <= v.len(),
            r@.len() == i,
            forall|j: int| 0 <= j < i ==> (#[trigger] r@[j])@ == v@[j]@,
        decreases v.len() - i,
    {
        r.push(v[i].clone());
        i = i + 1;
    }
    proof {
        assert(wallets_model(r@) =~= wallets_model(v@));
    }
    r
}

/// A verified deep copy of an id index.
fn clone_ids(v: &Vec<IdEntry>) -> (r: Vec<IdEntry>)
    ensures
        ids_model(r@) == ids_model(v@),
{
    let mut r: Vec<IdEntry> = Vec::new();
    let mut i: usize = 0;
    while i < v.len()
        invariant
            i <= v.len(),
            r@.len() == i,
            forall|j: int| 0 <= j < i ==> (#[trigger] r@[j])@ == v@[j]@,
        decreases v.len() - i,
    {
        r.push(v[i].clone());
        i = i + 1;
    }
    proof {
        assert(ids_model(r@) =~= ids_model(v@));
    }
    r
}

impl WorldState {
    /// Applies every event of `block` to this state in order, stopping at
    /// the first failure; used on a scratch copy during block acceptance.
    fn apply_block_events(&mut self, block: &Block) -> (r: bool)
        ensures
            r == (spec_apply_events(
                old(self)@.wallets,
                old(self)@.ids,
                block@.data,
                block@.data.len() as int,
                block@.time,
                block@.miner,
            ) is Some),
            r ==> Option::Some((final(self)@.wallets, final(self)@.ids)) == spec_apply_events(
                old(self)@.wallets,
                old(self)@.ids,
                block@.data,
                block@.data.len() as int,
                block@.time,
                block@.miner,
            ),
            final(self).chain == old(self).chain,
            final(self).waiting == old(self).waiting,
    {
        let ghost ws0 = self@.wallets;
        let ghost ids0 = self@.ids;
        let mut j: usize = 0;
        while j < block.data.len()
            invariant
                j <= block.data.len(),
                ws0 == old(self)@.wallets,
                ids0 == old(self)@.ids,
                spec_apply_events(ws0, ids0, block@.data, j as int, block@.time, block@.miner)
                    == Some((self@.wallets, self@.ids)),
                self.chain == old(self).chain,
                self.waiting == old(self).waiting,
            decreases block.data.len() - j,
        {
            let ok = self.process_data(&block.data[j], block);
            proof {
                assert(block@.data[j as int] == block.data@[j as int]@);
            }
            if !ok {
                proof {
                    assert(spec_apply_events(
                        ws0,
                        ids0,
                        block@.data,
                        j + 1,
                        block@.time,
                        block@.miner,
                    ) is None);
                    lemma_apply_events_none(
                        ws0,
                        ids0,
                        block@.data,
                        j + 1,
                        block@.data.len() as int,
                        block@.time,
                        block@.miner,
                    );
                }
                return false;
            }
            j = j + 1;
        }
        true
    }

    /// Applies every event of `block` in order and, when all succeed,
    /// appends the block and revalidates the entire chain as the final
    /// acceptance gate. A rejected block leaves the state exactly as it
    /// was: the events are applied to a scratch copy that is committed
    /// only on success.
    pub fn add_block(&mut self, block: Block) -> (r: bool)
        ensures
            r == spec_add_block_ok(old(self)@, block@),
            r ==> Option::Some((final(self)@.wallets, final(self)@.ids)) == spec_apply_events(
                old(self)@.wallets,
                old(self)@.ids,
                block@.data,
                block@.data.len() as int,
                block@.time,
                block@.miner,
            ),
            r ==> final(self)@.chain == old(self)@.chain.push(block@),
            final(self).waiting == old(self).waiting,
            !r ==> *final(self) == *old(self),
    {
        let mut scratch = WorldState {
            chain: BlockChain::new(),
            waiting: Vec::new(),
            wallets: clone_wallets(&self.wallets),
            wallet_ids: clone_ids(&self.wallet_ids),
        };
        let applied = scratch.apply_block_events(&block);
        if !applied {
            return false;
        }
        if !self.chain.valid_with(&block) {
            return false;
        }
        self.wallets = scratch.wallets;
        self.wallet_ids = scratch.wallet_ids;
        self.chain.add_block(block);
        true
    }

    /// Reconstructs the ledger state by replaying a chain from the empty
    /// state: fails when the chain does not validate or any event fails to
    /// apply, returning no partial state.
    pub fn new(chain: BlockChain) -> (r: Option<WorldState>)
        ensures
            match r {
                Option::Some(w) => {
                    &&& crate::block::spec_chain_valid(chain@)
                    &&& Option::Some((w@.wallets, w@.ids)) == spec_replay(
                        chain@,
                        chain@.len() as int,
                    )
                    &&& w@.chain == chain@
                    &&& w@.waiting == Seq::<DataModel>::empty()
                },
                Option::None => !crate::block::spec_chain_valid(chain@) || spec_replay(
                    chain@,
                    chain@.len() as int,
                ) is None,
            },
    {
        if !chain.validate() {
            return None;
        }
        let mut world = WorldState {
            chain: BlockChain::new(),
            waiting: Vec::new(),
            wallets: Vec::new(),
            wallet_ids: Vec::new(),
        };
        proof {
            assert(world@.wallets =~= Seq::<WalletEntryModel>::empty());
            assert(world@.ids =~= Seq::<IdEntryModel>::empty());
        }
        let n = chain.blocks().len();
        let mut bi: usize = 0;
        while bi < n
            invariant
                bi <= n,
                n == chain@.len(),
                spec_replay(chain@, bi as int) == Some((world@.wallets, world@.ids)),
                world.waiting@.len() == 0,
            decreases n - bi,
        {
            let b = &chain.blocks()[bi];
            proof {
                assert(b@ == chain@[bi as int]);
            }
            let ghost wsb = world@.wallets;
            let ghost idsb = world@.ids;
            let m = b.data.len();
            let mut j: usize = 0;
            while j < m
                invariant
                    j <= m,
                    m == b.data@.len(),
                    b@ == chain@[bi as int],
                    0 <= bi < chain@.len(),
                    spec_replay(chain@, bi as int) == Some((wsb, idsb)),
                    spec_apply_events(wsb, idsb, b@.data, j as int, b@.time, b@.miner) == Some(
                        (world@.wallets, world@.ids),
                    ),
                    world.waiting@.len() == 0,
                decreases m - j,
            {
                let ok = world.process_data(&b.data[j], b);
                proof {
                    assert(b@.data[j as int] == b.data@[j as int]@);
                }
                if !ok {
                    proof {
                        lemma_apply_events_none(
                            wsb,
                            idsb,
                            b@.data,
                            j + 1,
                            b@.data.len() as int,
                            b@.time,
                            b@.miner,
                        );
                        lemma_replay_none(chain@, bi + 1, chain@.len() as int);
                    }
                    return None;
                }
                j = j + 1;
            }
            bi = bi + 1;
        }
        world.chain = chain;
        proof {
            assert(data_model_seq(world.waiting@) =~= Seq::<DataModel>::empty());
        }
        Some(world)
    }
}

/// The conflicts that can reject a wallet-creation request whose signature
/// is known to verify: a taken id, then a taken key.
pub open spec fn spec_create_conflict(
    ws: Seq<WalletEntryModel>,
    ids: Seq<IdEntryModel>,
    id: u64,
    key: Seq<u8>,
) -> Option<Reason> {
    if id_idx(ids, id) >= 0 {
        Some(Reason::Conflict)
    } else if has_wallet(ws, key) {
        Some(Reason::Conflict)
    } else {
        None
    }
}

/// The checks that can reject a transfer request whose signature is known
/// to verify, in the order they run.
pub open spec fn spec_transfer_precheck(
    ws: Seq<WalletEntryModel>,
    amount: u64,
    fee: u64,
    sender: Seq<u8>,
    receiver: Seq<u8>,
    time: u64,
) -> Option<Reason> {
    if amount == 0 {
        Some(Reason::InvalidInput)
    } else if fee >= amount {
        Some(Reason::InvalidInput)
    } else if !has_wallet(ws, sender) {
        Some(Reason::NotFound)
    } else if !has_wallet(ws, receiver) {
        Some(Reason::NotFound)
    } else if wallet_at(ws, sender).balance < amount {
        Some(Reason::InsufficientFunds)
    } else if h_idx(wallet_at(ws, sender).history, time) >= 0 {
        Some(Reason::Conflict)
    } else if h_idx(wallet_at(ws, receiver).history, time) >= 0 {
        Some(Reason::Conflict)
    } else {
        None
    }
}

/// With a verifying signature, a wallet-creation event is rejected only by
/// a conflict on its id or key.
proof fn lemma_create_reason(ws: Seq<WalletEntryModel>, ids: Seq<IdEntryModel>, d: DataModel)
    requires
        d matches DataModel::CreateWallet { key, signature, .. } && sig_verifies(
            key,
            spec_data_hash(d),
            signature,
        ),
    ensures
        d matches DataModel::CreateWallet { id, key, .. } ==> spec_verify_reason(ws, ids, d)
            == spec_create_conflict(ws, ids, id, key),
{
    reveal(spec_verify_reason);
}

/// With a verifying signature, a transfer event is rejected exactly as the
/// precheck list says.
proof fn lemma_transfer_reason(ws: Seq<WalletEntryModel>, ids: Seq<IdEntryModel>, d: DataModel)
    requires
        d matches DataModel::Transaction { sender, signature, .. } && sig_verifies(
            sender,
            spec_data_hash(d),
            signature,
        ),
    ensures
        d matches DataModel::Transaction { fee, amount, time, sender, receiver, .. }
            ==> spec_verify_reason(ws, ids, d) == spec_transfer_precheck(
            ws,
            amount,
            fee,
            sender,
            receiver,
            time,
        ),
{
    reveal(spec_verify_reason);
}

/// A reference to an account: by its public key, or by a previously
/// registered numeric id resolved through the id index.
pub enum AccountRef {
    ByKey(PublicKey),
    ById(u64),
}

/// The key an account reference denotes in a given state, if any.
pub open spec fn spec_account_key(m: WorldModel, acct: AccountRef) -> Option<Seq<u8>> {
    match acct {
        AccountRef::ByKey(k) => Some(k@),
        AccountRef::ById(id) => if id_idx(m.ids, id) >= 0 {
            Some(m.ids[id_idx(m.ids, id)].key)
        } else {
            None
        },
    }
}

impl WorldState {
    /// Verifies an event and, when it verifies, enqueues it on the pending
    /// queue; a rejected event reports its reason and changes nothing.
    pub fn submit_event(&mut self, data: BlockData) -> (r: Result<(), Reason>)
        ensures
            (r is Ok) == spec_verify_data(old(self)@.wallets, old(self)@.ids, data@),
            r matches Err(e) ==> Option::Some(e) == spec_verify_reason(
                old(self)@.wallets,
                old(self)@.ids,
                data@,
            ) && *final(self) == *old(self),
            r is Ok ==> final(self)@.waiting == old(self)@.waiting.push(data@) && final(self).chain
                == old(self).chain && final(self).wallets == old(self).wallets
                && final(self).wallet_ids == old(self).wallet_ids,
    {
        match self.verify_reason(&data) {
            Option::Some(e) => Err(e),
            Option::None => {
                self.waiting.push(data);
                proof {
                    assert(data_model_seq(self.waiting@) =~= old(self)@.waiting.push(
                        self.waiting@.last()@,
                    ));
                }
                Ok(())
            },
        }
    }

    /// Builds, signs, verifies and enqueues a wallet-creation event. The
    /// private key must belong to `key`; a signing failure reports
    /// `InternalError`; otherwise the request is accepted exactly when
    /// neither the id nor the key is already taken, and a rejection reports
    /// the first conflict found.
    pub fn submit_create_wallet(
        &mut self,
        id: u64,
        key: &PublicKey,
        private_key: &PrivateKey,
        time: UtcDateTime,
    ) -> (r: Result<(), Reason>)
        ensures
            key@ != public_of(private_key@) ==> r == Err::<(), Reason>(Reason::Unauthorized),
            r == Err::<(), Reason>(Reason::InternalError) ==> key@ == public_of(private_key@),
            !(r is Ok) ==> *final(self) == *old(self),
            key@ == public_of(private_key@) && r != Err::<(), Reason>(Reason::InternalError)
                ==> {
                &&& spec_create_conflict(old(self)@.wallets, old(self)@.ids, id, key@) matches Some(
                    e,
                ) ==> r == Err::<(), Reason>(e)
                &&& spec_create_conflict(old(self)@.wallets, old(self)@.ids, id, key@) is None
                    ==> r is Ok
            },
            r is Ok ==> {
                &&& final(self)@.waiting.len() == old(self)@.waiting.len() + 1
                &&& final(self)@.waiting.subrange(0, old(self)@.waiting.len() as int)
                    == old(self)@.waiting
                &&& final(self)@.waiting.last() matches DataModel::CreateWallet {
                    id: id2,
                    key: k2,
                    time: t2,
                    signature: s2,
                } && id2 == id && k2 == key@ && t2 == time@ && sig_verifies(
                    key@,
                    spec_data_hash(final(self)@.waiting.last()),
                    s2,
                )
                &&& final(self).chain == old(self).chain
                &&& final(self).wallets == old(self).wallets
                &&& final(self).wallet_ids == old(self).wallet_ids
            },
    {
        let derived = PublicKey::from_private(private_key);
        if *key != derived {
            return Err(Reason::Unauthorized);
        }
        let probe = BlockData::CreateWallet {
            id,
            key: key.clone(),
            time,
            signature: Signature::empty(),
        };
        let h = probe.hash();
        let signature = match private_key.sign(&h) {
            Option::Some(s) => s,
            Option::None => {
                return Err(Reason::InternalError);
            },
        };
        let ev = BlockData::CreateWallet { id, key: key.clone(), time, signature };
        proof {
            crate::codec::lemma_signable_ignores_signature(ev@, probe@);
            assert(spec_data_hash(ev@) == h@);
            lemma_create_reason(self@.wallets, self@.ids, ev@);
        }
        let r = self.submit_event(ev);
        proof {
            if r is Ok {
                assert(final(self)@.waiting.subrange(0, old(self)@.waiting.len() as int)
                    =~= old(self)@.waiting);
            }
            let c = spec_create_conflict(old(self)@.wallets, old(self)@.ids, id, key@);
            match c {
                Option::Some(e) => {
                    assert(r == Err::<(), Reason>(e));
                },
                Option::None => {
                    assert(r is Ok);
                },
            }
        }
        r
    }

    /// Builds, signs, verifies and enqueues a transfer event. The private
    /// key must belong to `sender`; a signing failure reports
    /// `InternalError`; otherwise the request is accepted or rejected
    /// exactly as [`spec_transfer_precheck`] says, in check order.
    pub fn submit_transfer(
        &mut self,
        sender: &PublicKey,
        receiver: &PublicKey,
        private_key: &PrivateKey,
        amount: u64,
        fee: u64,
        time: UtcDateTime,
    ) -> (r: Result<(), Reason>)
        ensures
            sender@ != public_of(private_key@) ==> r == Err::<(), Reason>(Reason::Unauthorized),
            r == Err::<(), Reason>(Reason::InternalError) ==> sender@ == public_of(private_key@),
            !(r is Ok) ==> *final(self) == *old(self),
            sender@ == public_of(private_key@) && r != Err::<(), Reason>(Reason::InternalError)
                ==> {
                &&& spec_transfer_precheck(
                    old(self)@.wallets,
                    amount,
                    fee,
                    sender@,
                    receiver@,
                    time@,
                ) matches Some(e) ==> r == Err::<(), Reason>(e)
                &&& spec_transfer_precheck(
                    old(self)@.wallets,
                    amount,
                    fee,
                    sender@,
                    receiver@,
                    time@,
                ) is None ==> r is Ok
            },
            r is Ok ==> {
                &&& final(self)@.waiting.len() == old(self)@.waiting.len() + 1
                &&& final(self)@.waiting.subrange(0, old(self)@.waiting.len() as int)
                    == old(self)@.waiting
                &&& final(self)@.waiting.last() matches DataModel::Transaction {
                    fee: f2,
                    amount: a2,
                    time: t2,
                    sender: s2,
                    receiver: r2,
                    signature: g2,
                } && f2 == fee && a2 == amount && t2 == time@ && s2 == sender@ && r2 == receiver@
                    && sig_verifies(sender@, spec_data_hash(final(self)@.waiting.last()), g2)
                &&& final(self).chain == old(self).chain
                &&& final(self).wallets == old(self).wallets
                &&& final(self).wallet_ids == old(self).wallet_ids
            },
    {
        let derived = PublicKey::from_private(private_key);
        if *sender != derived {
            return Err(Reason::Unauthorized);
        }
        let probe = BlockData::Transaction {
            fee,
            amount,
            time,
            sender: sender.clone(),
            receiver: receiver.clone(),
            signature: Signature::empty(),
        };
        let h = probe.hash();
        let signature = match private_key.sign(&h) {
            Option::Some(s) => s,
            Option::None => {
                return Err(Reason::InternalError);
            },
        };
        let ev = BlockData::Transaction {
            fee,
            amount,
            time,
            sender: sender.clone(),
            receiver: receiver.clone(),
            signature,
        };
        proof {
            crate::codec::lemma_signable_ignores_signature(ev@, probe@);
            assert(spec_data_hash(ev@) == h@);
            lemma_transfer_reason(self@.wallets, self@.ids, ev@);
        }
        let r = self.submit_event(ev);
        proof {
            if r is Ok {
                assert(final(self)@.waiting.subrange(0, old(self)@.waiting.len() as int)
                    =~= old(self)@.waiting);
            }
            let c = spec_transfer_precheck(
                old(self)@.wallets,
                amount,
                fee,
                sender@,
                receiver@,
                time@,
            );
            match c {
                Option::Some(e) => {
                    assert(r == Err::<(), Reason>(e));
                },
                Option::None => {
                    assert(r is Ok);
                },
            }
        }
        r
    }

    /// The key an account reference denotes, resolving a numeric id through
    /// the id index.
    pub fn resolve_account(&self, acct: &AccountRef) -> (r: Option<PublicKey>)
        ensures
            match r {
                Option::Some(k) => spec_account_key(self@, *acct) == Some(k@),
                Option::None => spec_account_key(self@, *acct) is None,
            },
    {
        match acct {
            AccountRef::ByKey(k) => Some(k.clone()),
            AccountRef::ById(id) => match find_id_idx(&self.wallet_ids, *id) {
                Option::Some(i) => {
                    proof {
                        assert(ids_model(self.wallet_ids@)[i as int] == self.wallet_ids@[
                            i as int
                        ]@);
                    }
                    Some(self.wallet_ids[i].key.clone())
                },
                Option::None => None,
            },
        }
    }

    /// The balance of the referenced account, or `NotFound` when neither
    /// the reference nor the wallet resolves.
    pub fn query_balance(&self, acct: &AccountRef) -> (r: Result<u64, Reason>)
        ensures
            match spec_account_key(self@, *acct) {
                Option::None => r == Err::<u64, Reason>(Reason::NotFound),
                Option::Some(k) => if has_wallet(self@.wallets, k) {
                    r == Ok::<u64, Reason>(wallet_at(self@.wallets, k).balance)
                } else {
                    r == Err::<u64, Reason>(Reason::NotFound)
                },
            },
    {
        let key = match self.resolve_account(acct) {
            Option::Some(k) => k,
            Option::None => {
                return Err(Reason::NotFound);
            },
        };
        match find_wallet_idx(&self.wallets, &key) {
            Option::Some(i) => {
                proof {
                    assert(wallets_model(self.wallets@)[i as int] == self.wallets@[i as int]@);
                }
                Ok(self.wallets[i].wallet.balance)
            },
            Option::None => Err(Reason::NotFound),
        }
    }

    /// The chain's current validation result.
    pub fn query_validity(&self) -> (r: bool)
        ensures
            r == crate::block::spec_chain_valid(self@.chain),
    {
        self.chain.validate()
    }

    /// Drains the pending queue: returns the queued events in order and
    /// leaves the queue empty. Nothing else changes.
    pub fn take_waiting(&mut self) -> (r: Vec<BlockData>)
        ensures
            data_model_seq(r@) == old(self)@.waiting,
            final(self)@.waiting == Seq::<DataModel>::empty(),
            final(self).chain == old(self).chain,
            final(self).wallets == old(self).wallets,
            final(self).wallet_ids == old(self).wallet_ids,
    {
        let mut v: Vec<BlockData> = Vec::new();
        core::mem::swap(&mut v, &mut self.waiting);
        proof {
            assert(data_model_seq(self.waiting@) =~= Seq::<DataModel>::empty());
        }
        v
    }
}

/// Conservation: an accepted transfer between three distinct parties moves
/// exactly `amount` out of the sender, `amount - fee` to the receiver and
/// `fee` to the miner, and what the receiver and miner gain together is
/// exactly what the sender lost.
pub proof fn lemma_transfer_conservation(
    ws: Seq<WalletEntryModel>,
    ids: Seq<IdEntryModel>,
    fee: u64,
    amount: u64,
    time: u64,
    sender: Seq<u8>,
    receiver: Seq<u8>,
    signature: Seq<u8>,
    btime: u64,
    miner: Seq<u8>,
    ws2: Seq<WalletEntryModel>,
    ids2: Seq<IdEntryModel>,
)
    requires
        spec_apply_one(
            ws,
            ids,
            DataModel::Transaction { fee, amount, time, sender, receiver, signature },
            btime,
            miner,
        ) == Some((ws2, ids2)),
        sender != receiver,
        sender != miner,
        receiver != miner,
    ensures
        has_wallet(ws, sender) && has_wallet(ws, receiver) && has_wallet(ws, miner),
        wallet_at(ws2, sender).balance == wallet_at(ws, sender).balance - amount,
        wallet_at(ws2, receiver).balance == wallet_at(ws, receiver).balance + (amount - fee),
        wallet_at(ws2, miner).balance == wallet_at(ws, miner).balance + fee,
        (amount - fee) + fee == amount,
{
    reveal(spec_apply_one);
    reveal(spec_verify_reason);
    let d = DataModel::Transaction { fee, amount, time, sender, receiver, signature };
    let sw = wallet_at(ws, sender);
    let sw2 = WalletModel {
        balance: (sw.balance - amount) as u64,
        history: h_put(
            sw.history,
            time,
            TransactionModel::Send { fee, miner, amount, receiver },
        ),
        ..sw
    };
    let ws1 = wallet_set(ws, sender, sw2);
    lemma_wallet_set(ws, sender, sw2, sender);
    lemma_wallet_set(ws, sender, sw2, receiver);
    lemma_wallet_set(ws, sender, sw2, miner);
    let rw = wallet_at(ws1, receiver);
    let rw2 = WalletModel {
        balance: (rw.balance + amount - fee) as u64,
        history: h_put(
            rw.history,
            time,
            TransactionModel::Receive { amount: (amount - fee) as u64, sender },
        ),
        ..rw
    };
    let wsb = wallet_set(ws1, receiver, rw2);
    lemma_wallet_set(ws1, receiver, rw2, sender);
    lemma_wallet_set(ws1, receiver, rw2, receiver);
    lemma_wallet_set(ws1, receiver, rw2, miner);
    let mw = wallet_at(wsb, miner);
    let mw2 = WalletModel {
        balance: (mw.balance + fee) as u64,
        history: h_put(mw.history, time, TransactionModel::CollectFee { fee, sender }),
        ..mw
    };
    lemma_wallet_set(wsb, miner, mw2, sender);
    lemma_wallet_set(wsb, miner, mw2, receiver);
    lemma_wallet_set(wsb, miner, mw2, miner);
}

/// A new account's balance is exactly 100 — the fixed initial grant — right
/// after its creation event is applied, with an empty history.
pub proof fn lemma_create_initial_balance(
    ws: Seq<WalletEntryModel>,
    ids: Seq<IdEntryModel>,
    id: u64,
    key: Seq<u8>,
    time: u64,
    signature: Seq<u8>,
    btime: u64,
    miner: Seq<u8>,
    ws2: Seq<WalletEntryModel>,
    ids2: Seq<IdEntryModel>,
)
    requires
        spec_apply_one(
            ws,
            ids,
            DataModel::CreateWallet { id, key, time, signature },
            btime,
            miner,
        ) == Some((ws2, ids2)),
    ensures
        !has_wallet(ws, key),
        has_wallet(ws2, key),
        wallet_at(ws2, key).balance == 100,
        wallet_at(ws2, key).history == Seq::<HistoryEntryModel>::empty(),
        wallet_at(ws2, key).id == id,
    {
    reveal(spec_apply_one);
    reveal(spec_verify_reason);
    let w = WalletModel { id, balance: 100, creation_time: time, history: Seq::empty() };
    lemma_wallet_push(ws, WalletEntryModel { key, wallet: w }, key);
}

} // verus!
