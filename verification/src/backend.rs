//! The state backend: execution-context reads, latest-value reads through
//! the versioned store, and the apply/commit engine.

use vstd::prelude::*;
use crate::db::{account_log, code_log, storage_log, Db};
use crate::log::{
    resolve_account, resolve_code, resolve_storage, AccountRow, CodeRow, StorageRow,
};
use crate::state::StateMap;
use crate::types::{AccountV, Apply, ApplyV, Basic, Log, MemoryAccount, StoreError};
use crate::words::{be_val, Address, W256};

verus! {

/// Immutable per-run snapshot of chain and environment facts.
#[derive(Clone, PartialEq, Eq, Debug)]
pub struct MemoryVicinity {
    /// Gas price.
    pub gas_price: W256,
    /// Origin.
    pub origin: Address,
    /// Chain ID.
    pub chain_id: W256,
    /// Environmental block hashes, most recent first.
    pub block_hashes: Vec<W256>,
    /// Environmental block number.
    pub block_number: W256,
    /// Environmental coinbase.
    pub block_coinbase: Address,
    /// Environmental block timestamp.
    pub block_timestamp: W256,
    /// Environmental block difficulty.
    pub block_difficulty: W256,
    /// Environmental block gas limit.
    pub block_gas_limit: W256,
    /// Environmental base fee per gas.
    pub block_base_fee_per_gas: W256,
}

/// The views of a change-set batch, in order.
pub open spec fn views_of(s: Seq<Apply>) -> Seq<ApplyV> {
    s.map_values(|a: Apply| a@)
}

/// The rows one entry appends to the accounts table.
pub open spec fn entry_account_rows(e: ApplyV) -> Seq<AccountRow> {
    match e {
        ApplyV::Modify { address, balance, nonce, .. } => seq![
            (address, Some(balance), Some(nonce)),
        ],
        ApplyV::Delete { address } => seq![
            (address, None::<Seq<u8>>, None::<Seq<u8>>),
        ],
    }
}

/// The rows one entry appends to the code table.
pub open spec fn entry_code_rows(e: ApplyV) -> Seq<CodeRow> {
    match e {
        ApplyV::Modify { address, code, .. } => match code {
            Some(c) => seq![(address, Some(c))],
            None => Seq::empty(),
        },
        ApplyV::Delete { address } => seq![(address, None::<Seq<u8>>)],
    }
}

/// The rows one entry appends to the storage table.
pub open spec fn entry_storage_rows(e: ApplyV) -> Seq<StorageRow> {
    match e {
        ApplyV::Modify { address, storage, .. } => storage.map_values(
            |p: (Seq<u8>, Seq<u8>)| (address, p.0, p.1),
        ),
        ApplyV::Delete { .. } => Seq::empty(),
    }
}

/// The rows a whole batch appends to the accounts table, in order.
pub open spec fn batch_account_rows(es: Seq<ApplyV>) -> Seq<AccountRow>
    decreases es.len(),
{
    if es.len() == 0 {
        Seq::empty()
    } else {
        batch_account_rows(es.drop_last()) + entry_account_rows(es.last())
    }
}

/// The rows a whole batch appends to the code table, in order.
pub open spec fn batch_code_rows(es: Seq<ApplyV>) -> Seq<CodeRow>
    decreases es.len(),
{
    if es.len() == 0 {
        Seq::empty()
    } else {
        batch_code_rows(es.drop_last()) + entry_code_rows(es.last())
    }
}

/// The rows a whole batch appends to the storage table, in order.
pub open spec fn batch_storage_rows(es: Seq<ApplyV>) -> Seq<StorageRow>
    decreases es.len(),
{
    if es.len() == 0 {
        Seq::empty()
    } else {
        batch_storage_rows(es.drop_last()) + entry_storage_rows(es.last())
    }
}

/// An account with nothing recorded.
pub open spec fn empty_account() -> AccountV {
    AccountV { nonce: 0, balance: 0, storage: Seq::empty(), code: Seq::empty() }
}

/// The snapshot the index holds for an address, defaulting to empty.
pub open spec fn account_of(m: Map<Seq<u8>, AccountV>, a: Seq<u8>) -> AccountV {
    if m.contains_key(a) {
        m[a]
    } else {
        empty_account()
    }
}

/// What one change-set entry does to the existence index: a modify
/// overwrites balance and nonce, replaces the code when one is given, and
/// prunes the address when it ends up empty and pruning is requested; a
/// delete drops the address.
pub open spec fn apply_entry_index(
    m: Map<Seq<u8>, AccountV>,
    e: ApplyV,
    delete_empty: bool,
) -> Map<Seq<u8>, AccountV> {
    match e {
        ApplyV::Modify { address, balance, nonce, code, .. } => {
            let prev = account_of(m, address);
            let acc = AccountV {
                balance: be_val(balance),
                nonce: be_val(nonce),
                code: match code {
                    Some(c) => c,
                    None => prev.code,
                },
                storage: prev.storage,
            };
            if delete_empty && acc.balance == 0 && acc.nonce == 0 && acc.code.len() == 0 {
                m.remove(address)
            } else {
                m.insert(address, acc)
            }
        },
        ApplyV::Delete { address } => m.remove(address),
    }
}

/// What a whole batch does to the existence index, entry by entry.
pub open spec fn apply_index(
    m: Map<Seq<u8>, AccountV>,
    es: Seq<ApplyV>,
    delete_empty: bool,
) -> Map<Seq<u8>, AccountV>
    decreases es.len(),
{
    if es.len() == 0 {
        m
    } else {
        apply_entry_index(apply_index(m, es.drop_last(), delete_empty), es.last(), delete_empty)
    }
}

/// A batch of one entry appends exactly that entry's rows; this connects
/// the commit contract, phrased over whole batches, with the per-entry
/// laws.
pub proof fn lemma_batch_singleton(e: ApplyV)
    ensures
        batch_account_rows(seq![e]) == entry_account_rows(e),
        batch_code_rows(seq![e]) == entry_code_rows(e),
        batch_storage_rows(seq![e]) == entry_storage_rows(e),
{
    let es = seq![e];
    assert(es.drop_last() =~= Seq::<ApplyV>::empty());
    assert(es.last() == e);
    assert(batch_account_rows(es.drop_last()) == Seq::<AccountRow>::empty());
    assert(batch_code_rows(es.drop_last()) == Seq::<CodeRow>::empty());
    assert(batch_storage_rows(es.drop_last()) == Seq::<StorageRow>::empty());
    assert(Seq::<AccountRow>::empty() + entry_account_rows(e) =~= entry_account_rows(e));
    assert(Seq::<CodeRow>::empty() + entry_code_rows(e) =~= entry_code_rows(e));
    assert(Seq::<StorageRow>::empty() + entry_storage_rows(e) =~= entry_storage_rows(e));
}

proof fn lemma_batch_take_step(vs: Seq<ApplyV>, i: int)
    requires
        0 <= i < vs.len(),
    ensures
        batch_account_rows(vs.take(i + 1)) == batch_account_rows(vs.take(i))
            + entry_account_rows(vs[i]),
        batch_code_rows(vs.take(i + 1)) == batch_code_rows(vs.take(i)) + entry_code_rows(vs[i]),
        batch_storage_rows(vs.take(i + 1)) == batch_storage_rows(vs.take(i))
            + entry_storage_rows(vs[i]),
{
    assert(vs.take(i + 1).drop_last() =~= vs.take(i));
    assert(vs.take(i + 1).last() == vs[i]);
}

proof fn lemma_apply_index_take_step(m: Map<Seq<u8>, AccountV>, vs: Seq<ApplyV>, i: int, de: bool)
    requires
        0 <= i < vs.len(),
    ensures
        apply_index(m, vs.take(i + 1), de) == apply_entry_index(
            apply_index(m, vs.take(i), de),
            vs[i],
            de,
        ),
{
    assert(vs.take(i + 1).drop_last() =~= vs.take(i));
    assert(vs.take(i + 1).last() == vs[i]);
}

/// A byte-for-byte copy.
fn copy_bytes(v: &Vec<u8>) -> (r: Vec<u8>)
    ensures
        r@ == v@,
{
    let mut r: Vec<u8> = Vec::new();
    let mut i: usize = 0;
    while i < v.len()
        invariant
            i <= v@.len(),
            r@ =~= v@.take(i as int),
        decreases v@.len() - i,
    {
        r.push(v[i]);
        i = i + 1;
    }
    proof {
        assert(v@.take(v@.len() as int) =~= v@);
    }
    r
}

/// A pairwise copy of storage entries.
fn copy_pairs(v: &Vec<(W256, W256)>) -> (r: Vec<(W256, W256)>)
    ensures
        r@ == v@,
{
    let mut r: Vec<(W256, W256)> = Vec::new();
    let mut i: usize = 0;
    while i < v.len()
        invariant
            i <= v@.len(),
            r@ =~= v@.take(i as int),
        decreases v@.len() - i,
    {
        r.push(v[i]);
        i = i + 1;
    }
    proof {
        assert(v@.take(v@.len() as int) =~= v@);
    }
    r
}

/// The state backend: a durable versioned store, the execution context it
/// serves alongside, the existence index, and the batch's log records.
pub struct MemoryBackend<'vicinity> {
    pub db: Db,
    pub vicinity: &'vicinity MemoryVicinity,
    pub state: StateMap,
    pub logs: Vec<Log>,
}

impl<'vicinity> MemoryBackend<'vicinity> {
    /// Well-formed: the existence index holds each address once.
    pub open spec fn wf(self) -> bool {
        self.state.wf()
    }

    /// Opens the backend: attaches to the store at `db_path`, or creates a
    /// fresh (hence empty) schema there when `genesis` is set.
    pub fn new(
        vicinity: &'vicinity MemoryVicinity,
        state: StateMap,
        db_path: String,
        genesis: bool,
    ) -> (r: Result<MemoryBackend<'vicinity>, StoreError>)
        requires
            state.wf(),
        ensures
            r is Ok ==> r->Ok_0.wf(),
            r is Ok ==> r->Ok_0.vicinity == vicinity,
            r is Ok ==> r->Ok_0.state@ == state@,
            r is Ok ==> r->Ok_0.logs@ == Seq::<Log>::empty(),
            r is Ok && genesis ==> account_log(r->Ok_0.db) == Seq::<AccountRow>::empty()
                && code_log(r->Ok_0.db) == Seq::<CodeRow>::empty() && storage_log(r->Ok_0.db)
                == Seq::<StorageRow>::empty(),
            r is Err ==> r->Err_0 is Configuration,
    {
        let mut db = match Db::open(db_path.as_str()) {
            Ok(db) => db,
            Err(m) => {
                return Err(StoreError::Configuration(m));
            },
        };
        if genesis {
            match db.create_schema() {
                Ok(()) => {},
                Err(m) => {
                    return Err(StoreError::Configuration(m));
                },
            }
        }
        Ok(MemoryBackend { db, vicinity, state, logs: Vec::new() })
    }

    /// The existence index.
    pub fn state(&self) -> (r: &StateMap)
        ensures
            *r == self.state,
    {
        &self.state
    }

    /// Mutable access to the existence index.
    pub fn state_mut(&mut self) -> (r: &mut StateMap)
        ensures
            *r == old(self).state,
            final(self).state == *final(r),
            final(self).db == old(self).db,
            final(self).logs == old(self).logs,
            final(self).vicinity == old(self).vicinity,
    {
        &mut self.state
    }

    /// Gas price of the execution context.
    pub fn gas_price(&self) -> (r: W256)
        ensures
            r == self.vicinity.gas_price,
    {
        self.vicinity.gas_price
    }

    /// Origin address of the execution context.
    pub fn origin(&self) -> (r: Address)
        ensures
            r == self.vicinity.origin,
    {
        self.vicinity.origin
    }

    /// Chain id of the execution context.
    pub fn chain_id(&self) -> (r: W256)
        ensures
            r == self.vicinity.chain_id,
    {
        self.vicinity.chain_id
    }

    /// Block number of the execution context.
    pub fn block_number(&self) -> (r: W256)
        ensures
            r == self.vicinity.block_number,
    {
        self.vicinity.block_number
    }

    /// Coinbase of the execution context.
    pub fn block_coinbase(&self) -> (r: Address)
        ensures
            r == self.vicinity.block_coinbase,
    {
        self.vicinity.block_coinbase
    }

    /// Timestamp of the execution context.
    pub fn block_timestamp(&self) -> (r: W256)
        ensures
            r == self.vicinity.block_timestamp,
    {
        self.vicinity.block_timestamp
    }

    /// Difficulty of the execution context.
    pub fn block_difficulty(&self) -> (r: W256)
        ensures
            r == self.vicinity.block_difficulty,
    {
        self.vicinity.block_difficulty
    }

    /// Gas limit of the execution context.
    pub fn block_gas_limit(&self) -> (r: W256)
        ensures
            r == self.vicinity.block_gas_limit,
    {
        self.vicinity.block_gas_limit
    }

    /// Base fee per gas of the execution context.
    pub fn block_base_fee_per_gas(&self) -> (r: W256)
        ensures
            r == self.vicinity.block_base_fee_per_gas,
    {
        self.vicinity.block_base_fee_per_gas
    }

    /// The hash of block `number`: the zero hash at or beyond the current
    /// block, or outside the retained window; otherwise the window entry at
    /// offset `block_number - number - 1`.
    pub fn block_hash(&self, number: &W256) -> (r: W256)
        ensures
            (number@ >= self.vicinity.block_number@ || self.vicinity.block_number@ - number@ - 1
                >= self.vicinity.block_hashes@.len()) ==> r@ == 0,
            (number@ < self.vicinity.block_number@ && self.vicinity.block_number@ - number@ - 1
                < self.vicinity.block_hashes@.len()) ==> r == self.vicinity.block_hashes@[
                self.vicinity.block_number@ - number@ - 1
            ],
    {
        if !number.lt(&self.vicinity.block_number) {
            return W256::zero();
        }
        let diff = self.vicinity.block_number.sub(number);
        let len_w = W256::from_u64(self.vicinity.block_hashes.len() as u64);
        if len_w.lt(&diff) {
            return W256::zero();
        }
        let idx = diff.as_u64() - 1;
        self.vicinity.block_hashes[idx as usize]
    }

    /// Whether the address is present in the existence index.
    pub fn exists_account(&self, address: &Address) -> (r: bool)
        requires
            self.wf(),
        ensures
            r == self.state@.contains_key(address@),
    {
        self.state.contains_key(address)
    }

    /// Balance and nonce the store resolves the address to.
    pub fn basic(&self, address: &Address) -> (r: Result<Basic, StoreError>)
        ensures
            ({
                let res = resolve_account(account_log(self.db), address@);
                match r {
                    Ok(b) => res == Some((b.balance@, b.nonce@)),
                    Err(StoreError::Encoding) => res is None,
                    Err(StoreError::Query(_)) => true,
                    Err(_) => false,
                }
            }),
    {
        let addr_bytes = address.to_bytes();
        let row = match self.db.latest_account(&addr_bytes) {
            Ok(row) => row,
            Err(m) => {
                return Err(StoreError::Query(m));
            },
        };
        match row {
            None => Ok(Basic { balance: W256::zero(), nonce: W256::zero() }),
            Some((balance_col, nonce_col)) => match (balance_col, nonce_col) {
                (Some(balance), Some(nonce)) => {
                    let b = W256::from_bytes(balance.as_slice());
                    let n = W256::from_bytes(nonce.as_slice());
                    match (b, n) {
                        (Some(b), Some(n)) => Ok(Basic { balance: b, nonce: n }),
                        _ => Err(StoreError::Encoding),
                    }
                },
                _ => Ok(Basic { balance: W256::zero(), nonce: W256::zero() }),
            },
        }
    }

    /// Bytecode the store resolves the address to.
    pub fn code(&self, address: &Address) -> (r: Result<Vec<u8>, StoreError>)
        ensures
            r is Ok ==> r->Ok_0@ == resolve_code(code_log(self.db), address@),
            r is Err ==> r->Err_0 is Query,
    {
        let addr_bytes = address.to_bytes();
        match self.db.latest_code(&addr_bytes) {
            Err(m) => Err(StoreError::Query(m)),
            Ok(None) => Ok(Vec::new()),
            Ok(Some(None)) => Ok(Vec::new()),
            Ok(Some(Some(code))) => Ok(code),
        }
    }

    /// Value the store resolves the (address, slot) pair to.
    pub fn storage(&self, address: &Address, index: &W256) -> (r: Result<W256, StoreError>)
        ensures
            ({
                let res = resolve_storage(storage_log(self.db), address@, index.b@);
                match r {
                    Ok(v) => res == Some(v@),
                    Err(StoreError::Encoding) => res is None,
                    Err(StoreError::Query(_)) => true,
                    Err(_) => false,
                }
            }),
    {
        let addr_bytes = address.to_bytes();
        let slot_bytes = index.to_bytes();
        match self.db.latest_storage(&addr_bytes, &slot_bytes) {
            Err(m) => Err(StoreError::Query(m)),
            Ok(None) => Ok(W256::zero()),
            Ok(Some(value)) => match W256::from_bytes(value.as_slice()) {
                Some(v) => Ok(v),
                None => Err(StoreError::Encoding),
            },
        }
    }

    /// Commits a change-set batch: appends the account, code and storage
    /// rows of every entry, in order, inside one enclosing transaction;
    /// updates the existence index entry by entry; then appends the batch's
    /// log records to the in-memory log sequence.  On any persistence
    /// failure the transaction is rolled back, the index and the log
    /// records are left untouched, and the whole batch reports a commit
    /// failure.  Commits are serialized by the exclusive borrow: one writer
    /// at a time, so insertion order is a single global order.
    #[verifier::loop_isolation(false)]
    #[verifier::rlimit(60)]
    pub fn apply(&mut self, values: Vec<Apply>, logs: Vec<Log>, delete_empty: bool) -> (r: Result<
        (),
        StoreError,
    >)
        requires
            old(self).wf(),
        ensures
            final(self).wf(),
            final(self).vicinity == old(self).vicinity,
            r is Ok ==> account_log(final(self).db) == account_log(old(self).db)
                + batch_account_rows(views_of(values@)),
            r is Ok ==> code_log(final(self).db) == code_log(old(self).db) + batch_code_rows(
                views_of(values@),
            ),
            r is Ok ==> storage_log(final(self).db) == storage_log(old(self).db)
                + batch_storage_rows(views_of(values@)),
            r is Ok ==> final(self).state@ == apply_index(
                old(self).state@,
                views_of(values@),
                delete_empty,
            ),
            r is Ok ==> final(self).logs@ == old(self).logs@ + logs@,
            r is Err ==> r->Err_0 is Commit,
            r is Err ==> final(self).state@ == old(self).state@ && final(self).logs@ == old(
                self,
            ).logs@,
    {
        let ghost vs = views_of(values@);
        if let Err(m) = self.db.begin_tx() {
            return Err(StoreError::Commit(m));
        }
        proof {
            assert(vs.take(0) =~= Seq::<ApplyV>::empty());
            assert(account_log(self.db) + batch_account_rows(vs.take(0)) =~= account_log(
                self.db,
            ));
            assert(code_log(self.db) + batch_code_rows(vs.take(0)) =~= code_log(self.db));
            assert(storage_log(self.db) + batch_storage_rows(vs.take(0)) =~= storage_log(
                self.db,
            ));
        }
        let mut idx: usize = 0;
        while idx < values.len()
            invariant
                idx <= values@.len(),
                self.state == old(self).state,
                self.logs == old(self).logs,
                self.vicinity == old(self).vicinity,
                account_log(self.db) == account_log(old(self).db) + batch_account_rows(
                    vs.take(idx as int),
                ),
                code_log(self.db) == code_log(old(self).db) + batch_code_rows(vs.take(idx as int)),
                storage_log(self.db) == storage_log(old(self).db) + batch_storage_rows(
                    vs.take(idx as int),
                ),
            decreases values@.len() - idx,
        {
            let ghost alog0 = account_log(self.db);
            let ghost clog0 = code_log(self.db);
            let ghost slog0 = storage_log(self.db);
            proof {
                assert(vs[idx as int] == values@[idx as int]@);
            }
            match &values[idx] {
                Apply::Modify { address, basic, code, storage, reset_storage: _ } => {
                    let addr_bytes = address.to_bytes();
                    if let Some(c) = code {
                        if let Err(m) = self.db.insert_code(&addr_bytes, c) {
                            let _ = self.db.rollback_tx();
                            return Err(StoreError::Commit(m));
                        }
                        proof {
                            assert(code_log(self.db) =~= clog0 + entry_code_rows(vs[idx as int]));
                        }
                    } else {
                        proof {
                            assert(code_log(self.db) =~= clog0 + entry_code_rows(vs[idx as int]));
                        }
                    }
                    let bal_bytes = basic.balance.to_bytes();
                    let nonce_bytes = basic.nonce.to_bytes();
                    if let Err(m) = self.db.insert_account(&addr_bytes, &bal_bytes, &nonce_bytes) {
                        let _ = self.db.rollback_tx();
                        return Err(StoreError::Commit(m));
                    }
                    proof {
                        assert(account_log(self.db) =~= alog0 + entry_account_rows(
                            vs[idx as int],
                        ));
                    }
                    let ghost srows = entry_storage_rows(vs[idx as int]);
                    let ghost alog1 = account_log(self.db);
                    let ghost clog1 = code_log(self.db);
                    proof {
                        assert(storage_log(self.db) + srows.take(0) =~= storage_log(self.db));
                    }
                    let ghost slog1 = storage_log(self.db);
                    let mut j: usize = 0;
                    while j < storage.len()
                        invariant
                            j <= storage@.len(),
                            self.state == old(self).state,
                            self.logs == old(self).logs,
                            self.vicinity == old(self).vicinity,
                            account_log(self.db) == alog1,
                            code_log(self.db) == clog1,
                            storage_log(self.db) == slog1 + srows.take(j as int),
                        decreases storage@.len() - j,
                    {
                        let slot_bytes = storage[j].0.to_bytes();
                        let val_bytes = storage[j].1.to_bytes();
                        if let Err(m) = self.db.insert_storage(
                            &addr_bytes,
                            &slot_bytes,
                            &val_bytes,
                        ) {
                            let _ = self.db.rollback_tx();
                            return Err(StoreError::Commit(m));
                        }
                        proof {
                            assert(srows[j as int] == (
                                address@,
                                storage@[j as int].0.b@,
                                storage@[j as int].1.b@,
                            ));
                            assert(srows.take(j + 1) =~= srows.take(j as int).push(
                                srows[j as int],
                            ));
                            assert((slog1 + srows.take(j as int)).push(srows[j as int]) =~= slog1
                                + srows.take(j + 1));
                        }
                        j = j + 1;
                    }
                    proof {
                        assert(srows.take(storage@.len() as int) =~= srows);
                        lemma_batch_take_step(vs, idx as int);
                        assert(account_log(self.db) =~= account_log(old(self).db)
                            + batch_account_rows(vs.take(idx + 1)));
                        assert(code_log(self.db) =~= code_log(old(self).db) + batch_code_rows(
                            vs.take(idx + 1),
                        ));
                        assert(storage_log(self.db) =~= storage_log(old(self).db)
                            + batch_storage_rows(vs.take(idx + 1)));
                    }
                },
                Apply::Delete { address } => {
                    let addr_bytes = address.to_bytes();
                    if let Err(m) = self.db.insert_code_tombstone(&addr_bytes) {
                        let _ = self.db.rollback_tx();
                        return Err(StoreError::Commit(m));
                    }
                    if let Err(m) = self.db.insert_account_tombstone(&addr_bytes) {
                        let _ = self.db.rollback_tx();
                        return Err(StoreError::Commit(m));
                    }
                    proof {
                        lemma_batch_take_step(vs, idx as int);
                        assert(account_log(self.db) =~= account_log(old(self).db)
                            + batch_account_rows(vs.take(idx + 1)));
                        assert(code_log(self.db) =~= code_log(old(self).db) + batch_code_rows(
                            vs.take(idx + 1),
                        ));
                        assert(storage_log(self.db) =~= storage_log(old(self).db)
                            + batch_storage_rows(vs.take(idx + 1)));
                    }
                },
            }
            idx = idx + 1;
        }
        if let Err(m) = self.db.commit_tx() {
            let _ = self.db.rollback_tx();
            return Err(StoreError::Commit(m));
        }
        proof {
            assert(vs.take(values@.len() as int) =~= vs);
        }
        let ghost db_done = self.db;
        let mut idx2: usize = 0;
        proof {
            assert(vs.take(0) =~= Seq::<ApplyV>::empty());
        }
        while idx2 < values.len()
            invariant
                idx2 <= values@.len(),
                self.db == db_done,
                self.logs == old(self).logs,
                self.vicinity == old(self).vicinity,
                self.state.wf(),
                self.state@ == apply_index(old(self).state@, vs.take(idx2 as int), delete_empty),
            decreases values@.len() - idx2,
        {
            let ghost cur = self.state@;
            proof {
                assert(vs[idx2 as int] == values@[idx2 as int]@);
                lemma_apply_index_take_step(old(self).state@, vs, idx2 as int, delete_empty);
            }
            match &values[idx2] {
                Apply::Modify { address, basic, code, storage: _, reset_storage: _ } => {
                    let (prev_code, prev_storage) = match self.state.get(address) {
                        Some(acc) => (copy_bytes(&acc.code), copy_pairs(&acc.storage)),
                        None => (Vec::new(), Vec::new()),
                    };
                    proof {
                        let prev = account_of(cur, address@);
                        assert(prev_code@ == prev.code);
                        assert(prev_storage@.map_values(|p: (W256, W256)| (p.0@, p.1@))
                            == prev.storage);
                    }
                    let new_code = match code {
                        Some(c) => copy_bytes(c),
                        None => prev_code,
                    };
                    let acc = MemoryAccount {
                        nonce: basic.nonce,
                        balance: basic.balance,
                        storage: prev_storage,
                        code: new_code,
                    };
                    let prune = delete_empty && basic.balance.is_zero() && basic.nonce.is_zero()
                        && acc.code.len() == 0;
                    if prune {
                        self.state.remove(address);
                    } else {
                        self.state.insert(*address, acc);
                    }
                    proof {
                        assert(self.state@ == apply_entry_index(
                            cur,
                            vs[idx2 as int],
                            delete_empty,
                        ));
                    }
                },
                Apply::Delete { address } => {
                    self.state.remove(address);
                },
            }
            idx2 = idx2 + 1;
        }
        proof {
            assert(vs.take(values@.len() as int) =~= vs);
        }
        let mut batch_logs = logs;
        self.logs.append(&mut batch_logs);
        Ok(())
    }

    /// In this design identical to `storage`: no distinct value as of
    /// transaction start is tracked.
    pub fn original_storage(&self, address: &Address, index: &W256) -> (r: Result<
        Option<W256>,
        StoreError,
    >)
        ensures
            ({
                let res = resolve_storage(storage_log(self.db), address@, index.b@);
                match r {
                    Ok(v) => v is Some && res == Some(v->0@),
                    Err(StoreError::Encoding) => res is None,
                    Err(StoreError::Query(_)) => true,
                    Err(_) => false,
                }
            }),
    {
        match self.storage(address, index) {
            Ok(v) => Ok(Some(v)),
            Err(e) => Err(e),
        }
    }
}

} // verus!
