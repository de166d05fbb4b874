use quarkevm::backend::{MemoryBackend, MemoryVicinity};
use quarkevm::state::StateMap;
use quarkevm::types::{Apply, Basic, Log, MemoryAccount, StoreError};
use quarkevm::words::{Address, W256};

fn vicinity() -> MemoryVicinity {
    MemoryVicinity {
        gas_price: W256::zero(),
        origin: Address { b: [0u8; 20] },
        chain_id: W256::from_u64(1),
        block_hashes: Vec::new(),
        block_number: W256::zero(),
        block_coinbase: Address { b: [0u8; 20] },
        block_timestamp: W256::zero(),
        block_difficulty: W256::zero(),
        block_gas_limit: W256::zero(),
        block_base_fee_per_gas: W256::zero(),
    }
}

fn fresh<'v>(vicinity: &'v MemoryVicinity) -> MemoryBackend<'v> {
    MemoryBackend::new(vicinity, StateMap::new(), ":memory:".to_string(), true).unwrap()
}

fn addr(tag: u8) -> Address {
    let mut b = [0u8; 20];
    b[0] = tag;
    Address { b }
}

fn modify(a: Address, balance: u64, nonce: u64, code: Option<Vec<u8>>, storage: Vec<(W256, W256)>) -> Apply {
    Apply::Modify {
        address: a,
        basic: Basic { balance: W256::from_u64(balance), nonce: W256::from_u64(nonce) },
        code,
        storage,
        reset_storage: false,
    }
}

#[test]
fn unwritten_address_reads_as_zero() {
    let v = vicinity();
    let backend = fresh(&v);
    let a = addr(7);
    let basic = backend.basic(&a).unwrap();
    assert_eq!(basic.balance, W256::zero());
    assert_eq!(basic.nonce, W256::zero());
    assert_eq!(backend.code(&a).unwrap(), Vec::<u8>::new());
    assert_eq!(backend.storage(&a, &W256::from_u64(3)).unwrap(), W256::zero());
    assert!(!backend.exists_account(&a));
}

#[test]
fn committed_modify_is_read_back() {
    let v = vicinity();
    let mut backend = fresh(&v);
    let a = addr(1);
    let slot1 = W256::from_u64(5);
    let one = W256::from_u64(1);
    let batch = vec![modify(a, 10, 1, Some(vec![0xAA]), vec![(slot1, one)])];
    backend.apply(batch, Vec::new(), false).unwrap();
    let basic = backend.basic(&a).unwrap();
    assert_eq!(basic.balance, W256::from_u64(10));
    assert_eq!(basic.nonce, W256::from_u64(1));
    assert_eq!(backend.code(&a).unwrap(), vec![0xAA]);
    assert_eq!(backend.storage(&a, &slot1).unwrap(), one);
    assert_eq!(backend.original_storage(&a, &slot1).unwrap(), Some(one));
    assert!(backend.exists_account(&a));
}

#[test]
fn second_commit_shadows_first() {
    let v = vicinity();
    let mut backend = fresh(&v);
    let a = addr(2);
    let slot = W256::from_u64(9);
    backend
        .apply(
            vec![modify(a, 100, 1, Some(vec![1, 2]), vec![(slot, W256::from_u64(11))])],
            Vec::new(),
            false,
        )
        .unwrap();
    backend
        .apply(
            vec![modify(a, 200, 2, Some(vec![3]), vec![(slot, W256::from_u64(22))])],
            Vec::new(),
            false,
        )
        .unwrap();
    let basic = backend.basic(&a).unwrap();
    assert_eq!(basic.balance, W256::from_u64(200));
    assert_eq!(basic.nonce, W256::from_u64(2));
    assert_eq!(backend.code(&a).unwrap(), vec![3]);
    assert_eq!(backend.storage(&a, &slot).unwrap(), W256::from_u64(22));
}

#[test]
fn pruning_drops_emptied_account() {
    let v = vicinity();
    let mut backend = fresh(&v);
    let a = addr(3);
    backend.apply(vec![modify(a, 5, 1, None, Vec::new())], Vec::new(), false).unwrap();
    assert!(backend.exists_account(&a));
    backend
        .apply(vec![modify(a, 0, 0, Some(Vec::new()), Vec::new())], Vec::new(), true)
        .unwrap();
    assert!(!backend.exists_account(&a));
}

#[test]
fn empty_commit_without_pruning_keeps_index_entry() {
    let v = vicinity();
    let mut backend = fresh(&v);
    let a = addr(4);
    backend
        .apply(vec![modify(a, 0, 0, Some(Vec::new()), Vec::new())], Vec::new(), false)
        .unwrap();
    assert!(backend.exists_account(&a));
}

#[test]
fn identical_commits_leave_reads_unchanged() {
    let v = vicinity();
    let mut backend = fresh(&v);
    let a = addr(5);
    let slot = W256::from_u64(1);
    let entry = || modify(a, 42, 7, Some(vec![9, 9]), vec![(slot, W256::from_u64(3))]);
    backend.apply(vec![entry()], Vec::new(), false).unwrap();
    let basic1 = backend.basic(&a).unwrap();
    let code1 = backend.code(&a).unwrap();
    let storage1 = backend.storage(&a, &slot).unwrap();
    backend.apply(vec![entry()], Vec::new(), false).unwrap();
    assert_eq!(backend.basic(&a).unwrap(), basic1);
    assert_eq!(backend.code(&a).unwrap(), code1);
    assert_eq!(backend.storage(&a, &slot).unwrap(), storage1);
}

#[test]
fn genesis_end_to_end() {
    let v = vicinity();
    let mut backend = fresh(&v);
    let any = addr(0x99);
    let basic = backend.basic(&any).unwrap();
    assert_eq!(basic.balance, W256::zero());
    assert_eq!(basic.nonce, W256::zero());
    let f = addr(0xF0);
    backend.apply(vec![modify(f, 1000, 0, None, Vec::new())], Vec::new(), false).unwrap();
    let basic = backend.basic(&f).unwrap();
    assert_eq!(basic.balance, W256::from_u64(1000));
    assert_eq!(basic.nonce, W256::zero());
}

#[test]
fn delete_tombstones_and_drops_index_entry() {
    let v = vicinity();
    let mut backend = fresh(&v);
    let a = addr(6);
    backend
        .apply(vec![modify(a, 77, 1, Some(vec![1]), Vec::new())], Vec::new(), false)
        .unwrap();
    backend.apply(vec![Apply::Delete { address: a }], Vec::new(), false).unwrap();
    assert!(!backend.exists_account(&a));
    let basic = backend.basic(&a).unwrap();
    assert_eq!(basic.balance, W256::zero());
    assert_eq!(basic.nonce, W256::zero());
    assert_eq!(backend.code(&a).unwrap(), Vec::<u8>::new());
}

#[test]
fn logs_are_appended_in_order() {
    let v = vicinity();
    let mut backend = fresh(&v);
    let log1 = Log { address: addr(1), topics: vec![W256::from_u64(1)], data: vec![1] };
    let log2 = Log { address: addr(2), topics: Vec::new(), data: vec![2, 2] };
    backend.apply(Vec::new(), vec![log1.clone(), log2.clone()], false).unwrap();
    assert_eq!(backend.logs.len(), 2);
    assert_eq!(backend.logs[0], log1);
    assert_eq!(backend.logs[1], log2);
    backend.apply(Vec::new(), vec![log2.clone()], false).unwrap();
    assert_eq!(backend.logs.len(), 3);
    assert_eq!(backend.logs[2], log2);
}

#[test]
fn index_insert_with_equal_keys_shadows() {
    let mut state = StateMap::new();
    let a = addr(8);
    let mut acc = MemoryAccount::empty();
    acc.balance = W256::from_u64(1);
    state.insert(a, acc);
    let mut acc2 = MemoryAccount::empty();
    acc2.balance = W256::from_u64(2);
    state.insert(a, acc2);
    assert!(state.contains_key(&a));
    assert_eq!(state.get(&a).unwrap().balance, W256::from_u64(2));
    state.remove(&a);
    assert!(!state.contains_key(&a));
    assert!(state.get(&a).is_none());
}

#[test]
fn invalid_db_path_is_a_configuration_error() {
    let v = vicinity();
    let r = MemoryBackend::new(&v, StateMap::new(), "/tmp".to_string(), false);
    assert!(matches!(r, Err(StoreError::Configuration(_))));
}

#[test]
fn commit_against_missing_schema_fails_and_keeps_index() {
    let v = vicinity();
    // attach mode on a fresh in-memory database: no tables exist
    let mut backend =
        MemoryBackend::new(&v, StateMap::new(), ":memory:".to_string(), false).unwrap();
    let a = addr(9);
    let r = backend.apply(vec![modify(a, 1, 1, None, Vec::new())], Vec::new(), false);
    assert!(matches!(r, Err(StoreError::Commit(_))));
    assert!(!backend.exists_account(&a));
    assert_eq!(backend.logs.len(), 0);
}

#[test]
fn malformed_stored_width_is_an_encoding_error() {
    let v = vicinity();
    let mut backend = fresh(&v);
    let a = addr(10);
    // a foreign writer stored a two-byte balance; the read must surface it
    backend.db.insert_account(&a.to_bytes(), &vec![1, 2], &vec![0u8; 32]).unwrap();
    let r = backend.basic(&a);
    assert!(matches!(r, Err(StoreError::Encoding)));
    // storage is checked the same way
    backend.db.insert_storage(&a.to_bytes(), &vec![0u8; 32], &vec![5]).unwrap();
    let r = backend.storage(&a, &W256::zero());
    assert!(matches!(r, Err(StoreError::Encoding)));
}

#[test]
fn block_hash_respects_the_window() {
    let mut v = vicinity();
    v.block_number = W256::from_u64(5);
    v.block_hashes = vec![W256::from_u64(1001), W256::from_u64(1002), W256::from_u64(1003)];
    let backend = fresh(&v);
    // block 4 is the most recent retained hash
    assert_eq!(backend.block_hash(&W256::from_u64(4)), W256::from_u64(1001));
    assert_eq!(backend.block_hash(&W256::from_u64(3)), W256::from_u64(1002));
    assert_eq!(backend.block_hash(&W256::from_u64(2)), W256::from_u64(1003));
    // outside the window, at the current block, and beyond it: zero
    assert_eq!(backend.block_hash(&W256::from_u64(1)), W256::zero());
    assert_eq!(backend.block_hash(&W256::from_u64(5)), W256::zero());
    assert_eq!(backend.block_hash(&W256::from_u64(6)), W256::zero());
}

#[test]
fn vicinity_accessors_forward_fields() {
    let mut v = vicinity();
    v.gas_price = W256::from_u64(3);
    v.block_timestamp = W256::from_u64(99);
    let backend = fresh(&v);
    assert_eq!(backend.gas_price(), W256::from_u64(3));
    assert_eq!(backend.origin(), Address { b: [0u8; 20] });
    assert_eq!(backend.chain_id(), W256::from_u64(1));
    assert_eq!(backend.block_number(), W256::zero());
    assert_eq!(backend.block_coinbase(), Address { b: [0u8; 20] });
    assert_eq!(backend.block_timestamp(), W256::from_u64(99));
    assert_eq!(backend.block_difficulty(), W256::zero());
    assert_eq!(backend.block_gas_limit(), W256::zero());
    assert_eq!(backend.block_base_fee_per_gas(), W256::zero());
    assert_eq!(backend.state().get(&addr(1)).map(|a| a.clone()), None);
}
