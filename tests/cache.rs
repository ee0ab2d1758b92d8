use revm_core::db::{
    Account, AccountState, BenchmarkDB, CacheDB, EmptyDB, StorageSlot,
};
use revm_core::maps::SlotMap;
use revm_core::plain_account::PlainAccount;
use revm_core::primitives::{keccak_empty, AccountInfo, Bytecode};
use revm_core::word::{Address, U256};
use std::cell::Cell;
use std::convert::Infallible;

#[test]
fn test_insert_account_storage() {
    let account: Address = 42u64.into();
    let nonce = 42;
    let mut init_state = CacheDB::new(EmptyDB::default());
    init_state.insert_account_info(
        account,
        AccountInfo {
            nonce,
            ..Default::default()
        },
    );

    let (key, value) = (U256::from(123u64), U256::from(456u64));
    let mut new_state = CacheDB::new(init_state);
    let _ = new_state.insert_account_storage(account, key, value);

    assert_eq!(new_state.basic(account).unwrap().unwrap().nonce, nonce);
    assert_eq!(new_state.storage(account, key), Ok(value));
}

#[test]
fn test_replace_account_storage() {
    let account: Address = 42u64.into();
    let nonce = 42;
    let mut init_state = CacheDB::new(EmptyDB::default());
    init_state.insert_account_info(
        account,
        AccountInfo {
            nonce,
            ..Default::default()
        },
    );

    let (key0, value0) = (U256::from(123u64), U256::from(456u64));
    let (key1, value1) = (U256::from(789u64), U256::from(999u64));
    let _ = init_state.insert_account_storage(account, key0, value0);

    let mut new_state = CacheDB::new(init_state);
    let _ = new_state.replace_account_storage(account, vec![(key1, value1)]);

    assert_eq!(new_state.basic(account).unwrap().unwrap().nonce, nonce);
    assert_eq!(new_state.storage(account, key0), Ok(U256::zero()));
    assert_eq!(new_state.storage(account, key1), Ok(value1));
}

/// A source that counts how often it is asked.
struct CountingSource {
    basic_calls: Cell<u32>,
    storage_calls: Cell<u32>,
    exists: bool,
}

impl CountingSource {
    fn new(exists: bool) -> CountingSource {
        CountingSource { basic_calls: Cell::new(0), storage_calls: Cell::new(0), exists }
    }
}

impl revm_core::db::DatabaseRef for CountingSource {
    type Error = Infallible;

    fn basic(&self, _address: Address) -> Result<Option<AccountInfo>, Infallible> {
        self.basic_calls.set(self.basic_calls.get() + 1);
        if self.exists {
            Ok(Some(AccountInfo { nonce: 7, ..Default::default() }))
        } else {
            Ok(None)
        }
    }

    fn code_by_hash(&self, _code_hash: U256) -> Result<Bytecode, Infallible> {
        Ok(Bytecode::new())
    }

    fn storage(&self, _address: Address, index: U256) -> Result<U256, Infallible> {
        self.storage_calls.set(self.storage_calls.get() + 1);
        Ok(U256::from(index.lo as u64 + 1000))
    }

    fn block_hash(&self, _number: U256) -> Result<U256, Infallible> {
        Ok(U256::zero())
    }
}

#[test]
fn second_account_read_is_cached() {
    let mut db = CacheDB::new(CountingSource::new(true));
    let a = Address::from(5u64);
    let first = db.basic(a).unwrap().unwrap();
    let second = db.basic(a).unwrap().unwrap();
    assert_eq!(first.nonce, 7);
    assert_eq!(second.nonce, 7);
    assert_eq!(db.db.basic_calls.get(), 1);
}

#[test]
fn second_slot_read_is_cached() {
    let mut db = CacheDB::new(CountingSource::new(true));
    let a = Address::from(5u64);
    assert_eq!(db.storage(a, U256::from(3u64)), Ok(U256::from(1003u64)));
    assert_eq!(db.storage(a, U256::from(3u64)), Ok(U256::from(1003u64)));
    assert_eq!(db.db.basic_calls.get(), 1);
    assert_eq!(db.db.storage_calls.get(), 1);
    // the account came in with the slot: reading it asks nothing more
    assert_eq!(db.basic(a).unwrap().unwrap().nonce, 7);
    assert_eq!(db.db.basic_calls.get(), 1);
}

#[test]
fn missing_account_slots_read_zero_without_source() {
    let mut db = CacheDB::new(CountingSource::new(false));
    let a = Address::from(9u64);
    assert_eq!(db.storage(a, U256::from(1u64)), Ok(U256::zero()));
    assert_eq!(db.storage(a, U256::from(2u64)), Ok(U256::zero()));
    assert_eq!(db.db.basic_calls.get(), 1);
    assert_eq!(db.db.storage_calls.get(), 0);
    assert!(db.basic(a).unwrap().is_none());
}

#[test]
fn read_only_path_does_not_fill_cache() {
    let db = CacheDB::new(CountingSource::new(true));
    let a = Address::from(5u64);
    assert_eq!(db.storage_ref(a, U256::from(3u64)), Ok(U256::from(1003u64)));
    assert_eq!(db.storage_ref(a, U256::from(3u64)), Ok(U256::from(1003u64)));
    assert_eq!(db.db.storage_calls.get(), 2);
    assert_eq!(db.basic_ref(a).unwrap().unwrap().nonce, 7);
    assert_eq!(db.basic_ref(a).unwrap().unwrap().nonce, 7);
    assert_eq!(db.db.basic_calls.get(), 2);
}

fn change(info: AccountInfo, writes: &[(u64, u64)], destroyed: bool, cleared: bool) -> Account {
    Account {
        info,
        storage: writes
            .iter()
            .map(|&(k, v)| {
                (
                    U256::from(k),
                    StorageSlot { original_value: U256::zero(), present_value: U256::from(v) },
                )
            })
            .collect(),
        is_destroyed: destroyed,
        storage_cleared: cleared,
    }
}

#[test]
fn storage_cleared_is_sticky() {
    let mut db = CacheDB::new(CountingSource::new(true));
    let a = Address::from(5u64);
    db.commit(vec![(a, change(AccountInfo::default(), &[(1, 11)], false, true))]);
    db.commit(vec![(a, change(AccountInfo::default(), &[(2, 22)], false, false))]);
    let state = db.account_state(a);
    assert_eq!(state, Some(AccountState::StorageCleared));
    assert_eq!(db.storage(a, U256::from(1u64)), Ok(U256::from(11u64)));
    assert_eq!(db.storage(a, U256::from(2u64)), Ok(U256::from(22u64)));
    assert_eq!(db.storage(a, U256::from(3u64)), Ok(U256::zero()));
    assert_eq!(db.db.storage_calls.get(), 0);
}

#[test]
fn plain_commit_marks_touched() {
    let mut db = CacheDB::new(CountingSource::new(true));
    let a = Address::from(5u64);
    db.commit(vec![(a, change(AccountInfo::default(), &[(1, 11)], false, false))]);
    assert_eq!(db.account_state(a), Some(AccountState::Touched));
    // an unseen slot of a touched account is asked of the source
    assert_eq!(db.storage(a, U256::from(4u64)), Ok(U256::from(1004u64)));
    assert_eq!(db.db.storage_calls.get(), 1);
}

#[test]
fn destroyed_account_loses_storage() {
    let mut db = CacheDB::new(CountingSource::new(true));
    let a = Address::from(5u64);
    let _ = db.insert_account_storage(a, U256::from(1u64), U256::from(50u64));
    assert_eq!(db.storage(a, U256::from(1u64)), Ok(U256::from(50u64)));
    db.commit(vec![(a, change(AccountInfo::default(), &[], true, false))]);
    assert_eq!(db.account_state(a), Some(AccountState::NotExisting));
    assert_eq!(db.storage(a, U256::from(1u64)), Ok(U256::zero()));
    assert_eq!(db.db.storage_calls.get(), 0);
    assert!(db.basic(a).unwrap().is_none());
}

#[test]
fn destroy_then_touch_in_one_batch() {
    let mut db = CacheDB::new(CountingSource::new(true));
    let a = Address::from(5u64);
    let _ = db.insert_account_storage(a, U256::from(1u64), U256::from(50u64));
    db.commit(vec![
        (a, change(AccountInfo::default(), &[], true, false)),
        (a, change(AccountInfo { nonce: 3, ..Default::default() }, &[(2, 9)], false, false)),
    ]);
    assert_eq!(db.account_state(a), Some(AccountState::Touched));
    assert_eq!(db.basic(a).unwrap().unwrap().nonce, 3);
    assert_eq!(db.storage(a, U256::from(2u64)), Ok(U256::from(9u64)));
}

#[test]
fn committing_a_batch_twice_is_like_once() {
    let a = Address::from(5u64);
    let b = Address::from(6u64);
    let batch = || {
        vec![
            (a, change(AccountInfo { nonce: 1, ..Default::default() }, &[(1, 10)], false, false)),
            (b, change(AccountInfo::default(), &[(2, 20)], false, true)),
            (a, change(AccountInfo { nonce: 2, ..Default::default() }, &[(1, 30), (3, 40)], false, false)),
        ]
    };
    let mut once = CacheDB::new(EmptyDB::default());
    once.commit(batch());
    let mut twice = CacheDB::new(EmptyDB::default());
    twice.commit(batch());
    twice.commit(batch());
    for addr in [a, b] {
        assert_eq!(once.account_state(addr), twice.account_state(addr));
        assert_eq!(once.basic(addr).unwrap(), twice.basic(addr).unwrap());
        for k in 0..5u64 {
            assert_eq!(once.storage(addr, U256::from(k)), twice.storage(addr, U256::from(k)));
        }
    }
    assert_eq!(once.basic(a).unwrap().unwrap().nonce, 2);
    assert_eq!(once.storage(a, U256::from(1u64)), Ok(U256::from(30u64)));
}

#[test]
fn committed_code_is_filed_by_hash() {
    let mut db = CacheDB::new(EmptyDB::default());
    let a = Address::from(5u64);
    let code = Bytecode::new_raw(vec![0x00]);
    let info = AccountInfo { code: Some(code.clone()), ..Default::default() };
    db.commit(vec![(a, change(info, &[], false, false))]);
    let stored = db.basic(a).unwrap().unwrap();
    let expected = U256 { hi: 0xbc36789e7a1e281436464229828f817d, lo: 0x6612f7b477d66591ff96a9e064bcc98a };
    assert_eq!(stored.code_hash, expected);
    assert_eq!(db.code_by_hash(expected), Ok(code));
}

#[test]
fn fresh_cache_knows_empty_code() {
    let mut db = CacheDB::new(EmptyDB::default());
    assert_eq!(db.code_by_hash(keccak_empty()), Ok(Bytecode::new()));
    assert_eq!(db.code_by_hash(U256::zero()), Ok(Bytecode::new()));
}

#[test]
fn zero_code_hash_becomes_empty_digest() {
    let mut db = CacheDB::new(EmptyDB::default());
    let a = Address::from(5u64);
    db.insert_account_info(a, AccountInfo { code_hash: U256::zero(), code: None, ..Default::default() });
    assert_eq!(db.basic(a).unwrap().unwrap().code_hash, keccak_empty());
}

#[test]
fn empty_db_block_hash_is_digest_of_number() {
    let mut db = CacheDB::new(EmptyDB::default());
    let expected = U256 { hi: 0x290decd9548b62a8d60345a988386fc8, lo: 0x4ba6bc95484008f6362f93160ef3e563 };
    assert_eq!(db.block_hash(U256::zero()), Ok(expected));
    assert_eq!(db.block_hash(U256::zero()), Ok(expected));
}

#[test]
fn storage_cleared_state_query() {
    assert!(AccountState::StorageCleared.is_storage_cleared());
    assert!(!AccountState::Touched.is_storage_cleared());
    assert!(!AccountState::NotExisting.is_storage_cleared());
}

#[test]
fn benchmark_db_holds_code_at_zero() {
    let code = Bytecode::new_raw(vec![0x60, 0x00]);
    let mut db = BenchmarkDB::new_bytecode(code.clone());
    assert_eq!(db.1, code.hash());
    let info = revm_core::db::Database::basic(&mut db, Address::zero()).unwrap().unwrap();
    assert_eq!(info.nonce, 1);
    assert_eq!(info.balance, U256::from(10000000u64));
    assert_eq!(info.code, Some(code));
    assert!(revm_core::db::Database::basic(&mut db, Address::from(1u64)).unwrap().is_none());
}

#[test]
fn plain_account_components() {
    let mut a = PlainAccount::from_info(AccountInfo { nonce: 4, ..Default::default() });
    assert_eq!(a.slot(&U256::from(1u64)), None);
    a.set_slot(U256::from(1u64), U256::from(2u64));
    assert_eq!(a.slot(&U256::from(1u64)), Some(U256::from(2u64)));
    let (info, storage) = a.into_components();
    assert_eq!(info.nonce, 4);
    let b = PlainAccount::new_empty_with_storage(storage);
    assert_eq!(b.info, AccountInfo::default());
    assert_eq!(b.slot(&U256::from(1u64)), Some(U256::from(2u64)));
}

/// A source that is down: every query fails.
struct DownSource;

impl revm_core::db::DatabaseRef for DownSource {
    type Error = String;

    fn basic(&self, _address: Address) -> Result<Option<AccountInfo>, String> {
        Err("down".to_string())
    }

    fn code_by_hash(&self, _code_hash: U256) -> Result<Bytecode, String> {
        Err("down".to_string())
    }

    fn storage(&self, _address: Address, _index: U256) -> Result<U256, String> {
        Err("down".to_string())
    }

    fn block_hash(&self, _number: U256) -> Result<U256, String> {
        Err("down".to_string())
    }
}

#[test]
fn source_errors_are_passed_on() {
    let mut db = CacheDB::new(DownSource);
    let a = Address::from(5u64);
    assert_eq!(db.basic(a), Err("down".to_string()));
    assert_eq!(db.account_state(a), None);
    assert_eq!(db.storage(a, U256::from(1u64)), Err("down".to_string()));
    assert_eq!(db.account_state(a), None);
    assert_eq!(db.load_account(a), Err("down".to_string()));
    assert_eq!(db.insert_account_storage(a, U256::from(1u64), U256::from(2u64)), Err("down".to_string()));
    assert_eq!(db.code_by_hash(U256::from(9u64)), Err("down".to_string()));
    assert_eq!(db.block_hash(U256::from(9u64)), Err("down".to_string()));
    // what the cache holds is answered without the source
    db.insert_account_info(a, AccountInfo { nonce: 3, ..Default::default() });
    assert_eq!(db.basic(a).unwrap().unwrap().nonce, 3);
    assert_eq!(db.storage(a, U256::from(1u64)), Err("down".to_string()));
}

#[test]
fn fill_storage_follows_the_answers() {
    let mut db = CacheDB::new(DownSource);
    let a = Address::from(5u64);
    let b = Address::from(6u64);
    let k = U256::from(1u64);
    // no such account: zero, cached as not existing
    assert_eq!(db.fill_storage(a, k, Ok(None), Ok(U256::from(77u64))), Ok(U256::zero()));
    assert_eq!(db.account_state(a), Some(AccountState::NotExisting));
    // an account with the slot
    let info = AccountInfo { nonce: 8, ..Default::default() };
    assert_eq!(db.fill_storage(b, k, Ok(Some(info)), Ok(U256::from(77u64))), Ok(U256::from(77u64)));
    assert_eq!(db.storage(b, k), Ok(U256::from(77u64)));
    assert_eq!(db.basic(b).unwrap().unwrap().nonce, 8);
    // an error is passed on, nothing cached
    let c = Address::from(7u64);
    assert_eq!(db.fill_storage(c, k, Err("no".to_string()), Ok(U256::zero())), Err("no".to_string()));
    assert_eq!(db.account_state(c), None);
    // a cached account takes the slot answer
    assert_eq!(db.fill_storage(b, U256::from(2u64), Err("ignored".to_string()), Ok(U256::from(5u64))), Ok(U256::from(5u64)));
    assert_eq!(db.fill_storage(b, U256::from(3u64), Ok(None), Err("slot".to_string())), Err("slot".to_string()));
}

#[test]
fn fill_account_follows_the_answer() {
    let mut db = CacheDB::new(DownSource);
    let a = Address::from(5u64);
    assert_eq!(db.fill_account(a, Err("no".to_string())), Err("no".to_string()));
    assert_eq!(db.account_state(a), None);
    let r = db.fill_account(a, Ok(Some(AccountInfo { nonce: 2, ..Default::default() })));
    assert_eq!(r.unwrap().unwrap().nonce, 2);
    assert_eq!(db.account_state(a), Some(AccountState::Untouched));
    let b = Address::from(6u64);
    assert_eq!(db.fill_account(b, Ok(None)), Ok(None));
    assert_eq!(db.account_state(b), Some(AccountState::NotExisting));
}

#[test]
fn plain_account_from_pairs() {
    let storage = SlotMap::from_pairs(&vec![(U256::from(1u64), U256::from(2u64)), (U256::from(1u64), U256::from(3u64))]);
    let a = PlainAccount::new_empty_with_storage(storage);
    assert_eq!(a.slot(&U256::from(1u64)), Some(U256::from(3u64)));
    assert_eq!(a.slot(&U256::from(2u64)), None);
}
