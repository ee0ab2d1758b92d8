//! A cache of accounts, storage, code and block hashes in front of a
//! read-only source, with commit of post-execution account changes.
use vstd::prelude::*;
use core::convert::Infallible;
use crate::bytes::word_bytes;
use crate::maps::{account_entries, code_entries, slot_entries, AccountMap, CodeMap, SlotMap};
use crate::primitives::{
    code_hash_of, default_info, keccak256, keccak_empty, AccountInfo, AccountInfoView, Bytecode,
    Log,
};
use crate::word::{lemma_word_of_view, word_of, Address, U256};

verus! {

/// What the cache knows of an account's existence and storage.
#[derive(Clone, Copy, PartialEq, Eq, Structural, Debug)]
pub enum AccountState {
    /// The source has no such account; storage reads are zero.
    NotExisting,
    /// Execution changed the account.
    Touched,
    /// Execution cleared the storage; slots not cached are zero.
    StorageCleared,
    /// Execution has not changed the account.
    Untouched,
}

impl Default for AccountState {
    fn default() -> (r: AccountState)
        ensures
            r == AccountState::Untouched,
    {
        AccountState::Untouched
    }
}

impl AccountState {
    /// Whether execution cleared the account's storage.
    pub fn is_storage_cleared(&self) -> (r: bool)
        ensures
            r == (*self == AccountState::StorageCleared),
    {
        match self {
            AccountState::StorageCleared => true,
            _ => false,
        }
    }
}

/// Whether, in this state, a slot that is not cached reads zero without the
/// source being asked.
pub open spec fn reads_zero(state: AccountState) -> bool {
    state == AccountState::StorageCleared || state == AccountState::NotExisting
}

/// A cached account: its information, its state and the slots read or
/// written so far.
pub struct DbAccount {
    pub info: AccountInfo,
    pub account_state: AccountState,
    pub storage: SlotMap,
}

/// A cached account as values.
pub struct DbAccountView {
    pub info: AccountInfoView,
    pub state: AccountState,
    pub storage: Map<U256, U256>,
}

impl View for DbAccount {
    type V = DbAccountView;

    open spec fn view(&self) -> DbAccountView {
        DbAccountView {
            info: self.info@,
            state: self.account_state,
            storage: slot_entries(self.storage),
        }
    }
}

/// An account record with empty information and storage.
pub open spec fn empty_record(state: AccountState) -> DbAccountView {
    DbAccountView { info: default_info(), state, storage: Map::empty() }
}

/// The record made from the source's answer on an account.
pub open spec fn record_of(answer: Option<AccountInfoView>) -> DbAccountView {
    match answer {
        Some(i) => DbAccountView { info: i, state: AccountState::Untouched, storage: Map::empty() },
        None => empty_record(AccountState::NotExisting),
    }
}

/// What a record says of the account: nothing when it does not exist.
pub open spec fn info_of(rec: DbAccountView) -> Option<AccountInfoView> {
    if rec.state == AccountState::NotExisting {
        None
    } else {
        Some(rec.info)
    }
}

/// An answer on an account, as values.
pub open spec fn answer_of(r: Option<AccountInfo>) -> Option<AccountInfoView> {
    match r {
        Some(i) => Some(i@),
        None => None,
    }
}

impl Default for DbAccount {
    fn default() -> (r: DbAccount)
        ensures
            r@ == empty_record(AccountState::Untouched),
    {
        DbAccount {
            info: AccountInfo::default(),
            account_state: AccountState::Untouched,
            storage: SlotMap::new(),
        }
    }
}

impl DbAccount {
    /// The record of an account the source does not have.
    pub fn new_not_existing() -> (r: DbAccount)
        ensures
            r@ == empty_record(AccountState::NotExisting),
    {
        DbAccount {
            info: AccountInfo::default(),
            account_state: AccountState::NotExisting,
            storage: SlotMap::new(),
        }
    }

    /// The record made from the source's answer on an account.
    pub fn from_info(info: Option<AccountInfo>) -> (r: DbAccount)
        ensures
            r@ == record_of(answer_of(info)),
    {
        match info {
            Some(info) => DbAccount {
                info,
                account_state: AccountState::Untouched,
                storage: SlotMap::new(),
            },
            None => DbAccount::new_not_existing(),
        }
    }

    /// The account's information, or `None` when it does not exist.
    pub fn info(&self) -> (r: Option<AccountInfo>)
        ensures
            answer_of(r) == info_of(self@),
    {
        match self.account_state {
            AccountState::NotExisting => None,
            _ => Some(self.info.duplicate()),
        }
    }
}

/// A read-only source of chain state. Its spec functions model what it
/// holds and when it answers; an answer it gives is what it holds.
pub trait DatabaseRef {
    type Error;

    /// What the source holds of the account at `address`.
    open spec fn account_model(&self, address: Address) -> Option<AccountInfoView> {
        None
    }

    /// Whether a query on the account at `address` succeeds.
    open spec fn account_available(&self, address: Address) -> bool {
        false
    }

    /// The code the source holds under `code_hash`.
    open spec fn code_model(&self, code_hash: U256) -> Seq<u8> {
        Seq::empty()
    }

    /// Whether a query for the code under `code_hash` succeeds.
    open spec fn code_available(&self, code_hash: U256) -> bool {
        false
    }

    /// What the source holds in slot `index` of the account at `address`.
    open spec fn storage_model(&self, address: Address, index: U256) -> U256 {
        U256 { hi: 0, lo: 0 }
    }

    /// Whether a query on slot `index` of the account at `address` succeeds.
    open spec fn storage_available(&self, address: Address, index: U256) -> bool {
        false
    }

    /// The hash the source holds for block `number`.
    open spec fn block_hash_model(&self, number: U256) -> U256 {
        U256 { hi: 0, lo: 0 }
    }

    /// Whether a query for the hash of block `number` succeeds.
    open spec fn block_hash_available(&self, number: U256) -> bool {
        false
    }

    fn basic(&self, address: Address) -> (r: Result<Option<AccountInfo>, Self::Error>)
        ensures
            r matches Ok(info) ==> answer_of(info) == self.account_model(address),
            self.account_available(address) ==> r is Ok,
    ;

    fn code_by_hash(&self, code_hash: U256) -> (r: Result<Bytecode, Self::Error>)
        ensures
            r matches Ok(code) ==> code@ == self.code_model(code_hash),
            self.code_available(code_hash) ==> r is Ok,
    ;

    fn storage(&self, address: Address, index: U256) -> (r: Result<U256, Self::Error>)
        ensures
            r matches Ok(x) ==> x == self.storage_model(address, index),
            self.storage_available(address, index) ==> r is Ok,
    ;

    fn block_hash(&self, number: U256) -> (r: Result<U256, Self::Error>)
        ensures
            r matches Ok(h) ==> h == self.block_hash_model(number),
            self.block_hash_available(number) ==> r is Ok,
    ;
}

/// A source of chain state whose queries may change it (a cache filling
/// itself, say).
pub trait Database {
    type Error;

    /// What a query on the account at `address` answers, before it.
    spec fn query_account(&self, address: Address) -> Option<AccountInfoView>;

    /// Whether a query on the account at `address` succeeds.
    spec fn query_account_ok(&self, address: Address) -> bool;

    /// What a query for the code under `code_hash` answers.
    spec fn query_code(&self, code_hash: U256) -> Seq<u8>;

    /// Whether a query for the code under `code_hash` succeeds.
    spec fn query_code_ok(&self, code_hash: U256) -> bool;

    /// What a query on slot `index` of the account at `address` answers.
    spec fn query_storage(&self, address: Address, index: U256) -> U256;

    /// Whether a query on slot `index` of the account at `address` succeeds.
    spec fn query_storage_ok(&self, address: Address, index: U256) -> bool;

    /// What a query for the hash of block `number` answers.
    spec fn query_block_hash(&self, number: U256) -> U256;

    /// Whether a query for the hash of block `number` succeeds.
    spec fn query_block_hash_ok(&self, number: U256) -> bool;

    fn basic(&mut self, address: Address) -> (r: Result<Option<AccountInfo>, Self::Error>)
        ensures
            r matches Ok(info) ==> answer_of(info) == old(self).query_account(address),
            old(self).query_account_ok(address) ==> r is Ok,
    ;

    fn code_by_hash(&mut self, code_hash: U256) -> (r: Result<Bytecode, Self::Error>)
        ensures
            r matches Ok(code) ==> code@ == old(self).query_code(code_hash),
            old(self).query_code_ok(code_hash) ==> r is Ok,
    ;

    fn storage(&mut self, address: Address, index: U256) -> (r: Result<U256, Self::Error>)
        ensures
            r matches Ok(x) ==> x == old(self).query_storage(address, index),
            old(self).query_storage_ok(address, index) ==> r is Ok,
    ;

    fn block_hash(&mut self, number: U256) -> (r: Result<U256, Self::Error>)
        ensures
            r matches Ok(h) ==> h == old(self).query_block_hash(number),
            old(self).query_block_hash_ok(number) ==> r is Ok,
    ;
}

/// The cache, in front of the source `db`.
pub struct CacheDB<ExtDB: DatabaseRef> {
    pub accounts: AccountMap,
    pub contracts: CodeMap,
    pub logs: Vec<Log>,
    pub block_hashes: SlotMap,
    pub db: ExtDB,
}

/// The cache as values.
pub struct CacheView {
    pub accounts: Map<Address, DbAccountView>,
    pub contracts: Map<U256, Seq<u8>>,
    pub block_hashes: Map<U256, U256>,
    pub logs: Seq<Log>,
}

impl<ExtDB: DatabaseRef> View for CacheDB<ExtDB> {
    type V = CacheView;

    open spec fn view(&self) -> CacheView {
        CacheView {
            accounts: account_entries(self.accounts),
            contracts: code_entries(self.contracts),
            block_hashes: slot_entries(self.block_hashes),
            logs: self.logs@,
        }
    }
}

/// The empty-code digest as a word.
pub open spec fn keccak_empty_word() -> U256 {
    U256 { hi: 0xc5d2460186f7233c927e7db2dcc703c0, lo: 0xe500b653ca82273b7bfad8045d85a470 }
}

/// The code hash an account is filed under: the hash of its code when it
/// has some, and never the zero word.
pub open spec fn filed_hash(info: AccountInfoView) -> U256 {
    let h = match info.code {
        Some(c) => if c.len() > 0 {
            word_of(code_hash_of(c))
        } else {
            info.code_hash
        },
        None => info.code_hash,
    };
    if h@ == 0 {
        keccak_empty_word()
    } else {
        h
    }
}

/// The information with its code hash set as filed.
pub open spec fn filed_info(info: AccountInfoView) -> AccountInfoView {
    AccountInfoView { code_hash: filed_hash(info), ..info }
}

/// The contracts with the account's code filed under its hash, unless code
/// is there already.
pub open spec fn filed_contracts(contracts: Map<U256, Seq<u8>>, info: AccountInfoView) -> Map<U256, Seq<u8>> {
    match info.code {
        Some(c) => if c.len() > 0 && !contracts.contains_key(word_of(code_hash_of(c))) {
            contracts.insert(word_of(code_hash_of(c)), c)
        } else {
            contracts
        },
        None => contracts,
    }
}

/// The record under an address, or an untouched empty one.
pub open spec fn record_or_default(accounts: Map<Address, DbAccountView>, a: Address) -> DbAccountView {
    if accounts.contains_key(a) {
        accounts[a]
    } else {
        empty_record(AccountState::Untouched)
    }
}

/// The cache with the account at `a` loaded: unchanged when it is there,
/// else holding the record made from the source's answer.
pub open spec fn loaded(v: CacheView, a: Address, answer: Option<AccountInfoView>) -> CacheView {
    if v.accounts.contains_key(a) {
        v
    } else {
        CacheView { accounts: v.accounts.insert(a, record_of(answer)), ..v }
    }
}

/// The cache with slot `k` of the account at `a` set to `x`.
pub open spec fn with_slot(v: CacheView, a: Address, k: U256, x: U256) -> CacheView {
    CacheView {
        accounts: v.accounts.insert(
            a,
            DbAccountView { storage: v.accounts[a].storage.insert(k, x), ..v.accounts[a] },
        ),
        ..v
    }
}

/// `m` with the pairs written in order: a later pair wins.
pub open spec fn extend(m: Map<U256, U256>, pairs: Seq<(U256, U256)>) -> Map<U256, U256>
    decreases pairs.len(),
{
    if pairs.len() == 0 {
        m
    } else {
        extend(m, pairs.drop_last()).insert(pairs.last().0, pairs.last().1)
    }
}

/// What the cache alone answers for slot `k` of the account at `a`: the
/// cached value; zero when the account's state says so; else nothing, and
/// the source must be asked.
pub open spec fn cached_storage(v: CacheView, a: Address, k: U256) -> Option<U256> {
    if !v.accounts.contains_key(a) {
        None
    } else if v.accounts[a].storage.contains_key(k) {
        Some(v.accounts[a].storage[k])
    } else if reads_zero(v.accounts[a].state) {
        Some(U256 { hi: 0, lo: 0 })
    } else {
        None
    }
}

/// The cache after a storage read that the source answered: `answer` on the
/// account (asked only when the account was not cached) and `x` on the slot.
/// An account the source does not have is cached as not existing, its slot
/// unset.
pub open spec fn storage_loaded(v: CacheView, a: Address, k: U256, answer: Option<AccountInfoView>, x: U256) -> CacheView {
    if v.accounts.contains_key(a) {
        with_slot(v, a, k, x)
    } else {
        match answer {
            Some(_) => with_slot(loaded(v, a, answer), a, k, x),
            None => loaded(v, a, None),
        }
    }
}

/// A source's answer on an account, as values.
pub open spec fn info_answer<E>(r: Result<Option<AccountInfo>, E>) -> Result<Option<AccountInfoView>, E> {
    match r {
        Ok(i) => Ok(answer_of(i)),
        Err(e) => Err(e),
    }
}

/// The cache and the result after the source's answers on a slot that the
/// cache cannot answer alone: `slot` when the account is cached; else `info`
/// on the account and, when the source has it, `slot`. An error is passed on
/// and leaves the cache as it was.
pub open spec fn fill_outcome<E>(
    v: CacheView,
    a: Address,
    k: U256,
    info: Result<Option<AccountInfoView>, E>,
    slot: Result<U256, E>,
) -> (CacheView, Result<U256, E>) {
    if v.accounts.contains_key(a) {
        match slot {
            Ok(x) => (with_slot(v, a, k, x), Ok(x)),
            Err(e) => (v, Err(e)),
        }
    } else {
        match info {
            Err(e) => (v, Err(e)),
            Ok(None) => (loaded(v, a, None), Ok(U256 { hi: 0, lo: 0 })),
            Ok(Some(i)) => match slot {
                Err(e) => (v, Err(e)),
                Ok(x) => (with_slot(loaded(v, a, Some(i)), a, k, x), Ok(x)),
            },
        }
    }
}

/// The value a load-through read of slot `k` of the account at `a` returns,
/// given what the source holds.
pub open spec fn loaded_slot<D: DatabaseRef>(v: CacheView, db: D, a: Address, k: U256) -> U256 {
    match cached_storage(v, a, k) {
        Some(x) => x,
        None => if !v.accounts.contains_key(a) && db.account_model(a) is None {
            U256 { hi: 0, lo: 0 }
        } else {
            db.storage_model(a, k)
        },
    }
}

/// The cache after a successful load-through read of slot `k` of the
/// account at `a`.
pub open spec fn slot_loaded<D: DatabaseRef>(v: CacheView, db: D, a: Address, k: U256) -> CacheView {
    if cached_storage(v, a, k) is Some {
        v
    } else {
        storage_loaded(v, a, k, db.account_model(a), loaded_slot(v, db, a, k))
    }
}

/// Whether a load-through read of slot `k` of the account at `a` succeeds:
/// the cache answers alone, or every source query it needs succeeds.
pub open spec fn slot_available<D: DatabaseRef>(v: CacheView, db: D, a: Address, k: U256) -> bool {
    cached_storage(v, a, k) is Some || if v.accounts.contains_key(a) {
        db.storage_available(a, k)
    } else {
        db.account_available(a) && (db.account_model(a) is None || db.storage_available(a, k))
    }
}

/// A change to an account made by execution, to be committed.
pub struct Account {
    pub info: AccountInfo,
    pub storage: Vec<(U256, StorageSlot)>,
    pub is_destroyed: bool,
    pub storage_cleared: bool,
}

/// A written slot: its value before the change, and now.
#[derive(Clone, Copy, PartialEq, Eq, Structural, Debug)]
pub struct StorageSlot {
    pub original_value: U256,
    pub present_value: U256,
}

impl StorageSlot {
    pub fn present_value(&self) -> (r: U256)
        ensures
            r == self.present_value,
    {
        self.present_value
    }
}

/// A change as values: the slot writes are (key, present value) pairs.
pub struct AccountView {
    pub info: AccountInfoView,
    pub storage: Seq<(U256, U256)>,
    pub is_destroyed: bool,
    pub storage_cleared: bool,
}

impl View for Account {
    type V = AccountView;

    open spec fn view(&self) -> AccountView {
        AccountView {
            info: self.info@,
            storage: self.storage@.map_values(|p: (U256, StorageSlot)| (p.0, p.1.present_value)),
            is_destroyed: self.is_destroyed,
            storage_cleared: self.storage_cleared,
        }
    }
}

/// The cache after committing the change `d` to the account at `a`.
pub open spec fn apply_change(v: CacheView, a: Address, d: AccountView) -> CacheView {
    if d.is_destroyed {
        CacheView { accounts: v.accounts.insert(a, empty_record(AccountState::NotExisting)), ..v }
    } else {
        let base = record_or_default(v.accounts, a);
        let state = if d.storage_cleared || base.state == AccountState::StorageCleared {
            AccountState::StorageCleared
        } else {
            AccountState::Touched
        };
        let start = if d.storage_cleared {
            Map::empty()
        } else {
            base.storage
        };
        CacheView {
            accounts: v.accounts.insert(
                a,
                DbAccountView { info: filed_info(d.info), state, storage: extend(start, d.storage) },
            ),
            contracts: filed_contracts(v.contracts, d.info),
            ..v
        }
    }
}

/// The cache after committing a batch of changes in order.
pub open spec fn commit_all(v: CacheView, changes: Seq<(Address, AccountView)>) -> CacheView
    decreases changes.len(),
{
    if changes.len() == 0 {
        v
    } else {
        apply_change(commit_all(v, changes.drop_last()), changes.last().0, changes.last().1)
    }
}

/// A batch of changes as values.
pub open spec fn changes_view(changes: Seq<(Address, Account)>) -> Seq<(Address, AccountView)> {
    changes.map_values(|p: (Address, Account)| (p.0, p.1@))
}

impl<ExtDB: DatabaseRef> CacheDB<ExtDB> {
    /// An empty cache in front of `db`, with no code filed under both the
    /// empty-code digest and the zero hash.
    pub fn new(db: ExtDB) -> (r: CacheDB<ExtDB>)
        ensures
            r@.accounts == Map::<Address, DbAccountView>::empty(),
            r@.contracts == map![keccak_empty_word() => Seq::<u8>::empty(), U256 { hi: 0, lo: 0 } => Seq::<u8>::empty()],
            r@.block_hashes == Map::<U256, U256>::empty(),
            r@.logs == Seq::<Log>::empty(),
            r.db == db,
    {
        let mut contracts = CodeMap::new();
        contracts.insert(keccak_empty(), Bytecode::new());
        contracts.insert(U256::zero(), Bytecode::new());
        proof {
            assert(code_entries(contracts) =~= map![keccak_empty_word() => Seq::<u8>::empty(), U256 { hi: 0, lo: 0 } => Seq::<u8>::empty()]);
        }
        CacheDB {
            accounts: AccountMap::new(),
            contracts,
            logs: Vec::new(),
            block_hashes: SlotMap::new(),
            db,
        }
    }

    /// Files the account's code under its hash, unless code is filed there
    /// already, and sets the account's code hash to match; a zero code hash
    /// becomes the empty-code digest.
    pub fn insert_contract(&mut self, account: &mut AccountInfo)
        ensures
            final(self).db == old(self).db,
            final(account)@ == filed_info(old(account)@),
            final(self)@ == (CacheView { contracts: filed_contracts(old(self)@.contracts, old(account)@), ..old(self)@ }),
    {
        if let Some(code) = &account.code {
            if !code.is_empty() {
                let h = code.hash();
                proof {
                    lemma_word_of_view(h);
                }
                account.code_hash = h;
                if self.contracts.get(&h).is_none() {
                    self.contracts.insert(h, code.duplicate());
                }
            }
        }
        if account.code_hash.is_zero() {
            account.code_hash = keccak_empty();
        }
    }

    /// Sets the information of the account at `address`, keeping its cached
    /// storage and state (an untouched empty record when it is not cached).
    pub fn insert_account_info(&mut self, address: Address, info: AccountInfo)
        ensures
            final(self).db == old(self).db,
            final(self)@ == (CacheView {
                accounts: old(self)@.accounts.insert(
                    address,
                    DbAccountView {
                        info: filed_info(info@),
                        ..record_or_default(old(self)@.accounts, address)
                    },
                ),
                contracts: filed_contracts(old(self)@.contracts, info@),
                ..old(self)@
            }),
    {
        let mut info = info;
        self.insert_contract(&mut info);
        let mut account = match self.accounts.remove(&address) {
            Some(a) => a,
            None => DbAccount::default(),
        };
        account.info = info;
        self.accounts.insert(address, account);
        proof {
            assert(self@.accounts =~= old(self)@.accounts.insert(
                address,
                DbAccountView {
                    info: filed_info(info@),
                    ..record_or_default(old(self)@.accounts, address)
                },
            ));
        }
    }

    /// Caches the source's answer on the account at `address`, which is not
    /// cached: an account it does not have is cached as not existing. A
    /// source error is passed on and nothing is cached.
    pub fn fill_account(&mut self, address: Address, info: Result<Option<AccountInfo>, ExtDB::Error>) -> (r: Result<Option<AccountInfo>, ExtDB::Error>)
        requires
            !old(self)@.accounts.contains_key(address),
        ensures
            final(self).db == old(self).db,
            match info {
                Ok(i) => r matches Ok(j) && answer_of(j) == answer_of(i) && final(self)@ == loaded(
                    old(self)@,
                    address,
                    answer_of(i),
                ),
                Err(e) => r == Err::<Option<AccountInfo>, ExtDB::Error>(e) && final(self)@ == old(self)@,
            },
    {
        match info {
            Ok(i) => {
                let account = DbAccount::from_info(i);
                let answer = account.info();
                self.accounts.insert(address, account);
                Ok(answer)
            },
            Err(e) => Err(e),
        }
    }

    /// Makes sure the account at `address` is cached, asking the source when
    /// it is not; a source error is passed on.
    pub fn load_account(&mut self, address: Address) -> (r: Result<(), ExtDB::Error>)
        ensures
            final(self).db == old(self).db,
            r is Ok ==> final(self)@ == loaded(old(self)@, address, old(self).db.account_model(address)),
            r is Err ==> final(self)@ == old(self)@,
            old(self).account_available(address) ==> r is Ok,
    {
        if self.accounts.get(&address).is_some() {
            return Ok(());
        }
        let info = self.db.basic(address);
        match self.fill_account(address, info) {
            Ok(_) => Ok(()),
            Err(e) => Err(e),
        }
    }

    /// Sets one storage slot of the account at `address`, loading the
    /// account first; its state is kept.
    pub fn insert_account_storage(&mut self, address: Address, slot: U256, value: U256) -> (r: Result<(), ExtDB::Error>)
        ensures
            final(self).db == old(self).db,
            r is Ok ==> final(self)@ == with_slot(
                loaded(old(self)@, address, old(self).db.account_model(address)),
                address,
                slot,
                value,
            ),
            r is Err ==> final(self)@ == old(self)@,
            old(self).account_available(address) ==> r is Ok,
    {
        match self.load_account(address) {
            Err(e) => Err(e),
            Ok(()) => {
                let ghost mid = self@;
                let mut account = self.accounts.remove(&address).unwrap();
                account.storage.insert(slot, value);
                self.accounts.insert(address, account);
                proof {
                    assert(self@.accounts =~= with_slot(mid, address, slot, value).accounts);
                }
                Ok(())
            },
        }
    }

    /// Replaces the storage of the account at `address` with the given
    /// pairs (a later pair wins) and marks it cleared, so that other slots
    /// read zero; the account is loaded first.
    pub fn replace_account_storage(&mut self, address: Address, storage: Vec<(U256, U256)>) -> (r: Result<(), ExtDB::Error>)
        ensures
            final(self).db == old(self).db,
            r is Ok ==> final(self)@ == replaced(
                loaded(old(self)@, address, old(self).db.account_model(address)),
                address,
                storage@,
            ),
            r is Err ==> final(self)@ == old(self)@,
            old(self).account_available(address) ==> r is Ok,
    {
        match self.load_account(address) {
            Err(e) => Err(e),
            Ok(()) => {
                let ghost mid = self@;
                let mut account = self.accounts.remove(&address).unwrap();
                account.account_state = AccountState::StorageCleared;
                SlotMap::clear(&mut account.storage);
                let ghost info = account.info@;
                let mut i: usize = 0;
                while i < storage.len()
                    invariant
                        i <= storage.len(),
                        account.info@ == info,
                        info == mid.accounts[address].info,
                        account.account_state == AccountState::StorageCleared,
                        self@ == (CacheView { accounts: mid.accounts.remove(address), ..mid }),
                        slot_entries(account.storage) == extend(Map::empty(), storage@.subrange(0, i as int)),
                    decreases storage.len() - i,
                {
                    let (k, v) = storage[i];
                    account.storage.insert(k, v);
                    i = i + 1;
                    proof {
                        assert(storage@.subrange(0, i as int).drop_last() =~= storage@.subrange(0, i - 1));
                    }
                }
                proof {
                    assert(storage@.subrange(0, storage.len() as int) =~= storage@);
                }
                self.accounts.insert(address, account);
                proof {
                    assert(self@.accounts =~= replaced(mid, address, storage@).accounts);
                }
                Ok(())
            },
        }
    }
}

/// The cache with the storage of the account at `a` replaced by the pairs
/// and its state set to cleared.
pub open spec fn replaced(v: CacheView, a: Address, pairs: Seq<(U256, U256)>) -> CacheView {
    CacheView {
        accounts: v.accounts.insert(
            a,
            DbAccountView {
                state: AccountState::StorageCleared,
                storage: extend(Map::empty(), pairs),
                ..v.accounts[a]
            },
        ),
        ..v
    }
}

impl<ExtDB: DatabaseRef> CacheDB<ExtDB> {
    /// The account at `address`: from the cache, or from the source, whose
    /// answer is then cached (an account it does not have, as not existing).
    /// A source error is passed on.
    pub fn basic(&mut self, address: Address) -> (r: Result<Option<AccountInfo>, ExtDB::Error>)
        ensures
            final(self).db == old(self).db,
            r matches Ok(info) ==> answer_of(info) == old(self).account_model(address),
            r is Ok ==> final(self)@ == loaded(old(self)@, address, old(self).db.account_model(address)),
            r is Err ==> final(self)@ == old(self)@,
            old(self).account_available(address) ==> r is Ok,
    {
        match self.accounts.get(&address) {
            Some(account) => {
                return Ok(account.info());
            },
            None => {},
        }
        let info = self.db.basic(address);
        self.fill_account(address, info)
    }

    /// Caches the source's answers on a slot that the cache cannot answer
    /// alone: `slot` is used when the account is cached, `info` when it is
    /// not, and then `slot` only when the source has the account. A source
    /// error is passed on and nothing is cached.
    pub fn fill_storage(
        &mut self,
        address: Address,
        index: U256,
        info: Result<Option<AccountInfo>, ExtDB::Error>,
        slot: Result<U256, ExtDB::Error>,
    ) -> (r: Result<U256, ExtDB::Error>)
        requires
            cached_storage(old(self)@, address, index) is None,
        ensures
            final(self).db == old(self).db,
            (final(self)@, r) == fill_outcome(old(self)@, address, index, info_answer(info), slot),
    {
        let ghost v = self@;
        if self.accounts.get(&address).is_some() {
            match slot {
                Err(e) => Err(e),
                Ok(x) => {
                    let mut account = self.accounts.remove(&address).unwrap();
                    account.storage.insert(index, x);
                    self.accounts.insert(address, account);
                    proof {
                        assert(self@.accounts =~= with_slot(v, address, index, x).accounts);
                    }
                    Ok(x)
                },
            }
        } else {
            match info {
                Err(e) => Err(e),
                Ok(None) => {
                    self.accounts.insert(address, DbAccount::new_not_existing());
                    Ok(U256::zero())
                },
                Ok(Some(i)) => match slot {
                    Err(e) => Err(e),
                    Ok(x) => {
                        let ghost answer = Some(i@);
                        let mut account = DbAccount::from_info(Some(i));
                        account.storage.insert(index, x);
                        self.accounts.insert(address, account);
                        proof {
                            assert(self@.accounts =~= with_slot(loaded(v, address, answer), address, index, x).accounts);
                        }
                        Ok(x)
                    },
                },
            }
        }
    }

    /// Slot `index` of the account at `address`. The cache answers alone
    /// when it holds the slot, or when the account's state says unset slots
    /// are zero. Otherwise the source is asked (for the account first when
    /// it is not cached, and for the slot only when the source has the
    /// account) and its answers are cached; a source error is passed on.
    pub fn storage(&mut self, address: Address, index: U256) -> (r: Result<U256, ExtDB::Error>)
        ensures
            final(self).db == old(self).db,
            r matches Ok(x) ==> x == loaded_slot(old(self)@, old(self).db, address, index),
            r is Ok ==> final(self)@ == slot_loaded(old(self)@, old(self).db, address, index),
            r is Err ==> final(self)@ == old(self)@,
            slot_available(old(self)@, old(self).db, address, index) ==> r is Ok,
    {
        let (cached, hit, reads_zero_state) = match self.accounts.get(&address) {
            Some(account) => (
                true,
                account.storage.get(&index),
                match account.account_state {
                    AccountState::StorageCleared | AccountState::NotExisting => true,
                    _ => false,
                },
            ),
            None => (false, None, false),
        };
        if let Some(x) = hit {
            return Ok(x);
        }
        if reads_zero_state {
            return Ok(U256::zero());
        }
        if cached {
            let slot = self.db.storage(address, index);
            return self.fill_storage(address, index, Ok(None), slot);
        }
        let info = self.db.basic(address);
        let wants_slot = match &info {
            Ok(Some(_)) => true,
            _ => false,
        };
        let slot = if wants_slot {
            self.db.storage(address, index)
        } else {
            Ok(U256::zero())
        };
        self.fill_storage(address, index, info, slot)
    }

    /// The code filed under `code_hash`: from the cache, or from the source,
    /// whose answer is then filed; a source error is passed on.
    pub fn code_by_hash(&mut self, code_hash: U256) -> (r: Result<Bytecode, ExtDB::Error>)
        ensures
            final(self).db == old(self).db,
            r matches Ok(c) ==> c@ == old(self).code_model(code_hash) && final(self)@ == (if old(
                self,
            )@.contracts.contains_key(code_hash) {
                old(self)@
            } else {
                CacheView { contracts: old(self)@.contracts.insert(code_hash, c@), ..old(self)@ }
            }),
            r is Err ==> final(self)@ == old(self)@,
            old(self).code_available(code_hash) ==> r is Ok,
    {
        match self.contracts.get(&code_hash) {
            Some(code) => {
                return Ok(code.duplicate());
            },
            None => {},
        }
        match self.db.code_by_hash(code_hash) {
            Ok(code) => {
                self.contracts.insert(code_hash, code.duplicate());
                Ok(code)
            },
            Err(e) => Err(e),
        }
    }

    /// The hash of block `number`: from the cache, or from the source, whose
    /// answer is then cached; a source error is passed on.
    pub fn block_hash(&mut self, number: U256) -> (r: Result<U256, ExtDB::Error>)
        ensures
            final(self).db == old(self).db,
            r matches Ok(h) ==> h == old(self).block_hash_model(number) && final(self)@ == (if old(
                self,
            )@.block_hashes.contains_key(number) {
                old(self)@
            } else {
                CacheView { block_hashes: old(self)@.block_hashes.insert(number, h), ..old(self)@ }
            }),
            r is Err ==> final(self)@ == old(self)@,
            old(self).block_hash_available(number) ==> r is Ok,
    {
        match self.block_hashes.get(&number) {
            Some(h) => {
                return Ok(h);
            },
            None => {},
        }
        match self.db.block_hash(number) {
            Ok(h) => {
                self.block_hashes.insert(number, h);
                Ok(h)
            },
            Err(e) => Err(e),
        }
    }

    /// The state of the cached account at `address`, if it is cached.
    pub fn account_state(&self, address: Address) -> (r: Option<AccountState>)
        ensures
            r == (if self@.accounts.contains_key(address) {
                Some(self@.accounts[address].state)
            } else {
                None::<AccountState>
            }),
    {
        match self.accounts.get(&address) {
            Some(account) => Some(account.account_state),
            None => None,
        }
    }

    /// The account at `address` without filling the cache: from the cache
    /// when it is there, else straight from the source.
    pub fn basic_ref(&self, address: Address) -> (r: Result<Option<AccountInfo>, ExtDB::Error>)
        ensures
            r matches Ok(info) ==> answer_of(info) == DatabaseRef::account_model(self, address),
            DatabaseRef::account_available(self, address) ==> r is Ok,
    {
        match self.accounts.get(&address) {
            Some(account) => Ok(account.info()),
            None => self.db.basic(address),
        }
    }

    /// Slot `index` of the account at `address` without filling the cache:
    /// what the cache alone answers, else straight from the source.
    pub fn storage_ref(&self, address: Address, index: U256) -> (r: Result<U256, ExtDB::Error>)
        ensures
            r matches Ok(x) ==> x == DatabaseRef::storage_model(self, address, index),
            DatabaseRef::storage_available(self, address, index) ==> r is Ok,
    {
        match self.accounts.get(&address) {
            Some(account) => match account.storage.get(&index) {
                Some(x) => Ok(x),
                None => match account.account_state {
                    AccountState::StorageCleared | AccountState::NotExisting => Ok(U256::zero()),
                    _ => self.db.storage(address, index),
                },
            },
            None => self.db.storage(address, index),
        }
    }

    /// The code filed under `code_hash` without filling the cache.
    pub fn code_by_hash_ref(&self, code_hash: U256) -> (r: Result<Bytecode, ExtDB::Error>)
        ensures
            r matches Ok(c) ==> c@ == DatabaseRef::code_model(self, code_hash),
            DatabaseRef::code_available(self, code_hash) ==> r is Ok,
    {
        match self.contracts.get(&code_hash) {
            Some(code) => Ok(code.duplicate()),
            None => self.db.code_by_hash(code_hash),
        }
    }

    /// The hash of block `number` without filling the cache.
    pub fn block_hash_ref(&self, number: U256) -> (r: Result<U256, ExtDB::Error>)
        ensures
            r matches Ok(h) ==> h == DatabaseRef::block_hash_model(self, number),
            DatabaseRef::block_hash_available(self, number) ==> r is Ok,
    {
        match self.block_hashes.get(&number) {
            Some(h) => Ok(h),
            None => self.db.block_hash(number),
        }
    }

    /// Commits one change to the account at `address`.
    fn commit_one(&mut self, address: Address, change: &Account)
        ensures
            final(self).db == old(self).db,
            final(self)@ == apply_change(old(self)@, address, change@),
    {
        if change.is_destroyed {
            self.accounts.insert(address, DbAccount::new_not_existing());
            return;
        }
        let mut info = change.info.duplicate();
        self.insert_contract(&mut info);
        let ghost v = self@;
        let mut account = match self.accounts.remove(&address) {
            Some(a) => a,
            None => DbAccount::default(),
        };
        let ghost base = account@;
        account.info = info;
        if change.storage_cleared {
            SlotMap::clear(&mut account.storage);
            account.account_state = AccountState::StorageCleared;
        } else if account.account_state.is_storage_cleared() {
            account.account_state = AccountState::StorageCleared;
        } else {
            account.account_state = AccountState::Touched;
        }
        let ghost start = slot_entries(account.storage);
        let ghost writes = change@.storage;
        let mut i: usize = 0;
        while i < change.storage.len()
            invariant
                i <= change.storage.len(),
                writes == change@.storage,
                writes.len() == change.storage.len(),
                account.info@ == info@,
                base == record_or_default(v.accounts, address),
                account.account_state == (if change@.storage_cleared || base.state
                    == AccountState::StorageCleared {
                    AccountState::StorageCleared
                } else {
                    AccountState::Touched
                }),
                start == (if change@.storage_cleared {
                    Map::empty()
                } else {
                    base.storage
                }),
                slot_entries(account.storage) == extend(start, writes.subrange(0, i as int)),
                self@ == (CacheView { accounts: v.accounts.remove(address), ..v }),
                self.db == old(self).db,
            decreases change.storage.len() - i,
        {
            let (k, slot) = change.storage[i];
            account.storage.insert(k, slot.present_value());
            i = i + 1;
            proof {
                assert(writes.subrange(0, i as int).drop_last() =~= writes.subrange(0, i - 1));
                assert(writes.subrange(0, i as int).last() == (k, slot.present_value));
            }
        }
        proof {
            assert(writes.subrange(0, writes.len() as int) =~= writes);
        }
        self.accounts.insert(address, account);
        proof {
            assert(self@.accounts =~= apply_change(old(self)@, address, change@).accounts);
        }
    }

    /// Commits a batch of account changes in order; a later change to an
    /// address replaces what an earlier one left.
    pub fn commit(&mut self, changes: Vec<(Address, Account)>)
        ensures
            final(self).db == old(self).db,
            final(self)@ == commit_all(old(self)@, changes_view(changes@)),
    {
        let ghost cs = changes_view(changes@);
        let mut i: usize = 0;
        while i < changes.len()
            invariant
                i <= changes.len(),
                cs == changes_view(changes@),
                self@ == commit_all(old(self)@, cs.subrange(0, i as int)),
                self.db == old(self).db,
            decreases changes.len() - i,
        {
            let (address, change) = &changes[i];
            self.commit_one(*address, change);
            i = i + 1;
            proof {
                assert(cs.subrange(0, i as int).drop_last() =~= cs.subrange(0, i - 1));
            }
        }
        proof {
            assert(cs.subrange(0, changes.len() as int) =~= cs);
        }
    }
}

impl<ExtDB: DatabaseRef> Database for CacheDB<ExtDB> {
    type Error = ExtDB::Error;

    open spec fn query_account(&self, address: Address) -> Option<AccountInfoView> {
        self.account_model(address)
    }

    open spec fn query_account_ok(&self, address: Address) -> bool {
        self.account_available(address)
    }

    open spec fn query_code(&self, code_hash: U256) -> Seq<u8> {
        self.code_model(code_hash)
    }

    open spec fn query_code_ok(&self, code_hash: U256) -> bool {
        self.code_available(code_hash)
    }

    open spec fn query_storage(&self, address: Address, index: U256) -> U256 {
        loaded_slot(self@, self.db, address, index)
    }

    open spec fn query_storage_ok(&self, address: Address, index: U256) -> bool {
        slot_available(self@, self.db, address, index)
    }

    open spec fn query_block_hash(&self, number: U256) -> U256 {
        self.block_hash_model(number)
    }

    open spec fn query_block_hash_ok(&self, number: U256) -> bool {
        self.block_hash_available(number)
    }

    fn basic(&mut self, address: Address) -> (r: Result<Option<AccountInfo>, ExtDB::Error>) {
        CacheDB::basic(self, address)
    }

    fn code_by_hash(&mut self, code_hash: U256) -> (r: Result<Bytecode, ExtDB::Error>) {
        CacheDB::code_by_hash(self, code_hash)
    }

    fn storage(&mut self, address: Address, index: U256) -> (r: Result<U256, ExtDB::Error>) {
        CacheDB::storage(self, address, index)
    }

    fn block_hash(&mut self, number: U256) -> (r: Result<U256, ExtDB::Error>) {
        CacheDB::block_hash(self, number)
    }
}

impl<ExtDB: DatabaseRef> DatabaseRef for CacheDB<ExtDB> {
    type Error = ExtDB::Error;

    open spec fn account_model(&self, address: Address) -> Option<AccountInfoView> {
        if self@.accounts.contains_key(address) {
            info_of(self@.accounts[address])
        } else {
            self.db.account_model(address)
        }
    }

    open spec fn account_available(&self, address: Address) -> bool {
        self@.accounts.contains_key(address) || self.db.account_available(address)
    }

    open spec fn code_model(&self, code_hash: U256) -> Seq<u8> {
        if self@.contracts.contains_key(code_hash) {
            self@.contracts[code_hash]
        } else {
            self.db.code_model(code_hash)
        }
    }

    open spec fn code_available(&self, code_hash: U256) -> bool {
        self@.contracts.contains_key(code_hash) || self.db.code_available(code_hash)
    }

    open spec fn storage_model(&self, address: Address, index: U256) -> U256 {
        match cached_storage(self@, address, index) {
            Some(x) => x,
            None => self.db.storage_model(address, index),
        }
    }

    open spec fn storage_available(&self, address: Address, index: U256) -> bool {
        cached_storage(self@, address, index) is Some || self.db.storage_available(address, index)
    }

    open spec fn block_hash_model(&self, number: U256) -> U256 {
        if self@.block_hashes.contains_key(number) {
            self@.block_hashes[number]
        } else {
            self.db.block_hash_model(number)
        }
    }

    open spec fn block_hash_available(&self, number: U256) -> bool {
        self@.block_hashes.contains_key(number) || self.db.block_hash_available(number)
    }

    fn basic(&self, address: Address) -> (r: Result<Option<AccountInfo>, ExtDB::Error>) {
        self.basic_ref(address)
    }

    fn code_by_hash(&self, code_hash: U256) -> (r: Result<Bytecode, ExtDB::Error>) {
        self.code_by_hash_ref(code_hash)
    }

    fn storage(&self, address: Address, index: U256) -> (r: Result<U256, ExtDB::Error>) {
        self.storage_ref(address, index)
    }

    fn block_hash(&self, number: U256) -> (r: Result<U256, ExtDB::Error>) {
        self.block_hash_ref(number)
    }
}

/// A cache over a source that has nothing.
pub type InMemoryDB = CacheDB<EmptyDB>;

/// A source with no accounts, no code and no storage; the hash of a block
/// is the digest of its number's 32 big-endian bytes.
#[derive(Debug, Default, Clone)]
pub struct EmptyDB();

impl EmptyDB {
    /// The hash this source gives block `number`.
    pub fn number_hash(&self, number: U256) -> (r: U256)
        ensures
            r@ == crate::primitives::keccak_word(crate::bytes::word_be_bytes(number)),
    {
        let bytes = word_bytes(&number);
        keccak256(bytes.as_slice())
    }
}

impl DatabaseRef for EmptyDB {
    type Error = Infallible;

    open spec fn account_model(&self, address: Address) -> Option<AccountInfoView> {
        None
    }

    open spec fn account_available(&self, address: Address) -> bool {
        true
    }

    open spec fn code_model(&self, code_hash: U256) -> Seq<u8> {
        Seq::empty()
    }

    open spec fn code_available(&self, code_hash: U256) -> bool {
        true
    }

    open spec fn storage_model(&self, address: Address, index: U256) -> U256 {
        U256 { hi: 0, lo: 0 }
    }

    open spec fn storage_available(&self, address: Address, index: U256) -> bool {
        true
    }

    open spec fn block_hash_model(&self, number: U256) -> U256 {
        word_of(crate::primitives::keccak_word(crate::bytes::word_be_bytes(number)))
    }

    open spec fn block_hash_available(&self, number: U256) -> bool {
        true
    }

    fn basic(&self, _address: Address) -> (r: Result<Option<AccountInfo>, Infallible>) {
        Ok(None)
    }

    fn code_by_hash(&self, _code_hash: U256) -> (r: Result<Bytecode, Infallible>) {
        Ok(Bytecode::new())
    }

    fn storage(&self, _address: Address, _index: U256) -> (r: Result<U256, Infallible>) {
        Ok(U256::zero())
    }

    fn block_hash(&self, number: U256) -> (r: Result<U256, Infallible>) {
        let h = self.number_hash(number);
        proof {
            lemma_word_of_view(h);
        }
        Ok(h)
    }
}

/// A source for benchmarks: the zero address holds the given code, a nonce
/// of one and a balance of ten million; other addresses hold nothing.
#[derive(Debug, Default, Clone)]
pub struct BenchmarkDB(pub Bytecode, pub U256);

impl BenchmarkDB {
    pub fn new_bytecode(bytecode: Bytecode) -> (r: BenchmarkDB)
        ensures
            r.0@ == bytecode@,
            r.1@ == code_hash_of(bytecode@),
    {
        let hash = bytecode.hash();
        BenchmarkDB(bytecode, hash)
    }

    /// The account at `address`.
    pub fn account(&self, address: Address) -> (r: Option<AccountInfo>)
        ensures
            answer_of(r) == benchmark_account(*self, address),
    {
        if address.same(&Address::zero()) {
            Some(AccountInfo {
                nonce: 1,
                balance: U256 { hi: 0, lo: 10000000 },
                code: Some(self.0.duplicate()),
                code_hash: self.1,
            })
        } else {
            None
        }
    }
}

/// What `BenchmarkDB` holds at an address: at zero, its code with a nonce of
/// one and a balance of ten million; nothing elsewhere.
pub open spec fn benchmark_account(db: BenchmarkDB, address: Address) -> Option<AccountInfoView> {
    if address@ == 0 {
        Some(
            AccountInfoView {
                balance: U256 { hi: 0, lo: 10000000 },
                nonce: 1,
                code_hash: db.1,
                code: Some(db.0@),
            },
        )
    } else {
        None
    }
}

impl Database for BenchmarkDB {
    type Error = Infallible;

    open spec fn query_account(&self, address: Address) -> Option<AccountInfoView> {
        benchmark_account(*self, address)
    }

    open spec fn query_account_ok(&self, address: Address) -> bool {
        true
    }

    open spec fn query_code(&self, code_hash: U256) -> Seq<u8> {
        Seq::empty()
    }

    open spec fn query_code_ok(&self, code_hash: U256) -> bool {
        true
    }

    open spec fn query_storage(&self, address: Address, index: U256) -> U256 {
        U256 { hi: 0, lo: 0 }
    }

    open spec fn query_storage_ok(&self, address: Address, index: U256) -> bool {
        true
    }

    open spec fn query_block_hash(&self, number: U256) -> U256 {
        U256 { hi: 0, lo: 0 }
    }

    open spec fn query_block_hash_ok(&self, number: U256) -> bool {
        true
    }

    fn basic(&mut self, address: Address) -> (r: Result<Option<AccountInfo>, Infallible>) {
        Ok(self.account(address))
    }

    fn code_by_hash(&mut self, _code_hash: U256) -> (r: Result<Bytecode, Infallible>) {
        Ok(Bytecode::new())
    }

    fn storage(&mut self, _address: Address, _index: U256) -> (r: Result<U256, Infallible>) {
        Ok(U256::zero())
    }

    fn block_hash(&mut self, _number: U256) -> (r: Result<U256, Infallible>) {
        Ok(U256::zero())
    }
}

/// Once an account has been read through the load-through path, it is
/// cached, so a second read is answered by the cache alone; and what the
/// cache then answers is what the first read returned.
pub proof fn lemma_account_read_is_cached(v: CacheView, a: Address, answer: Option<AccountInfoView>)
    ensures
        loaded(v, a, answer).accounts.contains_key(a),
        !v.accounts.contains_key(a) ==> info_of(loaded(v, a, answer).accounts[a]) == answer,
{
}

/// Once a slot has been read through the load-through path, a second read
/// of it is answered by the cache alone, with the value the first read
/// returned.
pub proof fn lemma_storage_read_is_cached<D: DatabaseRef>(v: CacheView, db: D, a: Address, k: U256)
    ensures
        cached_storage(slot_loaded(v, db, a, k), a, k) == Some(loaded_slot(v, db, a, k)),
{
}

/// A key that no pair writes keeps whatever `m` had under it.
pub proof fn lemma_extend_unwritten(m: Map<U256, U256>, pairs: Seq<(U256, U256)>, k: U256)
    requires
        forall|i: int| 0 <= i < pairs.len() ==> #[trigger] pairs[i].0 != k,
    ensures
        extend(m, pairs).contains_key(k) == m.contains_key(k),
        m.contains_key(k) ==> extend(m, pairs)[k] == m[k],
    decreases pairs.len(),
{
    if pairs.len() > 0 {
        let rest = pairs.drop_last();
        assert forall|i: int| 0 <= i < rest.len() implies #[trigger] rest[i].0 != k by {
            assert(rest[i] == pairs[i]);
        }
        lemma_extend_unwritten(m, rest, k);
        assert(pairs.last() == pairs[pairs.len() - 1]);
    }
}

/// Committing a batch of one change is applying that change.
pub proof fn lemma_commit_one(v: CacheView, a: Address, d: AccountView)
    ensures
        commit_all(v, seq![(a, d)]) == apply_change(v, a, d),
{
    let cs = seq![(a, d)];
    assert(cs.drop_last() =~= Seq::<(Address, AccountView)>::empty());
    assert(commit_all(v, cs.drop_last()) == v);
    assert(cs.last() == (a, d));
}

/// Storage clearing is sticky: after a commit that clears an account's
/// storage, a later commit that does not clear it keeps the account
/// cleared, and a slot that neither wrote still reads zero without the
/// source.
pub proof fn lemma_storage_cleared_is_sticky(v: CacheView, a: Address, first: AccountView, second: AccountView, k: U256)
    requires
        !first.is_destroyed,
        first.storage_cleared,
        !second.is_destroyed,
        !second.storage_cleared,
    ensures
        commit_all(commit_all(v, seq![(a, first)]), seq![(a, second)]).accounts[a].state
            == AccountState::StorageCleared,
        (forall|i: int| 0 <= i < first.storage.len() ==> #[trigger] first.storage[i].0 != k)
            && (forall|i: int| 0 <= i < second.storage.len() ==> #[trigger] second.storage[i].0 != k)
            ==> cached_storage(commit_all(commit_all(v, seq![(a, first)]), seq![(a, second)]), a, k)
            == Some(U256 { hi: 0, lo: 0 }),
{
    lemma_commit_one(v, a, first);
    let once = apply_change(v, a, first);
    lemma_commit_one(once, a, second);
    assert(record_or_default(once.accounts, a) == once.accounts[a]);
    if (forall|i: int| 0 <= i < first.storage.len() ==> #[trigger] first.storage[i].0 != k)
        && (forall|i: int| 0 <= i < second.storage.len() ==> #[trigger] second.storage[i].0 != k) {
        lemma_extend_unwritten(Map::empty(), first.storage, k);
        lemma_extend_unwritten(once.accounts[a].storage, second.storage, k);
    }
}

/// A destroyed account loses its cached storage: after committing its
/// destruction it is cached as not existing, and every slot reads zero
/// without the source.
pub proof fn lemma_destroyed_reads_zero(v: CacheView, a: Address, change: AccountView, k: U256)
    requires
        change.is_destroyed,
    ensures
        commit_all(v, seq![(a, change)]).accounts[a].state == AccountState::NotExisting,
        commit_all(v, seq![(a, change)]).accounts[a].storage == Map::<U256, U256>::empty(),
        cached_storage(commit_all(v, seq![(a, change)]), a, k) == Some(U256 { hi: 0, lo: 0 }),
{
    lemma_commit_one(v, a, change);
}

impl Default for CacheDB<EmptyDB> {
    /// An empty cache over a source that has nothing.
    fn default() -> (r: CacheDB<EmptyDB>)
        ensures
            r@.accounts == Map::<Address, DbAccountView>::empty(),
            r@.block_hashes == Map::<U256, U256>::empty(),
            r@.logs == Seq::<Log>::empty(),
    {
        CacheDB::new(EmptyDB())
    }
}

} // verus!
