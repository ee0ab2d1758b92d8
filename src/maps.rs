//! The hash maps that back the state cache, each a `hashbrown::HashMap`
//! keyed by the integers of its key. Verus sees each map only through a name
//! for its entries.
use vstd::prelude::*;
use crate::db::{extend, DbAccount, DbAccountView};
use crate::primitives::Bytecode;
use crate::word::{Address, U256};

verus! {

/// No slots.
pub open spec fn no_slots() -> Map<U256, U256> {
    Map::empty()
}

/// No accounts.
pub open spec fn no_accounts() -> Map<Address, DbAccountView> {
    Map::empty()
}

/// No code.
pub open spec fn no_code() -> Map<U256, Seq<u8>> {
    Map::empty()
}

/// A map from words to words: storage slots, block hashes.
#[verifier::external_body]
pub struct SlotMap {
    inner: hashbrown::HashMap<(u128, u128), (u128, u128)>,
}

/// The entries of a `SlotMap`.
pub uninterp spec fn slot_entries(m: SlotMap) -> Map<U256, U256>;

impl SlotMap {
    /// Relies on `hashbrown::HashMap::new`: a map with no entries.
    #[verifier::external_body]
    pub(crate) fn new() -> (r: SlotMap)
        ensures
            slot_entries(r) == no_slots(),
    {
        SlotMap { inner: hashbrown::HashMap::new() }
    }

    /// Relies on `hashbrown::HashMap::get`: the value under the key, if any.
    #[verifier::external_body]
    pub(crate) fn get(&self, k: &U256) -> (r: Option<U256>)
        ensures
            r == (if slot_entries(*self).contains_key(*k) {
                Some(slot_entries(*self)[*k])
            } else {
                None::<U256>
            }),
    {
        self.inner.get(&(k.hi, k.lo)).map(|&(hi, lo)| U256 { hi, lo })
    }

    /// Relies on `hashbrown::HashMap::insert`: the key now maps to the value,
    /// other entries stay; the value it replaced, if any, is returned.
    #[verifier::external_body]
    pub(crate) fn insert(&mut self, k: U256, v: U256) -> (r: Option<U256>)
        ensures
            r == (if slot_entries(*old(self)).contains_key(k) {
                Some(slot_entries(*old(self))[k])
            } else {
                None::<U256>
            }),
            slot_entries(*final(self)) == slot_entries(*old(self)).insert(k, v),
    {
        self.inner.insert((k.hi, k.lo), (v.hi, v.lo)).map(|(hi, lo)| U256 { hi, lo })
    }

    /// Relies on `hashbrown::HashMap::clear`: no entries are left.
    #[verifier::external_body]
    pub(crate) fn clear(m: &mut SlotMap)
        ensures
            slot_entries(*final(m)) == no_slots(),
    {
        m.inner.clear();
    }
}

impl SlotMap {
    /// A map holding the given pairs; a later pair wins.
    pub fn from_pairs(pairs: &Vec<(U256, U256)>) -> (r: SlotMap)
        ensures
            slot_entries(r) == extend(Map::empty(), pairs@),
    {
        let mut m = SlotMap::new();
        let mut i: usize = 0;
        while i < pairs.len()
            invariant
                i <= pairs.len(),
                slot_entries(m) == extend(Map::empty(), pairs@.subrange(0, i as int)),
            decreases pairs.len() - i,
        {
            let (k, v) = pairs[i];
            m.insert(k, v);
            i = i + 1;
            proof {
                assert(pairs@.subrange(0, i as int).drop_last() =~= pairs@.subrange(0, i - 1));
            }
        }
        proof {
            assert(pairs@.subrange(0, pairs.len() as int) =~= pairs@);
        }
        m
    }
}

/// The cached accounts, by address.
#[verifier::external_body]
pub struct AccountMap {
    inner: hashbrown::HashMap<(u32, u128), DbAccount>,
}

/// The entries of an `AccountMap`, each account as values.
pub uninterp spec fn account_entries(m: AccountMap) -> Map<Address, DbAccountView>;

impl AccountMap {
    /// Relies on `hashbrown::HashMap::new`: a map with no entries.
    #[verifier::external_body]
    pub(crate) fn new() -> (r: AccountMap)
        ensures
            account_entries(r) == no_accounts(),
    {
        AccountMap { inner: hashbrown::HashMap::new() }
    }

    /// Relies on `hashbrown::HashMap::get`: the account under the address,
    /// if any.
    #[verifier::external_body]
    pub(crate) fn get(&self, k: &Address) -> (r: Option<&DbAccount>)
        ensures
            r is Some == account_entries(*self).contains_key(*k),
            r matches Some(a) ==> a@ == account_entries(*self)[*k],
    {
        self.inner.get(&(k.hi, k.lo))
    }

    /// Relies on `hashbrown::HashMap::insert`: the address now maps to the
    /// account, other entries stay; the account it replaced, if any, is
    /// returned.
    #[verifier::external_body]
    pub(crate) fn insert(&mut self, k: Address, v: DbAccount) -> (r: Option<DbAccount>)
        ensures
            r is Some == account_entries(*old(self)).contains_key(k),
            r matches Some(a) ==> a@ == account_entries(*old(self))[k],
            account_entries(*final(self)) == account_entries(*old(self)).insert(k, v@),
    {
        self.inner.insert((k.hi, k.lo), v)
    }

    /// Relies on `hashbrown::HashMap::remove`: takes out the account under
    /// the address, if any; other entries stay.
    #[verifier::external_body]
    pub(crate) fn remove(&mut self, k: &Address) -> (r: Option<DbAccount>)
        ensures
            r is Some == account_entries(*old(self)).contains_key(*k),
            r matches Some(a) ==> a@ == account_entries(*old(self))[*k],
            account_entries(*final(self)) == account_entries(*old(self)).remove(*k),
    {
        self.inner.remove(&(k.hi, k.lo))
    }
}

/// Contract code by code hash.
#[verifier::external_body]
pub struct CodeMap {
    inner: hashbrown::HashMap<(u128, u128), Bytecode>,
}

/// The entries of a `CodeMap`, each code as bytes.
pub uninterp spec fn code_entries(m: CodeMap) -> Map<U256, Seq<u8>>;

impl CodeMap {
    /// Relies on `hashbrown::HashMap::new`: a map with no entries.
    #[verifier::external_body]
    pub(crate) fn new() -> (r: CodeMap)
        ensures
            code_entries(r) == no_code(),
    {
        CodeMap { inner: hashbrown::HashMap::new() }
    }

    /// Relies on `hashbrown::HashMap::get`: the code under the hash, if any.
    #[verifier::external_body]
    pub(crate) fn get(&self, k: &U256) -> (r: Option<&Bytecode>)
        ensures
            r is Some == code_entries(*self).contains_key(*k),
            r matches Some(c) ==> c@ == code_entries(*self)[*k],
    {
        self.inner.get(&(k.hi, k.lo))
    }

    /// Relies on `hashbrown::HashMap::insert`: the hash now maps to the
    /// code, other entries stay; the code it replaced, if any, is returned.
    #[verifier::external_body]
    pub(crate) fn insert(&mut self, k: U256, v: Bytecode) -> (r: Option<Bytecode>)
        ensures
            r is Some == code_entries(*old(self)).contains_key(k),
            r matches Some(c) ==> c@ == code_entries(*old(self))[k],
            code_entries(*final(self)) == code_entries(*old(self)).insert(k, v@),
    {
        self.inner.insert((k.hi, k.lo), v)
    }
}

} // verus!
