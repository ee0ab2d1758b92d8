//! An account as plain values: its information and its storage.
use vstd::prelude::*;
use crate::maps::{slot_entries, SlotMap};
use crate::primitives::{default_info, AccountInfo};
use crate::word::U256;

verus! {

/// An account's information and storage slots.
pub struct PlainAccount {
    pub info: AccountInfo,
    pub storage: SlotMap,
}

impl PlainAccount {
    /// An account with empty information and the given storage.
    pub fn new_empty_with_storage(storage: SlotMap) -> (r: PlainAccount)
        ensures
            r.info@ == default_info(),
            slot_entries(r.storage) == slot_entries(storage),
    {
        PlainAccount { info: AccountInfo::default(), storage }
    }

    /// An account with the given information and no storage.
    pub fn from_info(info: AccountInfo) -> (r: PlainAccount)
        ensures
            r.info@ == info@,
            slot_entries(r.storage) == Map::<U256, U256>::empty(),
    {
        PlainAccount { info, storage: SlotMap::new() }
    }

    /// The information and the storage, apart.
    pub fn into_components(self) -> (r: (AccountInfo, SlotMap))
        ensures
            r.0@ == self.info@,
            slot_entries(r.1) == slot_entries(self.storage),
    {
        (self.info, self.storage)
    }

    /// The storage slot `k`, if set.
    pub fn slot(&self, k: &U256) -> (r: Option<U256>)
        ensures
            r == (if slot_entries(self.storage).contains_key(*k) {
                Some(slot_entries(self.storage)[*k])
            } else {
                None::<U256>
            }),
    {
        self.storage.get(k)
    }

    /// Sets storage slot `k` to `v`.
    pub fn set_slot(&mut self, k: U256, v: U256)
        ensures
            final(self).info@ == old(self).info@,
            slot_entries(final(self).storage) == slot_entries(old(self).storage).insert(k, v),
    {
        self.storage.insert(k, v);
    }
}

} // verus!
