//! Committing a batch of changes twice leaves the cache as committing it
//! once does.
use vstd::prelude::*;
use crate::db::{
    commit_all, empty_record, extend, filed_contracts, filed_info,
    record_or_default, AccountState, AccountView, CacheView, DbAccountView,
};
use crate::primitives::code_hash_of;
use crate::word::{word_of, Address, U256};

verus! {

/// The record under an address, if any.
pub open spec fn record_at(m: Map<Address, DbAccountView>, a: Address) -> Option<DbAccountView> {
    if m.contains_key(a) {
        Some(m[a])
    } else {
        None
    }
}

/// The record a change leaves, given the record before it.
pub open spec fn changed_record(before: Option<DbAccountView>, d: AccountView) -> DbAccountView {
    let base = match before {
        Some(r) => r,
        None => empty_record(AccountState::Untouched),
    };
    if d.is_destroyed {
        empty_record(AccountState::NotExisting)
    } else {
        let state = if d.storage_cleared || base.state == AccountState::StorageCleared {
            AccountState::StorageCleared
        } else {
            AccountState::Touched
        };
        let start = if d.storage_cleared {
            Map::empty()
        } else {
            base.storage
        };
        DbAccountView { info: filed_info(d.info), state, storage: extend(start, d.storage) }
    }
}

/// The record left by a run of changes to one account.
pub open spec fn fold_record(before: Option<DbAccountView>, ds: Seq<AccountView>) -> Option<DbAccountView>
    decreases ds.len(),
{
    if ds.len() == 0 {
        before
    } else {
        Some(changed_record(fold_record(before, ds.drop_last()), ds.last()))
    }
}

/// The changes of a batch that concern the account at `a`, in order.
pub open spec fn changes_at(cs: Seq<(Address, AccountView)>, a: Address) -> Seq<AccountView>
    decreases cs.len(),
{
    if cs.len() == 0 {
        Seq::empty()
    } else if cs.last().0 == a {
        changes_at(cs.drop_last(), a).push(cs.last().1)
    } else {
        changes_at(cs.drop_last(), a)
    }
}

/// The contracts after filing the code of a batch's changes in order.
pub open spec fn fold_contracts(c: Map<U256, Seq<u8>>, cs: Seq<(Address, AccountView)>) -> Map<U256, Seq<u8>>
    decreases cs.len(),
{
    if cs.len() == 0 {
        c
    } else if cs.last().1.is_destroyed {
        fold_contracts(c, cs.drop_last())
    } else {
        filed_contracts(fold_contracts(c, cs.drop_last()), cs.last().1.info)
    }
}

/// Whether a change wipes what came before it.
pub open spec fn resets(d: AccountView) -> bool {
    d.is_destroyed || d.storage_cleared
}

/// All slot writes of a run of changes, in order.
pub open spec fn all_writes(ds: Seq<AccountView>) -> Seq<(U256, U256)>
    decreases ds.len(),
{
    if ds.len() == 0 {
        Seq::empty()
    } else {
        all_writes(ds.drop_last()) + ds.last().storage
    }
}

proof fn lemma_commit_projects(v: CacheView, cs: Seq<(Address, AccountView)>, a: Address)
    ensures
        record_at(commit_all(v, cs).accounts, a) == fold_record(record_at(v.accounts, a), changes_at(cs, a)),
        commit_all(v, cs).contracts == fold_contracts(v.contracts, cs),
        commit_all(v, cs).block_hashes == v.block_hashes,
        commit_all(v, cs).logs == v.logs,
    decreases cs.len(),
{
    if cs.len() > 0 {
        lemma_commit_projects(v, cs.drop_last(), a);
        let prev = commit_all(v, cs.drop_last());
        assert(record_or_default(prev.accounts, cs.last().0) == match record_at(prev.accounts, cs.last().0) {
            Some(r) => r,
            None => empty_record(AccountState::Untouched),
        });
        if cs.last().0 == a {
            assert(changes_at(cs, a).drop_last() =~= changes_at(cs.drop_last(), a));
        }
    }
}

proof fn lemma_extend_append(m: Map<U256, U256>, w1: Seq<(U256, U256)>, w2: Seq<(U256, U256)>)
    ensures
        extend(m, w1 + w2) == extend(extend(m, w1), w2),
    decreases w2.len(),
{
    if w2.len() == 0 {
        assert(w1 + w2 =~= w1);
    } else {
        assert((w1 + w2).drop_last() =~= w1 + w2.drop_last());
        assert((w1 + w2).last() == w2.last());
        lemma_extend_append(m, w1, w2.drop_last());
    }
}

proof fn lemma_extend_overwritten(m: Map<U256, U256>, k: U256, v0: U256, v1: U256, w: Seq<(U256, U256)>)
    ensures
        extend(m.insert(k, v0), w).insert(k, v1) == extend(m, w).insert(k, v1),
    decreases w.len(),
{
    if w.len() == 0 {
        assert(m.insert(k, v0).insert(k, v1) =~= m.insert(k, v1));
    } else {
        lemma_extend_overwritten(m, k, v0, v1, w.drop_last());
        let a = extend(m.insert(k, v0), w.drop_last());
        let b = extend(m, w.drop_last());
        let q = w.last();
        if q.0 == k {
            assert(a.insert(q.0, q.1).insert(k, v1) =~= a.insert(k, v1));
            assert(b.insert(q.0, q.1).insert(k, v1) =~= b.insert(k, v1));
        } else {
            assert(a.insert(q.0, q.1).insert(k, v1) =~= a.insert(k, v1).insert(q.0, q.1));
            assert(b.insert(q.0, q.1).insert(k, v1) =~= b.insert(k, v1).insert(q.0, q.1));
        }
    }
}

proof fn lemma_extend_twice(m: Map<U256, U256>, w: Seq<(U256, U256)>)
    ensures
        extend(extend(m, w), w) == extend(m, w),
    decreases w.len(),
{
    if w.len() > 0 {
        let w0 = w.drop_last();
        let p = w.last();
        lemma_extend_twice(m, w0);
        lemma_extend_overwritten(extend(m, w0), p.0, p.1, p.1, w0);
    }
}

/// A run with a resetting change leaves a record that does not depend on
/// the record before it.
proof fn lemma_reset_forgets(x: Option<DbAccountView>, y: Option<DbAccountView>, ds: Seq<AccountView>, i: int)
    requires
        0 <= i < ds.len(),
        resets(ds[i]),
    ensures
        fold_record(x, ds) == fold_record(y, ds),
    decreases ds.len(),
{
    if i < ds.len() - 1 {
        lemma_reset_forgets(x, y, ds.drop_last(), i);
    } else {
        assert(ds.last() == ds[i]);
    }
}

/// A run without a resetting change merges its writes into the record.
proof fn lemma_touch_run(x: Option<DbAccountView>, ds: Seq<AccountView>)
    requires
        ds.len() > 0,
        forall|i: int| 0 <= i < ds.len() ==> !#[trigger] resets(ds[i]),
    ensures
        ({
            let base = match x {
                Some(r) => r,
                None => empty_record(AccountState::Untouched),
            };
            fold_record(x, ds) == Some(
                DbAccountView {
                    info: filed_info(ds.last().info),
                    state: if base.state == AccountState::StorageCleared {
                        AccountState::StorageCleared
                    } else {
                        AccountState::Touched
                    },
                    storage: extend(base.storage, all_writes(ds)),
                },
            )
        }),
    decreases ds.len(),
{
    let base = match x {
        Some(r) => r,
        None => empty_record(AccountState::Untouched),
    };
    assert(!resets(ds[ds.len() - 1]));
    assert(ds.last() == ds[ds.len() - 1]);
    if ds.len() == 1 {
        assert(ds.drop_last().len() == 0);
        assert(all_writes(ds.drop_last()) =~= Seq::<(U256, U256)>::empty());
        assert(all_writes(ds) =~= ds.last().storage);
    } else {
        let rest = ds.drop_last();
        assert forall|i: int| 0 <= i < rest.len() implies !#[trigger] resets(rest[i]) by {
            assert(rest[i] == ds[i]);
        }
        lemma_touch_run(x, rest);
        lemma_extend_append(base.storage, all_writes(rest), ds.last().storage);
    }
}

/// Replaying a run of changes to one account changes nothing.
proof fn lemma_fold_record_twice(x: Option<DbAccountView>, ds: Seq<AccountView>)
    ensures
        fold_record(fold_record(x, ds), ds) == fold_record(x, ds),
{
    if ds.len() > 0 {
        if exists|i: int| 0 <= i < ds.len() && #[trigger] resets(ds[i]) {
            let i = choose|i: int| 0 <= i < ds.len() && #[trigger] resets(ds[i]);
            lemma_reset_forgets(fold_record(x, ds), x, ds, i);
        } else {
            lemma_touch_run(x, ds);
            let y = fold_record(x, ds);
            lemma_touch_run(y, ds);
            let base = match x {
                Some(r) => r,
                None => empty_record(AccountState::Untouched),
            };
            lemma_extend_twice(base.storage, all_writes(ds));
        }
    }
}

/// The code-hash key under which a change files code, if it files any.
pub open spec fn files_key(d: AccountView, m: Map<U256, Seq<u8>>) -> bool {
    !d.is_destroyed && d.info.code is Some && d.info.code.unwrap().len() > 0 ==> m.contains_key(
        word_of(code_hash_of(d.info.code.unwrap())),
    )
}

proof fn lemma_fold_contracts_files(c: Map<U256, Seq<u8>>, cs: Seq<(Address, AccountView)>)
    ensures
        forall|i: int| 0 <= i < cs.len() ==> files_key(#[trigger] cs[i].1, fold_contracts(c, cs)),
        forall|k: U256| c.contains_key(k) ==> #[trigger] fold_contracts(c, cs).contains_key(k),
    decreases cs.len(),
{
    if cs.len() > 0 {
        let rest = cs.drop_last();
        lemma_fold_contracts_files(c, rest);
        let m = fold_contracts(c, rest);
        assert forall|i: int| 0 <= i < cs.len() implies files_key(#[trigger] cs[i].1, fold_contracts(c, cs)) by {
            if i < cs.len() - 1 {
                assert(cs[i] == rest[i]);
                assert(files_key(rest[i].1, m));
            } else {
                assert(cs[i] == cs.last());
            }
        }
    }
}

proof fn lemma_fold_contracts_settled(m: Map<U256, Seq<u8>>, cs: Seq<(Address, AccountView)>)
    requires
        forall|i: int| 0 <= i < cs.len() ==> files_key(#[trigger] cs[i].1, m),
    ensures
        fold_contracts(m, cs) == m,
    decreases cs.len(),
{
    if cs.len() > 0 {
        let rest = cs.drop_last();
        assert forall|i: int| 0 <= i < rest.len() implies files_key(#[trigger] rest[i].1, m) by {
            assert(rest[i] == cs[i]);
        }
        lemma_fold_contracts_settled(m, rest);
        assert(files_key(cs[cs.len() - 1].1, m));
        assert(cs.last() == cs[cs.len() - 1]);
    }
}

/// Committing the same batch a second time leaves the cache as it was after
/// the first: the batch may be replayed.
pub proof fn lemma_commit_twice(v: CacheView, cs: Seq<(Address, AccountView)>)
    ensures
        commit_all(commit_all(v, cs), cs) == commit_all(v, cs),
{
    let once = commit_all(v, cs);
    let twice = commit_all(once, cs);
    assert forall|a: Address| #[trigger] record_at(twice.accounts, a) == record_at(once.accounts, a) by {
        lemma_commit_projects(v, cs, a);
        lemma_commit_projects(once, cs, a);
        lemma_fold_record_twice(record_at(v.accounts, a), changes_at(cs, a));
    }
    assert forall|a: Address| #[trigger] twice.accounts.contains_key(a) == once.accounts.contains_key(a) by {
        assert(record_at(twice.accounts, a) == record_at(once.accounts, a));
    }
    assert(twice.accounts =~= once.accounts) by {
        assert forall|a: Address| twice.accounts.contains_key(a) implies twice.accounts[a] == once.accounts[a] by {
            assert(record_at(twice.accounts, a) == record_at(once.accounts, a));
        }
    }
    lemma_commit_projects(v, cs, Address { hi: 0, lo: 0 });
    lemma_commit_projects(once, cs, Address { hi: 0, lo: 0 });
    lemma_fold_contracts_files(v.contracts, cs);
    lemma_fold_contracts_settled(once.contracts, cs);
}

} // verus!
