//! What is found where an account, a code or a slot is asked for.

use crate::account::{
    empty_keccak, empty_trie, AccountInfo, AccountState, AccountStatus, AccountView, Code,
};
use crate::bal::{changes_up_to, index_of, post_value, AccountChanges, IndexedChange};
use crate::database::Database;
use crate::error::{DatabaseError, ErrorView, InternalError};
use crate::gen_db::{
    account_answer, account_loaded, code_answer, code_length_read, code_loaded, failure, in_base,
    load, load_code, load_metadata, metadata_answer, metadata_loaded, AccountAnswer, CodeAnswer,
    DbView, LazyBalCursor, Stepped,
};
use crate::undo::list_fits;
use crate::vm::storage_read;
use crate::word::{Address, H256, U256};
use vstd::prelude::*;

verus! {

/// The change at `i` is the last of the list that belongs to an index up to `max_idx`.
pub open spec fn last_told<T>(changes: Seq<IndexedChange<T>>, max_idx: u32, i: int) -> bool {
    &&& 0 <= i < changes.len()
    &&& changes[i].block_access_index <= max_idx
    &&& forall|j: int|
        i < j < changes.len() ==> (#[trigger] changes[j]).block_access_index > max_idx
}

/// No change of the list belongs to an index up to `max_idx`.
pub open spec fn none_told<T>(changes: Seq<IndexedChange<T>>, max_idx: u32) -> bool {
    forall|j: int| 0 <= j < changes.len() ==> (#[trigger] changes[j]).block_access_index > max_idx
}

/// The value that a list tells is that of its last change up to the index.
pub proof fn law_the_last_change_is_told<T>(changes: Seq<IndexedChange<T>>, max_idx: u32)
    ensures
        forall|i: int| #[trigger]
            last_told(changes, max_idx, i) ==> post_value(changes, max_idx) == Some(
                changes[i].post,
            ),
        none_told(changes, max_idx) <==> post_value(changes, max_idx) is None,
        post_value(changes, max_idx) is Some ==> exists|i: int| #[trigger]
            last_told(changes, max_idx, i) && changes[i].post == post_value(changes, max_idx)->0,
    decreases changes.len(),
{
    if changes.len() > 0 {
        let rest = changes.drop_last();
        let end = changes.len() - 1;
        if changes[end].block_access_index <= max_idx {
            assert(last_told(changes, max_idx, end));
            assert forall|i: int| #[trigger] last_told(changes, max_idx, i) implies i == end by {
                if i < end {
                    assert(changes[end].block_access_index > max_idx);
                }
            }
        } else {
            law_the_last_change_is_told(rest, max_idx);
            assert(changes_up_to(changes, max_idx) == changes_up_to(rest, max_idx));
            lemma_up_to_bound(rest, max_idx);
            assert(post_value(changes, max_idx) == post_value(rest, max_idx));
            assert forall|i: int| #[trigger] last_told(changes, max_idx, i) implies last_told(
                rest,
                max_idx,
                i,
            ) by {
                assert forall|j: int| i < j < rest.len() implies (
                #[trigger] rest[j]).block_access_index > max_idx by {
                    assert(rest[j] == changes[j]);
                }
            }
            assert forall|i: int| #[trigger] last_told(rest, max_idx, i) implies last_told(
                changes,
                max_idx,
                i,
            ) by {
                assert forall|j: int| i < j < changes.len() implies (
                #[trigger] changes[j]).block_access_index > max_idx by {
                    if j < end {
                        assert(rest[j] == changes[j]);
                    }
                }
            }
            if none_told(rest, max_idx) {
                assert forall|j: int| 0 <= j < changes.len() implies (
                #[trigger] changes[j]).block_access_index > max_idx by {
                    if j < end {
                        assert(rest[j] == changes[j]);
                    }
                }
            }
            if none_told(changes, max_idx) {
                assert forall|j: int| 0 <= j < rest.len() implies (
                #[trigger] rest[j]).block_access_index > max_idx by {
                    assert(rest[j] == changes[j]);
                }
            }
        }
    }
}

proof fn lemma_up_to_bound<T>(changes: Seq<IndexedChange<T>>, max_idx: u32)
    ensures
        changes_up_to(changes, max_idx) <= changes.len(),
    decreases changes.len(),
{
    if changes.len() > 0 && changes.last().block_access_index > max_idx {
        lemma_up_to_bound(changes.drop_last(), max_idx);
    }
}

/// `now` has the balance, the nonce and the code hash that the list told last, and that
/// of `base` where it told none.
pub open spec fn overlaid(
    base: AccountInfo,
    changes: AccountChanges,
    max_idx: u32,
    now: AccountInfo,
) -> bool {
    &&& forall|i: int| #[trigger]
        last_told(changes.balance_changes@, max_idx, i) ==> now.balance
            == changes.balance_changes@[i].post
    &&& none_told(changes.balance_changes@, max_idx) ==> now.balance == base.balance
    &&& forall|i: int| #[trigger]
        last_told(changes.nonce_changes@, max_idx, i) ==> now.nonce
            == changes.nonce_changes@[i].post
    &&& none_told(changes.nonce_changes@, max_idx) ==> now.nonce == base.nonce
    &&& forall|i: int| #[trigger]
        last_told(changes.code_changes@, max_idx, i) ==> ({
            let code = changes.code_changes@[i].post;
            now.code_hash == if code.bytecode@.len() == 0 {
                empty_keccak()
            } else {
                code.hash
            }
        })
    &&& none_told(changes.code_changes@, max_idx) ==> now.code_hash == base.code_hash
}

/// The list says nothing of balance, nonce and code.
pub open spec fn says_nothing(changes: AccountChanges, max_idx: u32) -> bool {
    &&& none_told(changes.balance_changes@, max_idx)
    &&& none_told(changes.nonce_changes@, max_idx)
    &&& none_told(changes.code_changes@, max_idx)
}

/// The list says something of each of balance, nonce and code.
pub open spec fn says_all(changes: AccountChanges, max_idx: u32) -> bool {
    &&& !none_told(changes.balance_changes@, max_idx)
    &&& !none_told(changes.nonce_changes@, max_idx)
    &&& !none_told(changes.code_changes@, max_idx)
}

/// `account` is the account that a stored state stands for: its nonce, its balance and
/// its code hash, none of its storage read, and existing unless all of the state is
/// that of an account that does not exist.
pub open spec fn fresh(state: AccountState, account: AccountView) -> bool {
    &&& account.info.nonce == state.nonce
    &&& account.info.balance == state.balance
    &&& account.info.code_hash == state.code_hash
    &&& account.storage == Map::<H256, U256>::empty()
    &&& account.has_storage == (state.storage_root != empty_trie())
    &&& account.status == AccountStatus::Unmodified
    &&& account.exists == !(state.nonce == 0 && state.balance@ == 0 && state.storage_root
        == empty_trie() && state.code_hash == empty_keccak())
}

/// `account` is what is known of an account that was never loaded: what the shared base
/// holds, and otherwise what the store says.
pub open spec fn first_known<D: Database>(
    store: D,
    db: DbView,
    address: Address,
    account: AccountView,
) -> bool {
    if db.base is Some && db.base->0.contains_key(address) {
        account == db.base->0[address]
    } else {
        exists|state: AccountState|
            call_ensures(
                D::get_account_state,
                (&store, address),
                Ok::<AccountState, DatabaseError>(state),
            ) && #[trigger] fresh(state, account)
    }
}

/// What the block access list says of an account, where there is such a list.
pub open spec fn listed(db: DbView, address: Address) -> Option<AccountChanges> {
    match db.lazy {
        Some(cursor) => cursor.changes(address),
        None => None,
    }
}

/// A load that succeeds leaves the account in the cache: as it was cached; else as the
/// baseline holds it, without its slots unless it was destroyed; else as the shared base
/// or the store knows it, with what the block access list says of its balance, nonce and
/// code laid over it. It becomes the baseline as it was before that, unless no baseline
/// is kept. Nothing is said of any other account, and no code is lost.
pub proof fn law_load_finds_the_account<D: Database>(
    store: D,
    before: DbView,
    address: Address,
    after: DbView,
)
    requires
        account_loaded(store, before, address, after, None),
        list_fits(before),
    ensures
        after.current.contains_key(address),
        forall|a: Address|
            #![trigger after.current.contains_key(a)]
            #![trigger after.current[a]]
            a != address ==> (after.current.contains_key(a) <==> before.current.contains_key(a))
                && after.current[a] == before.current[a],
        forall|a: Address|
            #![trigger after.initial.contains_key(a)]
            #![trigger after.initial[a]]
            a != address ==> (after.initial.contains_key(a) <==> before.initial.contains_key(a))
                && after.initial[a] == before.initial[a],
        after.metadata == before.metadata,
        after.backup == before.backup,
        after.recorder == before.recorder,
        after.balance_reads == before.balance_reads,
        after.skip == before.skip,
        after.base == before.base,
        after.lazy == before.lazy,
        after.accessed is Some <==> before.accessed is Some,
        before.accessed is Some ==> after.accessed->0 == before.accessed->0.insert(address),
        forall|h: H256| #[trigger]
            before.codes.contains_key(h) ==> after.codes.contains_key(h) && after.codes[h]
                == before.codes[h],
        before.current.contains_key(address) ==> after.current == before.current && after.initial
            == before.initial && after.codes == before.codes,
        !before.current.contains_key(address) && before.initial.contains_key(address) ==> ({
            let kept = before.initial[address];
            let now = after.current[address];
            &&& after.initial == before.initial
            &&& after.codes == before.codes
            &&& now.info == kept.info
            &&& now.has_storage == kept.has_storage
            &&& now.status == kept.status
            &&& now.exists == kept.exists
            &&& now.storage == if kept.status == AccountStatus::Destroyed || kept.status
                == AccountStatus::DestroyedModified {
                kept.storage
            } else {
                Map::<H256, U256>::empty()
            }
        }),
        !before.current.contains_key(address) && !before.initial.contains_key(address) && (listed(
            before,
            address,
        ) is None || says_nothing(listed(before, address)->0, before.lazy->0.max_idx()))
            ==> first_known(store, before, address, after.current[address]) && after.codes
            == before.codes && (if before.skip {
            after.initial == before.initial
        } else {
            after.initial.contains_key(address) && after.initial[address] == after.current[address]
        }),
        !before.current.contains_key(address) && !before.initial.contains_key(address) && listed(
            before,
            address,
        ) is Some && !says_nothing(listed(before, address)->0, before.lazy->0.max_idx()) ==> ({
            let changes = listed(before, address)->0;
            let max_idx = before.lazy->0.max_idx();
            let now = after.current[address];
            &&& now.exists
            &&& now.status == AccountStatus::Modified || now.status
                == AccountStatus::DestroyedModified
            &&& forall|i: int| #[trigger]
                last_told(changes.code_changes@, max_idx, i)
                    && changes.code_changes@[i].post.bytecode@.len() > 0 ==> ({
                    let code = changes.code_changes@[i].post;
                    after.codes.contains_key(code.hash) && (before.codes.contains_key(code.hash)
                        || after.codes[code.hash] == code@)
                })
            &&& says_all(changes, max_idx) ==> overlaid(
                AccountInfo::blank(),
                changes,
                max_idx,
                now.info,
            ) && now.storage == Map::<H256, U256>::empty() && !now.has_storage && now.status
                == AccountStatus::Modified && after.initial == before.initial
            &&& !says_all(changes, max_idx) ==> exists|account: AccountView| #[trigger]
                first_known(store, before, address, account) && overlaid(
                    account.info,
                    changes,
                    max_idx,
                    now.info,
                ) && now.storage == account.storage && now.has_storage == account.has_storage
                    && now.status == (if account.status == AccountStatus::Destroyed
                    || account.status == AccountStatus::DestroyedModified {
                    AccountStatus::DestroyedModified
                } else {
                    AccountStatus::Modified
                }) && (if before.skip {
                    after.initial == before.initial
                } else {
                    after.initial.contains_key(address) && after.initial[address] == account
                })
        }),
{
    let answer = choose|answer: AccountAnswer| #[trigger]
        account_answer(store, before, address, answer) && load(before, address, answer) == (
        Stepped { db: after, error: None });
    if listed(before, address) is Some {
        let changes = listed(before, address)->0;
        assert(before.lazy->0.changes(address) is Some);
        let max_idx = before.lazy->0.max_idx();
        law_the_last_change_is_told(changes.balance_changes@, max_idx);
        law_the_last_change_is_told(changes.nonce_changes@, max_idx);
        law_the_last_change_is_told(changes.code_changes@, max_idx);
    }
    if !before.current.contains_key(address) && !before.initial.contains_key(address) {
        if !in_base(before, address) && answer is Some && answer->0 is Ok {
            let state = answer->0->Ok_0;
            assert(fresh(state, AccountView::loaded(state)));
            assert(first_known(store, before, address, AccountView::loaded(state)));
        }
        if in_base(before, address) {
            assert(first_known(store, before, address, before.base->0[address]));
        }
    }
}

/// A failure of the store.
pub open spec fn of_store(cause: DatabaseError) -> ErrorView {
    ErrorView::Database(cause)
}

/// A load fails only where the store was needed and failed, and then the cache and the
/// baseline are as they were. An account that is cached, that is part of the baseline or
/// of the shared base, or of which the block access list says all, is always found.
pub proof fn law_load_fails_with_the_store<D: Database>(
    store: D,
    before: DbView,
    address: Address,
    after: DbView,
    e: ErrorView,
)
    requires
        account_loaded(store, before, address, after, Some(e)),
    ensures
        !before.current.contains_key(address),
        !before.initial.contains_key(address),
        !(before.base is Some && before.base->0.contains_key(address)),
        listed(before, address) matches Some(changes) ==> !says_all(
            changes,
            before.lazy->0.max_idx(),
        ),
        after.current == before.current,
        after.initial == before.initial,
        after.codes == before.codes,
        exists|cause: DatabaseError|
            call_ensures(
                D::get_account_state,
                (&store, address),
                Err::<AccountState, DatabaseError>(cause),
            ) && (e == #[trigger] of_store(cause) || (listed(
                before,
                address,
            ) is Some && e == ErrorView::Custom(
                "lazy_bal seed: "@ + ErrorView::Custom(
                    "seed_db_from_bal load: "@ + of_store(cause).text(),
                ).text(),
            ))),
{
    let answer = choose|answer: AccountAnswer| #[trigger]
        account_answer(store, before, address, answer) && load(before, address, answer) == (
        Stepped { db: after, error: Some(e) });
    if listed(before, address) is Some {
        let changes = listed(before, address)->0;
        let max_idx = before.lazy->0.max_idx();
        law_the_last_change_is_told(changes.balance_changes@, max_idx);
        law_the_last_change_is_told(changes.nonce_changes@, max_idx);
        law_the_last_change_is_told(changes.code_changes@, max_idx);
    }
    let cause = answer->0->Err_0;
    assert(of_store(cause) == ErrorView::Database(cause));
}

/// A code that is known is left alone; one that is not is what the store has under that
/// hash, and nothing else changes. A lookup fails only where the store fails.
pub proof fn law_code_lookup<D: Database>(
    store: D,
    before: DbView,
    code_hash: H256,
    after: DbView,
    error: Option<ErrorView>,
)
    requires
        code_loaded(store, before, code_hash, after, error),
    ensures
        before.codes.contains_key(code_hash) ==> after == before && error is None,
        !before.codes.contains_key(code_hash) && error is None ==> exists|code: Code|
            call_ensures(
                D::get_account_code,
                (&store, code_hash),
                Ok::<Code, DatabaseError>(code),
            ) && after.codes == before.codes.insert(code_hash, #[trigger] code@) && after.current
                == before.current && after.initial == before.initial && after.metadata
                == before.metadata,
        error matches Some(e) ==> after == before && exists|cause: DatabaseError|
            call_ensures(
                D::get_account_code,
                (&store, code_hash),
                Err::<Code, DatabaseError>(cause),
            ) && e == #[trigger] of_store(cause),
{
    let answer = choose|answer: CodeAnswer| #[trigger]
        code_answer(store, before, code_hash, answer) && load_code(before, code_hash, answer) == (
        Stepped { db: after, error });
    if !before.codes.contains_key(code_hash) {
        match answer->0 {
            Ok(code) => {
                assert(after.codes == before.codes.insert(code_hash, code@));
            },
            Err(cause) => {
                assert(error == Some(of_store(cause)));
            },
        }
    }
}

/// The length that is read of the code of an account is zero where it has none, and
/// otherwise the length that is known, that of the code that is known or that of the code
/// that the store has.
pub proof fn law_code_length<D: Database>(
    store: D,
    before: DbView,
    address: Address,
    after: DbView,
    n: usize,
)
    requires
        code_length_read(store, before, address, after, Ok::<usize, InternalError>(n)),
        forall|h: H256| #[trigger]
            before.codes.contains_key(h) ==> before.codes[h].bytecode.len() <= usize::MAX,
    ensures
        exists|loaded: DbView| #[trigger]
            account_loaded(store, before, address, loaded, None) && after.current == loaded.current
                && ({
                let h = loaded.current[address].info.code_hash;
                &&& h == empty_keccak() ==> n == 0
                &&& h != empty_keccak() && loaded.metadata.contains_key(h) ==> n
                    == loaded.metadata[h].length as usize
                &&& h != empty_keccak() && !loaded.metadata.contains_key(h)
                    && loaded.codes.contains_key(h) ==> n
                    == loaded.codes[h].bytecode.len() as u64 as usize
                &&& h != empty_keccak() && !loaded.metadata.contains_key(h)
                    && !loaded.codes.contains_key(h) ==> exists|code: Code|
                    call_ensures(D::get_account_code, (&store, h), Ok::<Code, DatabaseError>(code))
                        && n == (#[trigger] code@).bytecode.len() as u64 as usize
            }),
{
    let r = Ok::<usize, InternalError>(n);
    let (loaded, error) = choose|loaded: DbView, error: Option<ErrorView>| #[trigger]
        account_loaded(store, before, address, loaded, error) && (match error {
            Some(_) => failure(r) == error && after == loaded,
            None => {
                let code_hash = loaded.current[address].info.code_hash;
                if code_hash == empty_keccak() {
                    r == Ok::<usize, InternalError>(0) && after == loaded
                } else {
                    metadata_loaded(store, loaded, code_hash, after, failure(r)) && (r matches Ok(
                        n,
                    ) ==> n == after.metadata[code_hash].length as usize)
                }
            },
        });
    assert(account_loaded(store, before, address, loaded, None));
    let h = loaded.current[address].info.code_hash;
    if h != empty_keccak() {
        let answer = choose|answer: CodeAnswer| #[trigger]
            metadata_answer(store, loaded, h, answer) && load_metadata(loaded, h, answer) == (
            Stepped { db: after, error: None });
        if !loaded.metadata.contains_key(h) && !loaded.codes.contains_key(h) {
            let code = answer->0->Ok_0;
            assert(n == code@.bytecode.len() as u64 as usize);
        }
    }
}

/// A read of a slot gives the cached value; else zero for an account that was destroyed
/// and came back; else what the block access list says; else what the baseline holds;
/// else what the store says of exactly that slot. The value that was given is cached
/// then, so that the next read gives it too, and no other slot and no other account
/// changes.
pub proof fn law_slot_read<D: Database>(
    store: D,
    before: DbView,
    address: Address,
    key: H256,
    after: DbView,
    r: Result<U256, InternalError>,
)
    requires
        storage_read(store, before, address, key, after, r),
        before.current.contains_key(address),
    ensures
        ({
            let account = before.current[address];
            let now = after.current[address];
            let hit = account.storage.contains_key(key);
            let reborn = account.status == AccountStatus::DestroyedModified;
            let said = before.lazy is Some && before.lazy->0.slot(address, key) is Some;
            let kept = before.initial.contains_key(address)
                && before.initial[address].storage.contains_key(key);
            &&& hit ==> r == Ok::<U256, InternalError>(account.storage[key]) && after == before
            &&& !hit && reborn ==> r is Ok && r->Ok_0@ == 0
            &&& !hit && !reborn && said ==> r == Ok::<U256, InternalError>(
                before.lazy->0.slot(address, key)->0,
            )
            &&& !hit && !reborn && !said && kept ==> r == Ok::<U256, InternalError>(
                before.initial[address].storage[key],
            )
            &&& !hit && !reborn && !said && !kept && r is Ok ==> call_ensures(
                D::get_storage_value,
                (&store, address, key),
                Ok::<U256, DatabaseError>(r->Ok_0),
            ) && (before.skip || (before.initial.contains_key(address)
                && after.initial[address].storage == before.initial[address].storage.insert(
                key,
                r->Ok_0,
            ) && after.initial[address].info == before.initial[address].info))
            &&& hit || reborn || said || kept ==> r is Ok && after.initial == before.initial
            &&& r matches Ok(value) ==> now.storage == account.storage.insert(key, value)
                && now.info == account.info && now.status == account.status && now.exists
                == account.exists && now.has_storage == account.has_storage
            &&& r is Err ==> after.current == before.current
        }),
        forall|a: Address|
            #![trigger after.current.contains_key(a)]
            #![trigger after.current[a]]
            a != address ==> (after.current.contains_key(a) <==> before.current.contains_key(a))
                && after.current[a] == before.current[a],
        after.current.contains_key(address),
        after.codes == before.codes,
        after.recorder == before.recorder,
{
    let account = before.current[address];
    if account.storage.contains_key(key) {
        assert(account.storage =~= account.storage.insert(key, account.storage[key]));
    }
}

/// Where a list speaks of an account once, and of a slot of it once, the value that a
/// read sees is that of the last change of that slot up to the index, and there is none
/// where no change of it is that early.
pub proof fn law_slot_of_the_list(cursor: LazyBalCursor, i: int, j: int)
    requires
        index_of(cursor.list(), cursor.positions()),
        0 <= i < cursor.list().accounts@.len(),
        0 <= j < cursor.list().accounts@[i].storage_changes@.len(),
        forall|k: int|
            0 <= k < cursor.list().accounts@.len() && k != i ==> (
            #[trigger] cursor.list().accounts@[k]).address != cursor.list().accounts@[i].address,
        forall|k: int|
            0 <= k < cursor.list().accounts@[i].storage_changes@.len() && k != j ==> (
            #[trigger] cursor.list().accounts@[i].storage_changes@[k]).slot
                != cursor.list().accounts@[i].storage_changes@[j].slot,
    ensures
        ({
            let account = cursor.list().accounts@[i];
            let slot = account.storage_changes@[j];
            let changes = slot.slot_changes@;
            &&& cursor.changes(account.address) == Some(account)
            &&& forall|k: int| #[trigger]
                last_told(changes, cursor.max_idx(), k) ==> cursor.slot(account.address, slot.slot)
                    == Some(changes[k].post)
            &&& none_told(changes, cursor.max_idx()) ==> cursor.slot(account.address, slot.slot)
                is None
        }),
{
    let account = cursor.list().accounts@[i];
    let slot = account.storage_changes@[j];
    law_the_last_change_is_told(slot.slot_changes@, cursor.max_idx());
    let at = cursor.positions().addr_to_idx@[account.address] as int;
    assert(cursor.positions().addr_to_idx@.contains_key(account.address));
    assert(cursor.list().accounts@[at].address == account.address);
    assert(at == i);
    let index = cursor.positions().slot_idx_by_account@[i]@;
    assert(crate::bal::slots_indexed(account.storage_changes@, index));
    assert(index.contains_key(slot.slot));
    let place = index[slot.slot] as int;
    assert(account.storage_changes@[place].slot == slot.slot);
    assert(place == j);
}

} // verus!
