//! What state transitions tell of an execution.

use crate::account::{empty_keccak, AccountStatus, AccountView, CodeView, UpdateView};
use crate::gen_db::DbView;
use crate::transitions::{
    baseline_after, changed, db_update, says_something, tells, unobstructed, update_of,
};
use crate::word::{Address, H256, U256};
use vstd::prelude::*;

verus! {

/// An account without nonce, balance and code.
pub open spec fn nothing_left(account: AccountView) -> bool {
    account.info.nonce == 0 && account.info.balance@ == 0 && account.info.code_hash
        == empty_keccak()
}

/// An update names its account, and speaks of balance, nonce and code hash exactly where
/// one of them differs, with the values of the cached account. It carries a code exactly
/// where the code hash differs from that of the baseline, whatever else is true of the
/// baseline: the one that is cached under the new hash. It holds exactly the cached slots
/// whose value differs from the baseline, which is zero for an account that was destroyed
/// and came back, with the cached values. The account is removed exactly where nothing is
/// left of one that had something, and its storage exactly where it had some, was
/// destroyed and came back.
pub proof fn law_update_tells_the_difference(
    address: Address,
    initial: AccountView,
    current: AccountView,
    codes: Map<H256, CodeView>,
    update: UpdateView,
    k: H256,
)
    requires
        update == update_of(address, initial, current, codes),
    ensures
        update.address == address,
        update.info is Some <==> (initial.info.nonce != current.info.nonce
            || initial.info.balance@ != current.info.balance@ || initial.info.code_hash
            != current.info.code_hash),
        update.info matches Some(info) ==> info.nonce == current.info.nonce && info.balance
            == current.info.balance && info.code_hash == current.info.code_hash,
        update.code is Some <==> initial.info.code_hash != current.info.code_hash,
        initial.info.code_hash != current.info.code_hash ==> update.code == Some(
            codes[current.info.code_hash],
        ),
        update.added_storage.contains_key(k) <==> current.storage.contains_key(k)
            && current.storage[k]@ != (if current.status == AccountStatus::DestroyedModified {
            0
        } else {
            initial.storage[k]@
        }),
        update.added_storage.contains_key(k) ==> update.added_storage[k] == current.storage[k],
        update.removed <==> nothing_left(current) && !nothing_left(initial),
        update.removed_storage <==> current.status == AccountStatus::DestroyedModified
            && initial.has_storage,
        says_something(update) ==> update.removed || update.info is Some || update.removed_storage
            || exists|s: H256| #[trigger] update.added_storage.contains_key(s),
        (update.removed || update.info is Some || update.removed_storage
            || update.added_storage.contains_key(k)) ==> says_something(update),
{
    if initial.info.balance@ == current.info.balance@ {
        crate::word::lemma_word_ext(initial.info.balance, current.info.balance);
    }
    if current.info.balance@ == 0 {
        crate::word::lemma_word_ext(current.info.balance, U256 { hi: 0, lo: 0 });
    }
    if initial.info.balance@ == 0 {
        crate::word::lemma_word_ext(initial.info.balance, U256 { hi: 0, lo: 0 });
    }
    if current.status == AccountStatus::DestroyedModified {
        if current.storage[k]@ == 0 {
            crate::word::lemma_word_ext(current.storage[k], U256 { hi: 0, lo: 0 });
        }
    } else if current.storage[k]@ == initial.storage[k]@ {
        crate::word::lemma_word_ext(current.storage[k], initial.storage[k]);
    }
    if !update.added_storage.dom().is_empty() {
        let s = update.added_storage.dom().choose();
        assert(update.added_storage.contains_key(s));
    }
    if update.added_storage.contains_key(k) {
        assert(update.added_storage.dom().contains(k));
    }
}

/// The balance, nonce and code hash of an account after an update, where `None` stands
/// for no update.
pub open spec fn info_after(
    initial: AccountView,
    update: Option<UpdateView>,
) -> crate::account::AccountInfo {
    match update {
        Some(u) => match u.info {
            Some(info) => info,
            None => initial.info,
        },
        None => initial.info,
    }
}

/// The value of a slot after an update: the one that the update holds, else zero where
/// earlier storage is gone, else the one before.
pub open spec fn slot_after(initial: AccountView, update: Option<UpdateView>, k: H256) -> nat {
    match update {
        Some(u) => if u.added_storage.contains_key(k) {
            u.added_storage[k]@
        } else if u.removed_storage {
            0
        } else {
            initial.storage[k]@
        },
        None => initial.storage[k]@,
    }
}

/// The code under the code hash of an account after an update, `known` being the codes
/// that belong to the baseline.
pub open spec fn code_after_update(
    initial: AccountView,
    update: Option<UpdateView>,
    known: Map<H256, CodeView>,
) -> CodeView {
    match update {
        Some(u) => match u.code {
            Some(code) => code,
            None => known[initial.info.code_hash],
        },
        None => known[initial.info.code_hash],
    }
}

/// What a sequence of updates says of an address.
pub open spec fn said_of(updates: Seq<UpdateView>, address: Address) -> Option<UpdateView> {
    if exists|i: int| 0 <= i < updates.len() && (#[trigger] updates[i]).address == address {
        Some(
            updates[choose|i: int|
                0 <= i < updates.len() && (#[trigger] updates[i]).address == address],
        )
    } else {
        None
    }
}

/// The updates, applied to the baseline, give the cached accounts: their nonces,
/// balances and code hashes, their codes, also where the baseline account was empty, and
/// the value of every cached slot. An account that they do not mention is as in the
/// baseline. No account is mentioned twice, and none that was not modified. Left out is an
/// account that was destroyed, came back and had no storage to lose, where the baseline
/// holds slots all the same.
pub proof fn law_updates_lead_to_the_cached_accounts(
    updates: Seq<UpdateView>,
    db: DbView,
    address: Address,
    k: H256,
    known: Map<H256, CodeView>,
)
    requires
        tells(updates, db, db.current.dom()),
        unobstructed(db),
        db.current.contains_key(address),
        db.current[address].status != AccountStatus::Unmodified,
        known[db.initial[address].info.code_hash] == db.codes[db.initial[address].info.code_hash],
    ensures
        ({
            let initial = db.initial[address];
            let current = db.current[address];
            let update = said_of(updates, address);
            let info = info_after(initial, update);
            &&& db.initial.contains_key(address)
            &&& info.nonce == current.info.nonce
            &&& info.balance == current.info.balance
            &&& info.code_hash == current.info.code_hash
            &&& code_after_update(initial, update, known) == db.codes[current.info.code_hash]
            &&& initial.info.code_hash != current.info.code_hash ==> update is Some
                && update->0.code == Some(db.codes[current.info.code_hash])
                && db.codes.contains_key(current.info.code_hash)
            &&& current.storage.contains_key(k) && (current.status
                == AccountStatus::DestroyedModified ==> initial.has_storage
                || initial.storage[k]@ == 0) ==> slot_after(initial, update, k)
                == current.storage[k]@
            &&& update is Some ==> (update->0.removed <==> nothing_left(current) && !nothing_left(
                initial,
            ))
        }),
        forall|i: int, j: int|
            0 <= i < j < updates.len() ==> (#[trigger] updates[i]).address != (
            #[trigger] updates[j]).address,
        forall|i: int|
            0 <= i < updates.len() ==> db.current.contains_key((#[trigger] updates[i]).address)
                && db.current[updates[i].address].status != AccountStatus::Unmodified,
{
    let initial = db.initial[address];
    let current = db.current[address];
    let update = db_update(db, address);
    law_update_tells_the_difference(address, initial, current, db.codes, update, k);
    assert(crate::transitions::db_obstacle(db, address) is None);
    if changed(db, address) {
        let i = choose|i: int| 0 <= i < updates.len() && (#[trigger] updates[i]).address == address;
        assert(updates[i].address == address);
        assert(said_of(updates, address) == Some(update));
    } else {
        if exists|i: int| 0 <= i < updates.len() && (#[trigger] updates[i]).address == address {
            let i = choose|i: int|
                0 <= i < updates.len() && (#[trigger] updates[i]).address == address;
            assert(changed(db, updates[i].address));
        }
        assert(said_of(updates, address) is None);
    }
}

/// Once the changes are committed, the baseline of every account that differed has the
/// balance, nonce, code hash and flags of the cached account and the value of every
/// cached slot; a slot that was not cached keeps its value, unless the account was
/// destroyed, whose other slots are gone. Every other baseline stays.
pub proof fn law_commit_moves_the_baseline(db: DbView, a: Address, k: H256)
    ensures
        ({
            let after = baseline_after(db);
            let initial = db.initial[a];
            let current = db.current[a];
            let now = after[a];
            let gone = current.status == AccountStatus::Destroyed || current.status
                == AccountStatus::DestroyedModified;
            &&& after.contains_key(a) <==> db.initial.contains_key(a)
            &&& after.contains_key(a) && !changed(db, a) ==> now == initial
            &&& after.contains_key(a) && changed(db, a) ==> {
                &&& now.info.nonce == current.info.nonce
                &&& now.info.balance == current.info.balance
                &&& now.info.code_hash == current.info.code_hash
                &&& now.status == current.status
                &&& now.exists == current.exists
                &&& now.has_storage == current.has_storage
                &&& current.storage.contains_key(k) ==> now.storage.contains_key(k)
                    && now.storage[k] == current.storage[k]
                &&& !current.storage.contains_key(k) && !gone ==> (now.storage.contains_key(k)
                    <==> initial.storage.contains_key(k)) && (initial.storage.contains_key(k)
                    ==> now.storage[k] == initial.storage[k])
                &&& !current.storage.contains_key(k) && gone ==> !now.storage.contains_key(k)
            }
        }),
{
}

} // verus!
