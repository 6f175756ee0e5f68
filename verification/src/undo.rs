//! What a revert undoes: whatever the machine does to accounts and storage, its backup
//! leads back to where it started.

use crate::account::{AccountView, CodeView};
use crate::backup::{account_restored, restored, slots_cached, BackupView};
use crate::database::Database;
use crate::error::{ErrorView, InternalError};
use crate::gen_db::{
    account_answer, account_loaded, cover, load, slot_fetched, AccountAnswer, DbView, Stepped,
};
use crate::vm::{
    backed_up, balance_moved, balance_outcome, code_outcome, code_told, code_updated, known_slot,
    nonce_incremented, nonce_outcome, opened, storage_read, storage_written, transferred,
    write_outcome, write_told, VmView,
};
use crate::word::{Address, H256, U256};
use vstd::prelude::*;

verus! {

/// A backup, put back, leads an account back to `was`.
pub open spec fn account_covered(
    was: AccountView,
    db: DbView,
    backup: BackupView,
    address: Address,
) -> bool {
    &&& db.current.contains_key(address)
    &&& was.without_storage() == if backup.infos.contains_key(address) {
        backup.infos[address]
    } else {
        db.current[address].without_storage()
    }
    &&& forall|k: H256| #[trigger]
        was.storage.contains_key(k) ==> db.current[address].storage.contains_key(k)
            && was.storage[k] == if backup.slots_of(address).contains_key(k) {
            backup.slots_of(address)[k]
        } else {
            db.current[address].storage[k]
        }
}

/// A backup, put back, leads everything that was cached back to `base`.
pub open spec fn covers(base: DbView, db: DbView, backup: BackupView) -> bool {
    &&& slots_cached(db, backup)
    &&& forall|a: Address| #[trigger]
        base.current.contains_key(a) ==> account_covered(base.current[a], db, backup, a)
    &&& forall|h: H256| #[trigger]
        base.codes.contains_key(h) ==> db.codes.contains_key(h) && db.codes[h] == base.codes[h]
            && !backup.inserted_codes.contains(h)
}

/// What the block access list says of an address is said of that address.
pub open spec fn list_fits(db: DbView) -> bool {
    db.lazy matches Some(cursor) ==> forall|a: Address|
        #![trigger cursor.changes(a)]
        cursor.changes(a) matches Some(changes) ==> changes.address == a
}

/// What was cached before a transaction is cached after it was undone, with the same
/// fields, the same slots and the same code.
pub proof fn law_undo_leads_back(base: DbView, db: DbView, backup: BackupView)
    requires
        covers(base, db, backup),
    ensures
        slots_cached(db, backup),
        forall|a: Address| #[trigger]
            base.current.contains_key(a) ==> {
                let after = restored(db, backup).current;
                &&& after.contains_key(a)
                &&& after[a].without_storage() == base.current[a].without_storage()
                &&& forall|k: H256| #[trigger]
                    base.current[a].storage.contains_key(k) ==> after[a].storage.contains_key(k)
                        && after[a].storage[k] == base.current[a].storage[k]
            },
        forall|h: H256| #[trigger]
            base.codes.contains_key(h) ==> restored(db, backup).codes.contains_key(h) && restored(
                db,
                backup,
            ).codes[h] == base.codes[h],
{
    assert forall|a: Address| #[trigger] base.current.contains_key(a) implies {
        let after = restored(db, backup).current;
        &&& after.contains_key(a)
        &&& after[a].without_storage() == base.current[a].without_storage()
        &&& forall|k: H256| #[trigger]
            base.current[a].storage.contains_key(k) ==> after[a].storage.contains_key(k)
                && after[a].storage[k] == base.current[a].storage[k]
    } by {
        let was = base.current[a];
        assert(account_covered(was, db, backup, a));
        let now = account_restored(db.current[a], backup, a);
        assert(now.without_storage() =~= was.without_storage());
        assert forall|k: H256| #[trigger] was.storage.contains_key(k) implies now.storage.contains_key(
            k,
        ) && now.storage[k] == was.storage[k] by {}
    }
}

/// A fresh backup covers everything.
pub proof fn law_fresh_backup_covers(base: DbView)
    ensures
        covers(base, base, BackupView::blank()),
{
}

/// Loading an account takes nothing out of reach of the backup.
pub proof fn law_load_keeps_backup<D: Database>(
    base: DbView,
    store: D,
    db: DbView,
    backup: BackupView,
    address: Address,
    loaded: DbView,
    error: Option<ErrorView>,
)
    requires
        covers(base, db, backup),
        list_fits(db),
        account_loaded(store, db, address, loaded, error),
    ensures
        covers(base, loaded, backup),
        list_fits(loaded),
        error is None ==> loaded.current.contains_key(address),
{
    let answer = choose|answer: AccountAnswer| #[trigger]
        account_answer(store, db, address, answer) && load(db, address, answer) == (Stepped {
            db: loaded,
            error,
        });
    assert(cover(db, address) matches Some(changes) ==> changes.address == address);
    assert forall|a: Address| #[trigger] db.current.contains_key(a) implies loaded.current.contains_key(
        a,
    ) && loaded.current[a] == db.current[a] by {}
    assert forall|a: Address| #[trigger] base.current.contains_key(a) implies account_covered(
        base.current[a],
        loaded,
        backup,
        a,
    ) by {
        assert(account_covered(base.current[a], db, backup, a));
    }
}

/// An account can be opened for changes without taking anything out of reach of the
/// backup, whatever it is then changed to but for its storage.
proof fn lemma_open_keeps_backup(
    base: DbView,
    vm: VmView,
    loaded: DbView,
    address: Address,
    after: VmView,
)
    requires
        covers(base, loaded, vm.frame.backup),
        loaded.current.contains_key(address),
        after.frame.backup == opened(vm, loaded, address).frame.backup,
        after.db.codes == loaded.codes,
        after.db.current.dom() == loaded.current.dom(),
        forall|a: Address|
            a != address ==> #[trigger] after.db.current[a] == loaded.current[a],
        after.db.current[address].storage == loaded.current[address].storage,
    ensures
        covers(base, after.db, after.frame.backup),
{
    let backup = after.frame.backup;
    let before = vm.frame.backup;
    assert forall|a: Address| #[trigger] backup.slots.contains_key(a) implies after.db.current.contains_key(
        a,
    ) by {
        assert(before.slots.contains_key(a));
        assert(loaded.current.dom().contains(a));
        assert(after.db.current.dom().contains(a));
    }
    assert forall|a: Address| #[trigger] base.current.contains_key(a) implies account_covered(
        base.current[a],
        after.db,
        backup,
        a,
    ) by {
        assert(account_covered(base.current[a], loaded, before, a));
        assert(loaded.current.dom().contains(a));
        assert(after.db.current.dom().contains(a));
        assert(backup.slots_of(a) == before.slots_of(a));
    }
}

/// A change of a balance can be undone.
pub proof fn law_balance_move_keeps_backup<D: Database>(
    base: DbView,
    store: D,
    before: VmView,
    address: Address,
    amount: U256,
    up: bool,
    after: VmView,
    r: Result<(), InternalError>,
)
    requires
        covers(base, before.db, before.frame.backup),
        list_fits(before.db),
        balance_moved(store, before, address, amount, up, after, r),
    ensures
        covers(base, after.db, after.frame.backup),
        list_fits(after.db),
{
    if amount@ != 0 {
        let (loaded, error) = choose|loaded: DbView, error: Option<ErrorView>| #[trigger]
            account_loaded(store, before.db, address, loaded, error) && balance_outcome(
                before,
                loaded,
                error,
                address,
                amount,
                up,
                after,
                r,
            );
        law_load_keeps_backup(
            base,
            store,
            before.db,
            before.frame.backup,
            address,
            loaded,
            error,
        );
        if error is None {
            assert(after.db.current.dom() =~= loaded.current.dom());
            lemma_open_keeps_backup(base, before, loaded, address, after);
        }
    }
}

/// A transfer can be undone.
pub proof fn law_transfer_keeps_backup<D: Database>(
    base: DbView,
    store: D,
    before: VmView,
    from: Address,
    to: Address,
    value: U256,
    after: VmView,
    r: Result<(), InternalError>,
)
    requires
        covers(base, before.db, before.frame.backup),
        list_fits(before.db),
        transferred(store, before, from, to, value, after, r),
    ensures
        covers(base, after.db, after.frame.backup),
        list_fits(after.db),
{
    let (between, taken) = choose|between: VmView, taken: Result<(), InternalError>| #[trigger]
        balance_moved(store, before, from, value, false, between, taken) && (match taken {
            Err(_) => after == between && r == taken,
            Ok(_) => balance_moved(store, between, to, value, true, after, r),
        });
    law_balance_move_keeps_backup(base, store, before, from, value, false, between, taken);
    if taken is Ok {
        law_balance_move_keeps_backup(base, store, between, to, value, true, after, r);
    }
}

/// An increment of a nonce can be undone.
pub proof fn law_nonce_keeps_backup<D: Database>(
    base: DbView,
    store: D,
    before: VmView,
    address: Address,
    after: VmView,
    r: Result<u64, InternalError>,
)
    requires
        covers(base, before.db, before.frame.backup),
        list_fits(before.db),
        nonce_incremented(store, before, address, after, r),
    ensures
        covers(base, after.db, after.frame.backup),
        list_fits(after.db),
{
    let (loaded, error) = choose|loaded: DbView, error: Option<ErrorView>| #[trigger]
        account_loaded(store, before.db, address, loaded, error) && nonce_outcome(
            before,
            loaded,
            error,
            address,
            after,
            r,
        );
    law_load_keeps_backup(base, store, before.db, before.frame.backup, address, loaded, error);
    if error is None {
        assert(after.db.current.dom() =~= loaded.current.dom());
        lemma_open_keeps_backup(base, before, loaded, address, after);
    }
}

/// A change of an account's code can be undone.
pub proof fn law_code_keeps_backup<D: Database>(
    base: DbView,
    store: D,
    before: VmView,
    address: Address,
    code: CodeView,
    after: VmView,
    r: Result<(), InternalError>,
)
    requires
        covers(base, before.db, before.frame.backup),
        list_fits(before.db),
        code_updated(store, before, address, code, after, r),
    ensures
        covers(base, after.db, after.frame.backup),
        list_fits(after.db),
{
    let told = code_told(before, address, code.bytecode);
    let (loaded, error) = choose|loaded: DbView, error: Option<ErrorView>| #[trigger]
        account_loaded(store, told.db, address, loaded, error) && code_outcome(
            told,
            loaded,
            error,
            address,
            code,
            after,
            r,
        );
    assert(covers(base, told.db, told.frame.backup)) by {
        assert forall|a: Address| #[trigger] base.current.contains_key(a) implies account_covered(
            base.current[a],
            told.db,
            told.frame.backup,
            a,
        ) by {
            assert(account_covered(base.current[a], before.db, before.frame.backup, a));
        }
    }
    law_load_keeps_backup(base, store, told.db, told.frame.backup, address, loaded, error);
    if error is None {
        let open = opened(told, loaded, address);
        let info_only = VmView {
            db: DbView { codes: loaded.codes, ..after.db },
            frame: open.frame,
            ..after
        };
        assert(info_only.db.current.dom() =~= loaded.current.dom());
        lemma_open_keeps_backup(base, told, loaded, address, info_only);
        assert forall|a: Address| #[trigger] base.current.contains_key(a) implies account_covered(
            base.current[a],
            after.db,
            after.frame.backup,
            a,
        ) by {
            assert(account_covered(base.current[a], info_only.db, info_only.frame.backup, a));
            assert(after.frame.backup.slots_of(a) == info_only.frame.backup.slots_of(a));
        }
        assert forall|h: H256| #[trigger] base.codes.contains_key(h) implies after.db.codes.contains_key(
            h,
        ) && after.db.codes[h] == base.codes[h] && !after.frame.backup.inserted_codes.contains(
            h,
        ) by {
            let inserted = open.frame.backup.inserted_codes;
            assert(!inserted.contains(h));
            assert(loaded.codes.contains_key(h));
            if after.frame.backup.inserted_codes.contains(h) {
                let i = after.frame.backup.inserted_codes.index_of(h);
                if i < inserted.len() {
                    assert(inserted[i] == h);
                }
            }
        }
    }
}

/// Reading a slot takes nothing out of reach of the backup.
pub proof fn law_storage_read_keeps_backup<D: Database>(
    base: DbView,
    store: D,
    before: DbView,
    backup: BackupView,
    address: Address,
    key: H256,
    after: DbView,
    r: Result<U256, InternalError>,
)
    requires
        covers(base, before, backup),
        list_fits(before),
        storage_read(store, before, address, key, after, r),
    ensures
        covers(base, after, backup),
        list_fits(after),
{
    if before.current.contains_key(address) {
        let cached = before.current[address].storage;
        assert(after.current.dom() =~= before.current.dom()) by {
            if known_slot(before, address, key) is None {
                let (fetched, said) = choose|fetched: DbView, said: Result<U256, InternalError>|
                    #[trigger]
                    slot_fetched(store, before, address, key, fetched, said) && r == said && after
                        == match said {
                        Ok(value) => fetched.with_cached_slot(address, key, value),
                        Err(_) => fetched,
                    };
            }
        }
        assert forall|a: Address| #[trigger] base.current.contains_key(a) implies account_covered(
            base.current[a],
            after,
            backup,
            a,
        ) by {
            assert(account_covered(base.current[a], before, backup, a));
            assert(after.current.dom().contains(a));
        }
        assert forall|a: Address| #[trigger] backup.slots.contains_key(a) implies after.current.contains_key(
            a,
        ) by {
            assert(before.current.dom().contains(a));
            assert(after.current.dom().contains(a));
        }
    }
}

/// A write to a slot whose cached value was told can be undone.
pub proof fn law_storage_write_keeps_backup<D: Database>(
    base: DbView,
    store: D,
    before: VmView,
    address: Address,
    key: H256,
    slot: U256,
    new: U256,
    current: U256,
    after: VmView,
    r: Result<(), InternalError>,
)
    requires
        covers(base, before.db, before.frame.backup),
        list_fits(before.db),
        before.db.current.contains_key(address),
        before.db.current[address].storage.contains_key(key),
        before.db.current[address].storage[key] == current,
        storage_written(store, before, address, key, slot, new, current, after, r),
    ensures
        covers(base, after.db, after.frame.backup),
        list_fits(after.db),
{
    let noted = backed_up(before, before.frame.backup.with_slot(address, key, current));
    let told = write_told(noted, address, slot, new, current);
    let (loaded, error) = choose|loaded: DbView, error: Option<ErrorView>| #[trigger]
        account_loaded(store, told.db, address, loaded, error) && write_outcome(
            told,
            loaded,
            error,
            address,
            key,
            new,
            after,
            r,
        );
    let was = before.frame.backup;
    let now = told.frame.backup;
    assert(covers(base, told.db, now)) by {
        assert forall|a: Address| #[trigger] base.current.contains_key(a) implies account_covered(
            base.current[a],
            told.db,
            now,
            a,
        ) by {
            assert(account_covered(base.current[a], before.db, was, a));
        }
    }
    law_load_keeps_backup(base, store, told.db, now, address, loaded, error);
    assert(loaded.current[address] == told.db.current[address]) by {
        let answer = choose|answer: AccountAnswer| #[trigger]
            account_answer(store, told.db, address, answer) && load(told.db, address, answer) == (
            Stepped { db: loaded, error });
    }
    if error is None {
        let open = opened(told, loaded, address);
        assert(open.db.current.dom() =~= loaded.current.dom());
        lemma_open_keeps_backup(base, told, loaded, address, open);
        assert(after.db.current.dom() =~= open.db.current.dom());
        assert(open.frame.backup.slots_of(address).contains_key(key));
        assert forall|a: Address| #[trigger] base.current.contains_key(a) implies account_covered(
            base.current[a],
            after.db,
            after.frame.backup,
            a,
        ) by {
            assert(account_covered(base.current[a], open.db, open.frame.backup, a));
            assert(after.db.current.dom().contains(a));
        }
        assert forall|a: Address| #[trigger] after.frame.backup.slots.contains_key(a) implies after.db.current.contains_key(
            a,
        ) by {
            assert(open.db.current.contains_key(a));
            assert(after.db.current.dom().contains(a));
        }
    }
}

/// A transfer that succeeds between two cached accounts takes from one what it gives to
/// the other, and touches no third balance. To oneself it changes nothing.
pub proof fn law_transfer_conserves<D: Database>(
    store: D,
    before: VmView,
    from: Address,
    to: Address,
    value: U256,
    after: VmView,
)
    requires
        before.db.current.contains_key(from),
        before.db.current.contains_key(to),
        transferred(store, before, from, to, value, after, Ok(())),
    ensures
        from != to ==> {
            &&& after.db.current[from].info.balance@ + value@
                == before.db.current[from].info.balance@
            &&& after.db.current[to].info.balance@ == before.db.current[to].info.balance@ + value@
        },
        from == to ==> after.db.current[from].info.balance@
            == before.db.current[from].info.balance@,
        forall|a: Address|
            a != from && a != to && #[trigger] before.db.current.contains_key(a)
                ==> after.db.current[a].info.balance == before.db.current[a].info.balance,
{
    let r: Result<(), InternalError> = Ok(());
    let (between, taken) = choose|between: VmView, taken: Result<(), InternalError>| #[trigger]
        balance_moved(store, before, from, value, false, between, taken) && (match taken {
            Err(_) => after == between && r == taken,
            Ok(_) => balance_moved(store, between, to, value, true, after, r),
        });
    lemma_move(store, before, from, value, false, between);
    lemma_move(store, between, to, value, true, after);
}

proof fn lemma_move<D: Database>(
    store: D,
    before: VmView,
    address: Address,
    amount: U256,
    up: bool,
    after: VmView,
)
    requires
        before.db.current.contains_key(address),
        balance_moved(store, before, address, amount, up, after, Ok(())),
    ensures
        up ==> after.db.current[address].info.balance@
            == before.db.current[address].info.balance@ + amount@,
        !up ==> after.db.current[address].info.balance@ + amount@
            == before.db.current[address].info.balance@,
        forall|a: Address| #[trigger]
            before.db.current.contains_key(a) ==> after.db.current.contains_key(a) && (a != address
                ==> after.db.current[a] == before.db.current[a]),
{
    if amount@ != 0 {
        let r: Result<(), InternalError> = Ok(());
        let (loaded, error) = choose|loaded: DbView, error: Option<ErrorView>| #[trigger]
            account_loaded(store, before.db, address, loaded, error) && balance_outcome(
                before,
                loaded,
                error,
                address,
                amount,
                up,
                after,
                r,
            );
        let answer = choose|answer: AccountAnswer| #[trigger]
            account_answer(store, before.db, address, answer) && load(before.db, address, answer)
                == (Stepped { db: loaded, error });
        let balance = loaded.current[address].info.balance;
        crate::word::lemma_word_bound(balance);
        if up {
            crate::word::lemma_word_of((balance@ + amount@) as int);
        } else {
            crate::word::lemma_word_of(balance@ - amount@);
        }
    }
}

} // verus!
