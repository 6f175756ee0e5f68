//! What the machine does to balances, nonces, codes and slots, and what a revert brings
//! back.

use crate::account::{AccountStatus, AccountView, CodeView};
use crate::backup::{restored, BackupView};
use crate::bal::{EventView, RecorderView};
use crate::database::Database;
use crate::error::{ErrorView, InternalError};
use crate::gen_db::{account_loaded, DbView};
use crate::laws::admission::word_limit;
use crate::vm::{
    balance_moved, balance_outcome, code_outcome, code_told, code_updated, nonce_incremented,
    nonce_outcome, original, storage_written, with_original, write_outcome, write_told, VmView,
};
use crate::word::{lemma_word_bound, lemma_word_of, Address, H256, U256};
use vstd::prelude::*;

verus! {

/// Once `address` was loaded, nothing but that account, the codes, the recorder and the
/// backup has changed, and the account is backed up as it was loaded, without its slots,
/// unless it was backed up before.
pub open spec fn touched_only(
    before: VmView,
    loaded: DbView,
    address: Address,
    after: VmView,
) -> bool {
    &&& after.db.current.contains_key(address)
    &&& forall|a: Address|
        #![trigger after.db.current.contains_key(a)]
        #![trigger after.db.current[a]]
        a != address ==> (after.db.current.contains_key(a) <==> loaded.current.contains_key(a))
            && after.db.current[a] == loaded.current[a]
    &&& after.db.initial == loaded.initial
    &&& after.db.metadata == loaded.metadata
    &&& after.db.accessed == loaded.accessed
    &&& after.db.balance_reads == loaded.balance_reads
    &&& after.db.base == loaded.base
    &&& after.db.skip == loaded.skip
    &&& after.db.lazy == loaded.lazy
    &&& after.db.backup == loaded.backup
    &&& after.substate == before.substate
    &&& after.originals == before.originals
    &&& after.observer == before.observer
    &&& after.frame.gas == before.frame.gas
    &&& after.frame.stack == before.frame.stack
    &&& after.frame.memory == before.frame.memory
    &&& after.frame.calldata == before.frame.calldata
    &&& after.frame.bytecode == before.frame.bytecode
    &&& after.frame.sub_return_data == before.frame.sub_return_data
    &&& after.frame.to == before.frame.to
    &&& after.frame.msg_sender == before.frame.msg_sender
    &&& after.frame.msg_value == before.frame.msg_value
    &&& forall|a: Address|
        #![trigger after.frame.backup.infos.contains_key(a)]
        #![trigger after.frame.backup.infos[a]]
        before.frame.backup.infos.contains_key(a) ==> after.frame.backup.infos.contains_key(a)
            && after.frame.backup.infos[a] == before.frame.backup.infos[a]
    &&& forall|a: Address| #[trigger]
        after.frame.backup.infos.contains_key(a) ==> a == address
            || before.frame.backup.infos.contains_key(a)
    &&& after.frame.backup.infos.contains_key(address)
    &&& !before.frame.backup.infos.contains_key(address) ==> ({
        let saved = after.frame.backup.infos[address];
        let was = loaded.current[address];
        &&& saved.info == was.info
        &&& saved.has_storage == was.has_storage
        &&& saved.status == was.status
        &&& saved.exists == was.exists
        &&& saved.storage == Map::<H256, U256>::empty()
    })
}

/// An account that was opened for changes exists, and is marked as modified in a way that
/// remembers whether it was destroyed.
pub open spec fn marked(was: AccountView, now: AccountView) -> bool {
    &&& now.exists
    &&& now.has_storage == was.has_storage
    &&& now.status == if was.status == AccountStatus::Destroyed || was.status
        == AccountStatus::DestroyedModified {
        AccountStatus::DestroyedModified
    } else {
        AccountStatus::Modified
    }
}

/// The recorder, where there is one, was told `events` under its index and nothing else.
pub open spec fn told_events(
    was: Option<RecorderView>,
    now: Option<RecorderView>,
    events: Seq<EventView>,
) -> bool {
    &&& was is Some <==> now is Some
    &&& was is Some ==> ({
        let then = was->0.events;
        &&& now->0.block_access_index == was->0.block_access_index
        &&& now->0.events.len() == then.len() + events.len()
        &&& forall|i: int| 0 <= i < then.len() ==> #[trigger] now->0.events[i] == then[i]
        &&& forall|i: int|
            0 <= i < events.len() ==> now->0.events[then.len() + i] == (
                was->0.block_access_index,
                #[trigger] events[i],
            )
    })
}

/// A change of a balance adds or takes exactly the amount, in numbers, where the result
/// can be held, and leaves the nonce, the code and the slots of the account. It fails
/// with an overflow exactly where the sum does not fit into 256 bits, with an underflow
/// exactly where there is too little, and otherwise only where the account cannot be
/// loaded. Nothing at all happens where the amount is zero.
pub proof fn law_balance_changes_by_the_amount<D: Database>(
    store: D,
    before: VmView,
    address: Address,
    amount: U256,
    up: bool,
    after: VmView,
    r: Result<(), InternalError>,
)
    requires
        balance_moved(store, before, address, amount, up, after, r),
    ensures
        amount@ == 0 ==> after == before && r is Ok,
        amount@ > 0 ==> exists|loaded: DbView, error: Option<ErrorView>| #[trigger]
            account_loaded(store, before.db, address, loaded, error) && ({
                let was = loaded.current[address];
                let now = after.db.current[address];
                let sum = was.info.balance@ + amount@;
                let fits = if up {
                    sum < word_limit()
                } else {
                    amount@ <= was.info.balance@
                };
                &&& error matches Some(e) ==> r is Err && r->Err_0@ == e && after.db == loaded
                &&& error is None && !fits ==> r is Err && r->Err_0@ == (if up {
                    ErrorView::Overflow
                } else {
                    ErrorView::Underflow
                }) && now.info == was.info && now.storage == was.storage
                &&& error is None && fits ==> {
                    &&& r is Ok
                    &&& up ==> now.info.balance@ == sum
                    &&& !up ==> now.info.balance@ == was.info.balance@ - amount@
                    &&& now.info.nonce == was.info.nonce
                    &&& now.info.code_hash == was.info.code_hash
                    &&& now.storage == was.storage
                    &&& marked(was, now)
                    &&& touched_only(before, loaded, address, after)
                    &&& after.db.codes == loaded.codes
                    &&& after.frame.backup.slots == before.frame.backup.slots
                    &&& after.frame.backup.inserted_codes == before.frame.backup.inserted_codes
                    &&& told_events(
                        loaded.recorder,
                        after.db.recorder,
                        seq![
                            EventView::InitialBalance(address, was.info.balance),
                            EventView::BalanceChange(address, now.info.balance),
                        ],
                    )
                }
            }),
{
    if amount@ > 0 {
        let (loaded, error) = choose|loaded: DbView, error: Option<ErrorView>| #[trigger]
            account_loaded(store, before.db, address, loaded, error) && balance_outcome(
                before,
                loaded,
                error,
                address,
                amount,
                up,
                after,
                r,
            );
        let balance = loaded.current[address].info.balance;
        lemma_word_bound(balance);
        lemma_word_bound(amount);
        if error is None {
            if up && balance@ + amount@ < crate::word::two_256() {
                lemma_word_of((balance@ + amount@) as int);
            }
            if !up && amount@ <= balance@ {
                lemma_word_of(balance@ - amount@);
            }
        }
        assert(account_loaded(store, before.db, address, loaded, error));
    }
}

/// An increment of a nonce gives and leaves the next number, and nothing else of the
/// account changes. It fails where there is no next number or no account.
pub proof fn law_nonce_goes_up_by_one<D: Database>(
    store: D,
    before: VmView,
    address: Address,
    after: VmView,
    r: Result<u64, InternalError>,
)
    requires
        nonce_incremented(store, before, address, after, r),
    ensures
        exists|loaded: DbView, error: Option<ErrorView>| #[trigger]
            account_loaded(store, before.db, address, loaded, error) && ({
                let was = loaded.current[address];
                let now = after.db.current[address];
                &&& error matches Some(e) ==> r is Err && r->Err_0@ == e && after.db == loaded
                &&& error is None && was.info.nonce == 0xffff_ffff_ffff_ffff ==> r is Err
                    && r->Err_0@ == ErrorView::Overflow && now.info == was.info
                &&& error is None && was.info.nonce < 0xffff_ffff_ffff_ffff ==> {
                    &&& r is Ok && r->Ok_0 == was.info.nonce + 1
                    &&& now.info.nonce == was.info.nonce + 1
                    &&& now.info.balance == was.info.balance
                    &&& now.info.code_hash == was.info.code_hash
                    &&& now.storage == was.storage
                    &&& marked(was, now)
                    &&& touched_only(before, loaded, address, after)
                    &&& after.db.codes == loaded.codes
                    &&& after.frame.backup.slots == before.frame.backup.slots
                    &&& after.frame.backup.inserted_codes == before.frame.backup.inserted_codes
                    &&& told_events(
                        loaded.recorder,
                        after.db.recorder,
                        seq![EventView::NonceChange(address, now.info.nonce)],
                    )
                }
            }),
{
    let (loaded, error) = choose|loaded: DbView, error: Option<ErrorView>| #[trigger]
        account_loaded(store, before.db, address, loaded, error) && nonce_outcome(
            before,
            loaded,
            error,
            address,
            after,
            r,
        );
    assert(account_loaded(store, before.db, address, loaded, error));
}

/// The database as it was, but for what the recorder has been told.
pub open spec fn apart_from_recorder(was: DbView, now: DbView) -> bool {
    now == (DbView { recorder: now.recorder, ..was })
}

/// A change of an account's code leaves the hash of the new code with the account and
/// the new code in the cache, unless a code is cached under that hash already, and the
/// backup remembers which code came in. Balance, nonce and slots stay.
pub proof fn law_code_is_replaced<D: Database>(
    store: D,
    before: VmView,
    address: Address,
    code: CodeView,
    after: VmView,
    r: Result<(), InternalError>,
)
    requires
        code_updated(store, before, address, code, after, r),
    ensures
        exists|told: DbView, loaded: DbView, error: Option<ErrorView>|
            apart_from_recorder(before.db, told) && told_events(
                before.db.recorder,
                told.recorder,
                ({
                    let known = if before.db.current.contains_key(address)
                        && before.db.codes.contains_key(
                        before.db.current[address].info.code_hash,
                    ) {
                        before.db.codes[before.db.current[address].info.code_hash].bytecode
                    } else {
                        Seq::<u8>::empty()
                    };
                    seq![
                        EventView::InitialCodePresence(address, known.len() > 0),
                        EventView::InitialCode(address, known),
                        EventView::CodeChange(address, code.bytecode),
                    ]
                }),
            ) && #[trigger] account_loaded(store, told, address, loaded, error) && ({
                let was = loaded.current[address];
                let now = after.db.current[address];
                &&& error matches Some(e) ==> r is Err && r->Err_0@ == e && after.db == loaded
                &&& error is None ==> {
                    &&& r is Ok
                    &&& now.info.code_hash == code.hash
                    &&& now.info.balance == was.info.balance
                    &&& now.info.nonce == was.info.nonce
                    &&& now.storage == was.storage
                    &&& marked(was, now)
                    &&& touched_only(before, loaded, address, after)
                    &&& after.db.recorder == loaded.recorder
                    &&& after.db.codes.contains_key(code.hash)
                    &&& forall|h: H256| #[trigger]
                        loaded.codes.contains_key(h) ==> after.db.codes.contains_key(h)
                            && after.db.codes[h] == loaded.codes[h]
                    &&& forall|h: H256| #[trigger]
                        after.db.codes.contains_key(h) ==> h == code.hash
                            || loaded.codes.contains_key(h)
                    &&& !loaded.codes.contains_key(code.hash) ==> after.db.codes[code.hash] == code
                        && after.frame.backup.inserted_codes
                        == before.frame.backup.inserted_codes.push(code.hash)
                    &&& loaded.codes.contains_key(code.hash)
                        ==> after.frame.backup.inserted_codes
                        == before.frame.backup.inserted_codes
                    &&& after.frame.backup.slots == before.frame.backup.slots
                }
            }),
{
    let told = code_told(before, address, code.bytecode);
    let (loaded, error) = choose|loaded: DbView, error: Option<ErrorView>| #[trigger]
        account_loaded(store, told.db, address, loaded, error) && code_outcome(
            told,
            loaded,
            error,
            address,
            code,
            after,
            r,
        );
    assert(apart_from_recorder(before.db, told.db));
    assert(account_loaded(store, told.db, address, loaded, error));
}

/// A write to a slot leaves exactly the new value in that slot and every other slot, the
/// balance, the nonce and the code of the account as they were. The value before is
/// backed up, unless one was backed up before, and the recorder is told of the write with
/// both values, or of a read where the value stays the same.
pub proof fn law_slot_write<D: Database>(
    store: D,
    before: VmView,
    address: Address,
    key: H256,
    slot: U256,
    new: U256,
    current: U256,
    after: VmView,
    r: Result<(), InternalError>,
)
    requires
        storage_written(store, before, address, key, slot, new, current, after, r),
    ensures
        ({
            let saved = after.frame.backup.slots;
            let known = before.frame.backup.slots;
            &&& saved.contains_key(address) && saved[address].contains_key(key)
            &&& known.contains_key(address) && known[address].contains_key(key)
                ==> saved[address][key] == known[address][key]
            &&& !(known.contains_key(address) && known[address].contains_key(key))
                ==> saved[address][key] == current
            &&& forall|k: H256| #[trigger]
                saved[address].contains_key(k) && k != key ==> known.contains_key(address)
                    && known[address].contains_key(k) && saved[address][k] == known[address][k]
            &&& known.contains_key(address) ==> forall|k: H256| #[trigger]
                known[address].contains_key(k) ==> saved[address].contains_key(k)
            &&& forall|a: Address|
                #![trigger saved.contains_key(a)]
                #![trigger saved[a]]
                a != address ==> (saved.contains_key(a) <==> known.contains_key(a)) && saved[a]
                    == known[a]
        }),
        exists|told: DbView, loaded: DbView, error: Option<ErrorView>|
            apart_from_recorder(before.db, told) && told_events(
                before.db.recorder,
                told.recorder,
                if new@ == current@ {
                    seq![EventView::StorageRead(address, slot)]
                } else {
                    seq![
                        EventView::PreStorage(address, slot, current),
                        EventView::StorageWrite(address, slot, new),
                    ]
                },
            ) && #[trigger] account_loaded(store, told, address, loaded, error) && ({
                let was = loaded.current[address];
                let now = after.db.current[address];
                &&& error matches Some(e) ==> r is Err && r->Err_0@ == e && after.db == loaded
                &&& error is None ==> {
                    &&& r is Ok
                    &&& now.storage.contains_key(key) && now.storage[key] == new
                    &&& forall|k: H256|
                        #![trigger now.storage.contains_key(k)]
                        #![trigger now.storage[k]]
                        k != key ==> (now.storage.contains_key(k) <==> was.storage.contains_key(k))
                            && now.storage[k] == was.storage[k]
                    &&& now.info == was.info
                    &&& marked(was, now)
                    &&& touched_only(before, loaded, address, after)
                    &&& after.db.recorder == loaded.recorder
                    &&& after.db.codes == loaded.codes
                    &&& after.frame.backup.inserted_codes == before.frame.backup.inserted_codes
                }
            }),
{
    let told = write_told(
        crate::vm::backed_up(before, before.frame.backup.with_slot(address, key, current)),
        address,
        slot,
        new,
        current,
    );
    if new@ == current@ {
        crate::word::lemma_word_ext(new, current);
    }
    let (loaded, error) = choose|loaded: DbView, error: Option<ErrorView>| #[trigger]
        account_loaded(store, told.db, address, loaded, error) && write_outcome(
            told,
            loaded,
            error,
            address,
            key,
            new,
            after,
            r,
        );
    assert(apart_from_recorder(before.db, told.db));
    assert(account_loaded(store, told.db, address, loaded, error));
}

/// The value that a slot had when the transaction began is the one that was noted first,
/// and stays so: noting it again changes nothing, for this slot or any other.
pub proof fn law_original_value_is_the_first(
    vm: VmView,
    address: Address,
    key: H256,
    value: U256,
    later: U256,
    other: Address,
    k: H256,
)
    ensures
        ({
            let noted = with_original(vm, address, key, value);
            let known = vm.originals.contains_key(address) && vm.originals[address].contains_key(
                key,
            );
            &&& known ==> original(vm, address, key, value) == vm.originals[address][key]
            &&& !known ==> original(vm, address, key, value) == value
            &&& original(noted, address, key, later) == original(vm, address, key, value)
            &&& other != address || k != key ==> original(noted, other, k, later) == original(
                vm,
                other,
                k,
                later,
            )
            &&& noted.db == vm.db
            &&& noted.frame == vm.frame
            &&& noted.substate == vm.substate
            &&& noted.observer == vm.observer
        }),
{
}

/// A slot is accessed for the first time exactly once.
pub proof fn law_second_access_is_warm(
    vm: VmView,
    address: Address,
    key: H256,
    other: Address,
    k: H256,
)
    ensures
        ({
            let noted = vm.substate.with_slot(address, key);
            &&& noted.slots_of(address).contains(key)
            &&& other != address || k != key ==> (noted.slots_of(other).contains(k)
                <==> vm.substate.slots_of(other).contains(k))
            &&& noted.addresses == vm.substate.addresses
            &&& vm.substate.with_address(address).addresses.contains(address)
            &&& other != address ==> (vm.substate.with_address(address).addresses.contains(other)
                <==> vm.substate.addresses.contains(other))
            &&& vm.substate.with_address(address).slots == vm.substate.slots
        }),
{
}

/// A backup that is put back gives every cached account that it holds the balance, the
/// nonce, the code hash and the flags that it had, and every slot that it holds its
/// value. Accounts and slots that are not backed up stay, and so does what the backup
/// does not speak of; the codes that came in go.
pub proof fn law_backup_brings_back(db: DbView, backup: BackupView, a: Address, k: H256, h: H256)
    ensures
        ({
            let after = restored(db, backup);
            let was = db.current[a];
            let now = after.current[a];
            &&& after.current.contains_key(a) <==> db.current.contains_key(a)
            &&& db.current.contains_key(a) && backup.infos.contains_key(a) ==> now.info.nonce
                == backup.infos[a].info.nonce && now.info.balance == backup.infos[a].info.balance
                && now.info.code_hash == backup.infos[a].info.code_hash && now.status
                == backup.infos[a].status && now.exists == backup.infos[a].exists
                && now.has_storage == backup.infos[a].has_storage
            &&& db.current.contains_key(a) && !backup.infos.contains_key(a) ==> now.info
                == was.info && now.status == was.status && now.exists == was.exists
                && now.has_storage == was.has_storage
            &&& db.current.contains_key(a) && backup.slots.contains_key(a)
                && backup.slots[a].contains_key(k) ==> now.storage.contains_key(k)
                && now.storage[k] == backup.slots[a][k]
            &&& db.current.contains_key(a) && !(backup.slots.contains_key(a)
                && backup.slots[a].contains_key(k)) ==> (now.storage.contains_key(k)
                <==> was.storage.contains_key(k)) && (was.storage.contains_key(k)
                ==> now.storage[k] == was.storage[k])
            &&& after.codes.contains_key(h) <==> db.codes.contains_key(h)
                && !backup.inserted_codes.contains(h)
            &&& after.codes.contains_key(h) ==> after.codes[h] == db.codes[h]
            &&& after.initial == db.initial
            &&& after.recorder == db.recorder
            &&& after.metadata == db.metadata
            &&& after.backup == db.backup
        }),
{
}

} // verus!
