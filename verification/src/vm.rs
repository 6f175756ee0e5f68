//! The virtual machine and its access to accounts and storage.

use crate::account::{copy_bytes, AccountInfo, AccountStatus, AccountView, Code, CodeView, LevmAccount};
use crate::backup::BackupView;
use crate::bal::{told, BalEvent, EventView};
use crate::database::Database;
use crate::error::{ErrorView, InternalError};
use crate::frame::{CallFrame, FrameView};
use crate::gas_cost::AccessCosts;
use crate::gen_db::{
    account_loaded, failure, load, slot_fetched, touched, AccountAnswer, DbView,
    GeneralizedDatabase, Stepped,
};
use crate::table::Table;
use crate::word::{two_256, word_of, Address, H256, U256};
use vstd::prelude::*;

verus! {

/// The block and the transaction that a program runs in.
pub struct Environment {
    pub origin: Address,
    pub gas_price: U256,
    pub block_number: u64,
    pub coinbase: Address,
    pub timestamp: u64,
    pub prev_randao: Option<H256>,
    pub block_gas_limit: u64,
    pub chain_id: U256,
    pub base_fee_per_gas: U256,
    pub base_blob_fee_per_gas: U256,
    pub slot_number: U256,
    pub tx_blob_hashes: Vec<H256>,
    /// What an access to an account costs under the fork in force.
    pub account_access: AccessCosts,
}

/// The addresses and slots that a transaction has accessed.
pub struct Substate {
    pub accessed_addresses: Table<Address, ()>,
    pub accessed_storage_slots: Table<Address, Table<H256, ()>>,
}

/// What a substate holds.
#[verifier::ext_equal]
pub struct SubstateView {
    pub addresses: Set<Address>,
    pub slots: Map<Address, Set<H256>>,
}

impl View for Substate {
    type V = SubstateView;

    open spec fn view(&self) -> SubstateView {
        SubstateView {
            addresses: self.accessed_addresses@.dom(),
            slots: Map::new(
                |a: Address| self.accessed_storage_slots@.contains_key(a),
                |a: Address| self.accessed_storage_slots@[a]@.dom(),
            ),
        }
    }
}

impl SubstateView {
    pub open spec fn slots_of(self, address: Address) -> Set<H256> {
        if self.slots.contains_key(address) {
            self.slots[address]
        } else {
            Set::empty()
        }
    }

    pub open spec fn with_address(self, address: Address) -> SubstateView {
        SubstateView { addresses: self.addresses.insert(address), ..self }
    }

    pub open spec fn with_slot(self, address: Address, key: H256) -> SubstateView {
        SubstateView {
            slots: self.slots.insert(address, self.slots_of(address).insert(key)),
            ..self
        }
    }
}

impl Substate {
    pub fn new() -> (s: Substate)
        ensures
            s@ == (SubstateView { addresses: Set::empty(), slots: Map::empty() }),
    {
        let s = Substate {
            accessed_addresses: Table::new(),
            accessed_storage_slots: Table::new(),
        };
        assert(s@ =~= (SubstateView { addresses: Set::empty(), slots: Map::empty() }));
        s
    }

    /// Notes an access to an account. Says whether it is the first.
    pub fn add_accessed_address(&mut self, address: Address) -> (cold: bool)
        ensures
            cold == !old(self)@.addresses.contains(address),
            final(self)@ == old(self)@.with_address(address),
    {
        let cold = !self.accessed_addresses.contains_key(address);
        self.accessed_addresses.insert(address, ());
        assert(self@ =~= old(self)@.with_address(address));
        cold
    }

    /// Notes an access to a slot. Says whether it is the first.
    pub fn add_accessed_slot(&mut self, address: Address, key: H256) -> (cold: bool)
        ensures
            cold == !old(self)@.slots_of(address).contains(key),
            final(self)@ == old(self)@.with_slot(address, key),
    {
        if !self.accessed_storage_slots.contains_key(address) {
            self.accessed_storage_slots.insert(address, Table::new());
        }
        let mut cold = true;
        match self.accessed_storage_slots.get_mut(address) {
            Some(slots) => {
                cold = !slots.contains_key(key);
                slots.insert(key, ());
            },
            None => {},
        }
        assert(self@ =~= old(self)@.with_slot(address, key));
        cold
    }
}

/// Watches the validation part of a frame transaction, where one is validated.
#[derive(Copy, Clone, PartialEq, Eq, Structural, Debug)]
pub struct ValidationObserver {
    pub active: bool,
    /// The sender of the transaction, whose own code may always be inspected.
    pub sender: Address,
}

/// A virtual machine in the middle of a transaction.
pub struct VM<D: Database> {
    pub db: GeneralizedDatabase<D>,
    pub current_call_frame: CallFrame,
    pub env: Environment,
    pub substate: Substate,
    /// The value that each accessed slot had when the transaction began.
    pub storage_original_values: Table<Address, Table<H256, U256>>,
    pub validation_observer: ValidationObserver,
}

/// What a virtual machine holds, besides its store and its environment.
#[verifier::ext_equal]
pub struct VmView {
    pub db: DbView,
    pub frame: FrameView,
    pub substate: SubstateView,
    pub originals: Map<Address, Map<H256, U256>>,
    pub observer: ValidationObserver,
}

impl<D: Database> View for VM<D> {
    type V = VmView;

    open spec fn view(&self) -> VmView {
        VmView {
            db: self.db@,
            frame: self.current_call_frame@,
            substate: self.substate@,
            originals: Map::new(
                |a: Address| self.storage_original_values@.contains_key(a),
                |a: Address| self.storage_original_values@[a]@,
            ),
            observer: self.validation_observer,
        }
    }
}

/// The machine after a backup.
pub open spec fn backed_up(vm: VmView, backup: BackupView) -> VmView {
    VmView { frame: FrameView { backup, ..vm.frame }, ..vm }
}

/// The machine after an account, which `loaded` holds, was opened for changes: it is
/// backed up as it was and then marked as modified.
pub open spec fn opened(vm: VmView, loaded: DbView, address: Address) -> VmView {
    VmView {
        db: DbView {
            current: loaded.current.insert(address, loaded.current[address].mark_modified()),
            ..loaded
        },
        ..backed_up(vm, vm.frame.backup.with_info(address, loaded.current[address]))
    }
}

/// The machine with another account in its cache.
pub open spec fn with_account(vm: VmView, address: Address, account: AccountView) -> VmView {
    VmView { db: DbView { current: vm.db.current.insert(address, account), ..vm.db }, ..vm }
}

/// Nothing changes where an account is replaced by itself.
proof fn lemma_same_account()
    ensures
        forall|vm: VmView, address: Address|
            vm.db.current.contains_key(address) ==> #[trigger] with_account(
                vm,
                address,
                vm.db.current[address],
            ) == vm,
{
    assert forall|vm: VmView, address: Address| vm.db.current.contains_key(address) implies
        #[trigger] with_account(vm, address, vm.db.current[address]) == vm by {
        assert(with_account(vm, address, vm.db.current[address]) =~= vm);
    }
}

/// A load finds an account where the last one left it.
pub proof fn law_load_is_idempotent<D: Database>(
    store: D,
    before: DbView,
    address: Address,
    after: DbView,
    again: DbView,
    error: Option<ErrorView>,
)
    requires
        account_loaded(store, before, address, after, None),
        after.current.contains_key(address),
        account_loaded(store, after, address, again, error),
    ensures
        again == after,
        error is None,
{
    let answer = choose|answer: AccountAnswer| #[trigger]
        crate::gen_db::account_answer(store, before, address, answer) && load(
            before,
            address,
            answer,
        ) == (Stepped { db: after, error: None });
    assert(touched(after, address) =~= after);
}

/// A cached account with another balance.
pub open spec fn balance_set(account: AccountView, balance: U256) -> AccountView {
    AccountView { info: AccountInfo { balance, ..account.info }, ..account }
}

/// The machine after the balance of an opened account was set, which the recorder is
/// told together with the one before.
pub open spec fn rebalanced(vm: VmView, address: Address, balance: U256) -> VmView {
    let account = vm.db.current[address];
    let changed = with_account(vm, address, balance_set(account, balance));
    VmView {
        db: DbView {
            recorder: told(
                told(
                    vm.db.recorder,
                    EventView::InitialBalance(address, account.info.balance),
                ),
                EventView::BalanceChange(address, balance),
            ),
            ..changed.db
        },
        ..changed
    }
}

/// What a change of a balance by `amount`, up or down, does once the account was
/// loaded: an amount that does not fit leaves the account opened.
pub open spec fn balance_outcome(
    before: VmView,
    loaded: DbView,
    error: Option<ErrorView>,
    address: Address,
    amount: U256,
    up: bool,
    after: VmView,
    r: Result<(), InternalError>,
) -> bool {
    match error {
        Some(_) => after == (VmView { db: loaded, ..before }) && failure(r) == error,
        None => {
            let open = opened(before, loaded, address);
            let balance = loaded.current[address].info.balance;
            if up && balance@ + amount@ >= two_256() {
                after == open && failure(r) == Some(ErrorView::Overflow)
            } else if !up && balance@ < amount@ {
                after == open && failure(r) == Some(ErrorView::Underflow)
            } else {
                let new = if up {
                    word_of((balance@ + amount@) as int)
                } else {
                    word_of(balance@ - amount@)
                };
                after == rebalanced(open, address, new) && r is Ok
            }
        },
    }
}

/// A change of a balance by `amount`, up or down, takes the machine from `before` to
/// `after` and gives `r`. No amount changes nothing.
pub open spec fn balance_moved<D: Database>(
    store: D,
    before: VmView,
    address: Address,
    amount: U256,
    up: bool,
    after: VmView,
    r: Result<(), InternalError>,
) -> bool {
    if amount@ == 0 {
        after == before && r is Ok
    } else {
        exists|loaded: DbView, error: Option<ErrorView>| #[trigger]
            account_loaded(store, before.db, address, loaded, error) && balance_outcome(
                before,
                loaded,
                error,
                address,
                amount,
                up,
                after,
                r,
            )
    }
}

/// A transfer takes the machine from `before` to `after` and gives `r`: what leaves
/// one account arrives at the other, unless one of the two steps fails.
pub open spec fn transferred<D: Database>(
    store: D,
    before: VmView,
    from: Address,
    to: Address,
    value: U256,
    after: VmView,
    r: Result<(), InternalError>,
) -> bool {
    exists|between: VmView, taken: Result<(), InternalError>| #[trigger]
        balance_moved(store, before, from, value, false, between, taken) && (match taken {
            Err(_) => after == between && r == taken,
            Ok(_) => balance_moved(store, between, to, value, true, after, r),
        })
}

/// What an increment of a nonce does once the account was loaded.
pub open spec fn nonce_outcome(
    before: VmView,
    loaded: DbView,
    error: Option<ErrorView>,
    address: Address,
    after: VmView,
    r: Result<u64, InternalError>,
) -> bool {
    match error {
        Some(_) => after == (VmView { db: loaded, ..before }) && failure(r) == error,
        None => {
            let open = opened(before, loaded, address);
            let account = open.db.current[address];
            if account.info.nonce == u64::MAX {
                after == open && failure(r) == Some(ErrorView::Overflow)
            } else {
                let nonce = (account.info.nonce + 1) as u64;
                let changed = with_account(
                    open,
                    address,
                    AccountView { info: AccountInfo { nonce, ..account.info }, ..account },
                );
                r == Ok::<u64, InternalError>(nonce) && after == (VmView {
                    db: DbView {
                        recorder: told(open.db.recorder, EventView::NonceChange(address, nonce)),
                        ..changed.db
                    },
                    ..changed
                })
            }
        },
    }
}

/// An increment of a nonce takes the machine from `before` to `after` and gives `r`.
pub open spec fn nonce_incremented<D: Database>(
    store: D,
    before: VmView,
    address: Address,
    after: VmView,
    r: Result<u64, InternalError>,
) -> bool {
    exists|loaded: DbView, error: Option<ErrorView>| #[trigger]
        account_loaded(store, before.db, address, loaded, error) && nonce_outcome(
            before,
            loaded,
            error,
            address,
            after,
            r,
        )
}

/// The code of an account that the cache knows, empty where it does not.
pub open spec fn known_code(db: DbView, address: Address) -> Seq<u8> {
    if db.current.contains_key(address) && db.codes.contains_key(
        db.current[address].info.code_hash,
    ) {
        db.codes[db.current[address].info.code_hash].bytecode
    } else {
        Seq::empty()
    }
}

/// The machine after the recorder was told that the code of an account changes.
pub open spec fn code_told(vm: VmView, address: Address, code: Seq<u8>) -> VmView {
    let known = known_code(vm.db, address);
    VmView {
        db: DbView {
            recorder: told(
                told(
                    told(
                        vm.db.recorder,
                        EventView::InitialCodePresence(address, known.len() > 0),
                    ),
                    EventView::InitialCode(address, known),
                ),
                EventView::CodeChange(address, code),
            ),
            ..vm.db
        },
        ..vm
    }
}

/// The machine after an opened account was given another code. A code that the cache
/// did not hold is put into it, and the backup notes that.
pub open spec fn recoded(vm: VmView, address: Address, code: CodeView) -> VmView {
    let account = vm.db.current[address];
    let changed = with_account(
        vm,
        address,
        AccountView {
            info: AccountInfo { code_hash: code.hash, ..account.info },
            ..account
        },
    );
    if vm.db.codes.contains_key(code.hash) {
        changed
    } else {
        VmView {
            db: DbView { codes: vm.db.codes.insert(code.hash, code), ..changed.db },
            ..backed_up(
                changed,
                BackupView {
                    inserted_codes: vm.frame.backup.inserted_codes.push(code.hash),
                    ..vm.frame.backup
                },
            )
        }
    }
}

/// What a change of an account's code does once the account was loaded.
pub open spec fn code_outcome(
    told: VmView,
    loaded: DbView,
    error: Option<ErrorView>,
    address: Address,
    code: CodeView,
    after: VmView,
    r: Result<(), InternalError>,
) -> bool {
    failure(r) == error && (match error {
        Some(_) => after == (VmView { db: loaded, ..told }),
        None => after == recoded(opened(told, loaded, address), address, code),
    })
}

/// A change of an account's code takes the machine from `before` to `after` and gives
/// `r`.
pub open spec fn code_updated<D: Database>(
    store: D,
    before: VmView,
    address: Address,
    code: CodeView,
    after: VmView,
    r: Result<(), InternalError>,
) -> bool {
    let told = code_told(before, address, code.bytecode);
    exists|loaded: DbView, error: Option<ErrorView>| #[trigger]
        account_loaded(store, told.db, address, loaded, error) && code_outcome(
            told,
            loaded,
            error,
            address,
            code,
            after,
            r,
        )
}

/// A read of a slot takes the database from `before` to `after` and gives `r`. The
/// cached account comes first, then the block access list, the baseline and the store;
/// what was found is cached. A slot that a destroyed account that came back did not
/// write is zero.
pub open spec fn storage_read<D: Database>(
    store: D,
    before: DbView,
    address: Address,
    key: H256,
    after: DbView,
    r: Result<U256, InternalError>,
) -> bool {
    if !before.current.contains_key(address) {
        after == before && failure(r) == Some(ErrorView::AccountNotFound)
    } else {
        match known_slot(before, address, key) {
            Some((value, cached)) => r == Ok::<U256, InternalError>(value) && after == if cached {
                before
            } else {
                before.with_cached_slot(address, key, value)
            },
            None => exists|fetched: DbView, said: Result<U256, InternalError>| #[trigger]
                slot_fetched(store, before, address, key, fetched, said) && r == said && after
                    == match said {
                    Ok(value) => fetched.with_cached_slot(address, key, value),
                    Err(_) => fetched,
                },
        }
    }
}

/// The value of a slot of a cached account that can be told without the store, and
/// whether it is cached already.
pub open spec fn known_slot(db: DbView, address: Address, key: H256) -> Option<(U256, bool)> {
    let account = db.current[address];
    if account.storage.contains_key(key) {
        Some((account.storage[key], true))
    } else if account.status == AccountStatus::DestroyedModified {
        Some((U256 { hi: 0, lo: 0 }, false))
    } else if db.lazy is Some && db.lazy->0.slot(address, key) is Some {
        Some((db.lazy->0.slot(address, key)->0, false))
    } else if db.initial.contains_key(address) && db.initial[address].storage.contains_key(key) {
        Some((db.initial[address].storage[key], false))
    } else {
        None
    }
}

/// The value that a slot had when the transaction began, which is `value` where it was
/// not accessed before.
pub open spec fn original(vm: VmView, address: Address, key: H256, value: U256) -> U256 {
    if vm.originals.contains_key(address) && vm.originals[address].contains_key(key) {
        vm.originals[address][key]
    } else {
        value
    }
}

/// The machine after the value that a slot had when the transaction began was noted.
pub open spec fn with_original(vm: VmView, address: Address, key: H256, value: U256) -> VmView {
    let slots = if vm.originals.contains_key(address) {
        vm.originals[address]
    } else {
        Map::empty()
    };
    VmView {
        originals: vm.originals.insert(
            address,
            slots.insert(key, original(vm, address, key, value)),
        ),
        ..vm
    }
}

/// The machine after the recorder was told of a write to a slot: a write that leaves
/// the value as it is counts as a read.
pub open spec fn write_told(
    vm: VmView,
    address: Address,
    slot: U256,
    new: U256,
    current: U256,
) -> VmView {
    VmView {
        db: DbView {
            recorder: if new != current {
                told(
                    told(vm.db.recorder, EventView::PreStorage(address, slot, current)),
                    EventView::StorageWrite(address, slot, new),
                )
            } else {
                told(vm.db.recorder, EventView::StorageRead(address, slot))
            },
            ..vm.db
        },
        ..vm
    }
}

/// What a write to a slot does once the account was loaded.
pub open spec fn write_outcome(
    told: VmView,
    loaded: DbView,
    error: Option<ErrorView>,
    address: Address,
    key: H256,
    new: U256,
    after: VmView,
    r: Result<(), InternalError>,
) -> bool {
    failure(r) == error && (match error {
        Some(_) => after == (VmView { db: loaded, ..told }),
        None => {
            let open = opened(told, loaded, address);
            after == (VmView { db: open.db.with_cached_slot(address, key, new), ..open })
        },
    })
}

/// A write to a slot takes the machine from `before` to `after` and gives `r`.
pub open spec fn storage_written<D: Database>(
    store: D,
    before: VmView,
    address: Address,
    key: H256,
    slot: U256,
    new: U256,
    current: U256,
    after: VmView,
    r: Result<(), InternalError>,
) -> bool {
    let told = write_told(
        backed_up(before, before.frame.backup.with_slot(address, key, current)),
        address,
        slot,
        new,
        current,
    );
    exists|loaded: DbView, error: Option<ErrorView>| #[trigger]
        account_loaded(store, told.db, address, loaded, error) && write_outcome(
            told,
            loaded,
            error,
            address,
            key,
            new,
            after,
            r,
        )
}

impl<D: Database> VM<D> {
    /// Gets an account to be changed. It is backed up as it was and marked as modified.
    pub fn get_account_mut(&mut self, address: Address) -> (r: Result<
        &mut LevmAccount,
        InternalError,
    >)
        ensures
            final(self).env == old(self).env,
            final(self).db.store == old(self).db.store,
            exists|loaded: DbView| #[trigger]
                account_loaded(old(self).db.store, old(self)@.db, address, loaded, failure(r)) && (
                match r {
                    Ok(account) => {
                        let open = opened(old(self)@, loaded, address);
                        &&& loaded.current.contains_key(address)
                        &&& account@ == open.db.current[address]
                        &&& final(self)@ =~= with_account(open, address, (*final(account))@)
                    },
                    Err(_) => final(self)@ =~= (VmView { db: loaded, ..old(self)@ }),
                }),
    {
        let ghost store = self.db.store;
        let ghost before = self.db@;
        match self.db.get_account(address) {
            Ok(account) => {
                self.current_call_frame.call_frame_backup.backup_account_info(address, account);
            },
            Err(e) => {
                return Err(e);
            },
        }
        let ghost loaded = self.db@;
        proof {
            assert(account_loaded(store, before, address, loaded, None));
            assert forall|again: DbView, error: Option<ErrorView>| #[trigger]
                account_loaded(store, loaded, address, again, error) implies again == loaded
                && error is None by {
                law_load_is_idempotent(store, before, address, loaded, again, error);
            }
        }
        self.db.get_account_mut(address)
    }

    /// Adds to the balance of an account.
    pub fn increase_account_balance(&mut self, address: Address, increase: U256) -> (r: Result<
        (),
        InternalError,
    >)
        ensures
            final(self).env == old(self).env,
            final(self).db.store == old(self).db.store,
            balance_moved(
                old(self).db.store,
                old(self)@,
                address,
                increase,
                true,
                final(self)@,
                r,
            ),
    {
        if increase.is_zero() {
            return Ok(());
        }
        let account = match self.get_account_mut(address) {
            Ok(account) => account,
            Err(e) => {
                return Err(e);
            },
        };
        let initial_balance = account.info.balance;
        let new_balance = match initial_balance.checked_add(increase) {
            Some(sum) => sum,
            None => {
                proof {
                    lemma_same_account();
                }
                return Err(InternalError::Overflow);
            },
        };
        account.info.balance = new_balance;
        self.db.record(BalEvent::InitialBalance(address, initial_balance));
        self.db.record(BalEvent::BalanceChange(address, new_balance));
        Ok(())
    }

    /// Takes from the balance of an account.
    pub fn decrease_account_balance(&mut self, address: Address, decrease: U256) -> (r: Result<
        (),
        InternalError,
    >)
        ensures
            final(self).env == old(self).env,
            final(self).db.store == old(self).db.store,
            balance_moved(
                old(self).db.store,
                old(self)@,
                address,
                decrease,
                false,
                final(self)@,
                r,
            ),
    {
        if decrease.is_zero() {
            return Ok(());
        }
        let account = match self.get_account_mut(address) {
            Ok(account) => account,
            Err(e) => {
                return Err(e);
            },
        };
        let initial_balance = account.info.balance;
        let new_balance = match initial_balance.checked_sub(decrease) {
            Some(difference) => difference,
            None => {
                proof {
                    lemma_same_account();
                }
                return Err(InternalError::Underflow);
            },
        };
        account.info.balance = new_balance;
        self.db.record(BalEvent::InitialBalance(address, initial_balance));
        self.db.record(BalEvent::BalanceChange(address, new_balance));
        Ok(())
    }

    /// Moves `value` from one account to another.
    pub fn transfer(&mut self, from: Address, to: Address, value: U256) -> (r: Result<
        (),
        InternalError,
    >)
        ensures
            final(self).env == old(self).env,
            final(self).db.store == old(self).db.store,
            transferred(old(self).db.store, old(self)@, from, to, value, final(self)@, r),
    {
        if !value.is_zero() {
            match self.decrease_account_balance(from, value) {
                Ok(_) => {},
                Err(e) => {
                    return Err(e);
                },
            }
            return self.increase_account_balance(to, value);
        }
        assert(balance_moved(self.db.store, self@, from, value, false, self@, Ok(())));
        Ok(())
    }

    /// Increments the nonce of an account and gives the new one.
    pub fn increment_account_nonce(&mut self, address: Address) -> (r: Result<u64, InternalError>)
        ensures
            final(self).env == old(self).env,
            final(self).db.store == old(self).db.store,
            nonce_incremented(old(self).db.store, old(self)@, address, final(self)@, r),
    {
        let account = match self.get_account_mut(address) {
            Ok(account) => account,
            Err(e) => {
                return Err(e);
            },
        };
        let new_nonce: u64 = match account.info.nonce.checked_add(1) {
            Some(nonce) => nonce,
            None => {
                proof {
                    lemma_same_account();
                }
                return Err(InternalError::Overflow);
            },
        };
        account.info.nonce = new_nonce;
        self.db.record(BalEvent::NonceChange(address, new_nonce));
        Ok(new_nonce)
    }

    /// Gives an account another code.
    pub fn update_account_bytecode(&mut self, address: Address, new_bytecode: Code) -> (r: Result<
        (),
        InternalError,
    >)
        ensures
            final(self).env == old(self).env,
            final(self).db.store == old(self).db.store,
            code_updated(
                old(self).db.store,
                old(self)@,
                address,
                new_bytecode@,
                final(self)@,
                r,
            ),
    {
        if self.db.bal_recorder.is_some() {
            let known: Vec<u8> = match self.db.current_accounts_state.get(address) {
                Some(account) => match self.db.codes.get(account.info.code_hash) {
                    Some(code) => copy_bytes(code.bytecode.as_slice()),
                    None => Vec::new(),
                },
                None => Vec::new(),
            };
            self.db.record(BalEvent::InitialCodePresence(address, known.len() > 0));
            self.db.record(BalEvent::InitialCode(address, known));
            self.db.record(
                BalEvent::CodeChange(address, copy_bytes(new_bytecode.bytecode.as_slice())),
            );
        }
        assert(self@ =~= code_told(old(self)@, address, new_bytecode@.bytecode));
        let account = match self.get_account_mut(address) {
            Ok(account) => account,
            Err(e) => {
                return Err(e);
            },
        };
        let code_hash = new_bytecode.hash;
        account.info.code_hash = code_hash;
        let ghost recoded_only = self@;
        if !self.db.codes.contains_key(code_hash) {
            self.db.codes.insert(code_hash, new_bytecode);
            self.current_call_frame.call_frame_backup.inserted_code_hashes.push(code_hash);
            assert(self@.db.codes =~= recoded_only.db.codes.insert(code_hash, new_bytecode@));
        }
        Ok(())
    }

    /// Reads a slot of an account that must be cached, and caches its value.
    pub fn get_storage_value(&mut self, address: Address, key: H256) -> (r: Result<
        U256,
        InternalError,
    >)
        ensures
            final(self).env == old(self).env,
            final(self).db.store == old(self).db.store,
            final(self)@ == (VmView { db: final(self)@.db, ..old(self)@ }),
            storage_read(old(self).db.store, old(self)@.db, address, key, final(self)@.db, r),
    {
        let came_back = match self.db.current_accounts_state.get(address) {
            Some(account) => {
                match account.storage.get(key) {
                    Some(value) => {
                        return Ok(*value);
                    },
                    None => {},
                }
                account.status == AccountStatus::DestroyedModified
            },
            None => {
                return Err(InternalError::AccountNotFound);
            },
        };
        let hit: Option<U256> = if came_back {
            Some(U256::zero())
        } else {
            match &self.db.lazy_bal {
                Some(cursor) => cursor.storage_hit(address, key),
                None => None,
            }
        };
        let known: Option<U256> = match hit {
            Some(value) => Some(value),
            None => match self.db.initial_accounts_state.get(address) {
                Some(account) => match account.storage.get(key) {
                    Some(value) => Some(*value),
                    None => None,
                },
                None => None,
            },
        };
        let value = match known {
            Some(value) => value,
            None => match self.db.get_value_from_database(address, key) {
                Ok(value) => value,
                Err(e) => {
                    return Err(e);
                },
            },
        };
        let ghost fetched = self@.db;
        match self.db.current_accounts_state.get_mut(address) {
            Some(account) => {
                account.storage.insert(key, value);
            },
            None => {
                return Err(InternalError::AccountNotFound);
            },
        }
        assert(self@.db =~= fetched.with_cached_slot(address, key, value));
        Ok(value)
    }

    /// Reads a slot for a write to it: gives its value, the value that it had when the
    /// transaction began and whether it was accessed for the first time.
    pub fn access_storage_slot_for_sstore(&mut self, address: Address, key: H256) -> (r: Result<
        (U256, U256, bool),
        InternalError,
    >)
        ensures
            final(self).env == old(self).env,
            final(self).db.store == old(self).db.store,
            ({
                let noted = VmView {
                    substate: old(self)@.substate.with_slot(address, key),
                    ..old(self)@
                };
                exists|db: DbView, said: Result<U256, InternalError>| #[trigger]
                    storage_read(old(self).db.store, old(self)@.db, address, key, db, said) && (
                    match said {
                        Err(_) => failure(r) == failure(said) && final(self)@ == (VmView {
                            db,
                            ..noted
                        }),
                        Ok(value) => r == Ok::<(U256, U256, bool), InternalError>(
                            (
                                value,
                                original(old(self)@, address, key, value),
                                !old(self)@.substate.slots_of(address).contains(key),
                            ),
                        ) && final(self)@ == with_original(
                            VmView { db, ..noted },
                            address,
                            key,
                            value,
                        ),
                    })
            }),
    {
        let cold = self.substate.add_accessed_slot(address, key);
        let value = match self.get_storage_value(address, key) {
            Ok(value) => value,
            Err(e) => {
                return Err(e);
            },
        };
        let ghost read = self@;
        if !self.storage_original_values.contains_key(address) {
            self.storage_original_values.insert(address, Table::new());
        }
        let mut original_value = value;
        match self.storage_original_values.get_mut(address) {
            Some(slots) => match slots.get(key) {
                Some(noted) => {
                    original_value = *noted;
                },
                None => {
                    slots.insert(key, value);
                },
            },
            None => {},
        }
        proof {
            let noted = with_original(read, address, key, value);
            assert(self@.originals[address] =~= noted.originals[address]);
            assert(self@ =~= noted);
        }
        Ok((value, original_value, cold))
    }

    /// Tells the recorder of a read of a slot, once it is paid for.
    pub fn record_storage_slot_to_bal(&mut self, address: Address, key: U256)
        ensures
            final(self).env == old(self).env,
            final(self).db.store == old(self).db.store,
            final(self)@ == (VmView {
                db: DbView {
                    recorder: told(old(self)@.db.recorder, EventView::StorageRead(address, key)),
                    ..old(self)@.db
                },
                ..old(self)@
            }),
    {
        self.db.record(BalEvent::StorageRead(address, key));
    }

    /// Writes a slot, whose value was `current_value`.
    pub fn update_account_storage(
        &mut self,
        address: Address,
        key: H256,
        slot_key: U256,
        new_value: U256,
        current_value: U256,
    ) -> (r: Result<(), InternalError>)
        ensures
            final(self).env == old(self).env,
            final(self).db.store == old(self).db.store,
            storage_written(
                old(self).db.store,
                old(self)@,
                address,
                key,
                slot_key,
                new_value,
                current_value,
                final(self)@,
                r,
            ),
    {
        self.backup_storage_slot(address, key, current_value);
        if new_value != current_value {
            self.db.record(BalEvent::PreStorage(address, slot_key, current_value));
            self.db.record(BalEvent::StorageWrite(address, slot_key, new_value));
        } else {
            self.db.record(BalEvent::StorageRead(address, slot_key));
        }
        let account = match self.get_account_mut(address) {
            Ok(account) => account,
            Err(e) => {
                return Err(e);
            },
        };
        account.storage.insert(key, new_value);
        Ok(())
    }

    /// Backs the value of a slot up, unless that was done before.
    pub fn backup_storage_slot(&mut self, address: Address, key: H256, current_value: U256)
        ensures
            final(self).env == old(self).env,
            final(self).db.store == old(self).db.store,
            final(self)@ == backed_up(
                old(self)@,
                old(self)@.frame.backup.with_slot(address, key, current_value),
            ),
    {
        self.current_call_frame.call_frame_backup.backup_slot(address, key, current_value);
    }
}

} // verus!
