//! What a call frame has changed, and how a revert takes it back.

use crate::account::{accounts_view, AccountView, CacheDB, LevmAccount};
use crate::database::Database;
use crate::error::{ErrorView, InternalError, VMError};
use crate::gen_db::{DbView, GeneralizedDatabase};
use crate::table::{lemma_walk, lemma_walk_end, Duplicate, Table};
use crate::word::{Address, H256, U256};
use vstd::prelude::*;

verus! {

/// The accounts and storage slots that a call frame has changed, as they were before.
pub struct CallFrameBackup {
    /// Accounts without their storage.
    pub original_accounts_info: CacheDB,
    pub original_account_storage_slots: Table<Address, Table<H256, U256>>,
    /// The hashes of the codes that were put into the cache.
    pub inserted_code_hashes: Vec<H256>,
}

/// What a backup holds.
#[verifier::ext_equal]
pub struct BackupView {
    pub infos: Map<Address, AccountView>,
    pub slots: Map<Address, Map<H256, U256>>,
    pub inserted_codes: Seq<H256>,
}

/// What a table of storage slots holds.
pub open spec fn slots_view(slots: Map<Address, Table<H256, U256>>) -> Map<
    Address,
    Map<H256, U256>,
> {
    Map::new(|a: Address| slots.contains_key(a), |a: Address| slots[a]@)
}

impl View for CallFrameBackup {
    type V = BackupView;

    open spec fn view(&self) -> BackupView {
        BackupView {
            infos: accounts_view(self.original_accounts_info@),
            slots: slots_view(self.original_account_storage_slots@),
            inserted_codes: self.inserted_code_hashes@,
        }
    }
}

impl BackupView {
    pub open spec fn blank() -> BackupView {
        BackupView { infos: Map::empty(), slots: Map::empty(), inserted_codes: Seq::empty() }
    }

    /// The backup with `account`, unless one was backed up under its address before.
    pub open spec fn with_info(self, address: Address, account: AccountView) -> BackupView {
        if self.infos.contains_key(address) {
            self
        } else {
            BackupView { infos: self.infos.insert(address, account.without_storage()), ..self }
        }
    }

    /// The slots that are backed up of an account.
    pub open spec fn slots_of(self, address: Address) -> Map<H256, U256> {
        if self.slots.contains_key(address) {
            self.slots[address]
        } else {
            Map::empty()
        }
    }

    /// The backup with the value of a slot, unless one was backed up before.
    pub open spec fn with_slot(self, address: Address, key: H256, value: U256) -> BackupView {
        let slots = self.slots_of(address);
        BackupView {
            slots: self.slots.insert(
                address,
                if slots.contains_key(key) {
                    slots
                } else {
                    slots.insert(key, value)
                },
            ),
            ..self
        }
    }
}

impl CallFrameBackup {
    pub fn new() -> (b: CallFrameBackup)
        ensures
            b@ == BackupView::blank(),
    {
        let b = CallFrameBackup {
            original_accounts_info: Table::new(),
            original_account_storage_slots: Table::new(),
            inserted_code_hashes: Vec::new(),
        };
        assert(b@ =~= BackupView::blank());
        b
    }

    /// Backs an account up, unless that was done before.
    pub fn backup_account_info(&mut self, address: Address, account: &LevmAccount)
        ensures
            final(self)@ == old(self)@.with_info(address, account@),
    {
        if !self.original_accounts_info.contains_key(address) {
            self.original_accounts_info.insert(address, account.clone_without_storage());
        }
        assert(self@ =~= old(self)@.with_info(address, account@));
    }

    /// Backs the value of a slot up, unless that was done before.
    pub fn backup_slot(&mut self, address: Address, key: H256, value: U256)
        ensures
            final(self)@ == old(self)@.with_slot(address, key, value),
    {
        if !self.original_account_storage_slots.contains_key(address) {
            self.original_account_storage_slots.insert(address, Table::new());
        }
        match self.original_account_storage_slots.get_mut(address) {
            Some(slots) => {
                if !slots.contains_key(key) {
                    slots.insert(key, value);
                }
            },
            None => {},
        }
        assert(self@ =~= old(self)@.with_slot(address, key, value));
    }
}

impl Duplicate for CallFrameBackup {
    fn duplicate(&self) -> (b: CallFrameBackup) {
        let mut hashes: Vec<H256> = Vec::new();
        let mut i: usize = 0;
        while i < self.inserted_code_hashes.len()
            invariant
                i <= self.inserted_code_hashes@.len(),
                hashes@ == self.inserted_code_hashes@.take(i as int),
            decreases self.inserted_code_hashes@.len() - i,
        {
            hashes.push(self.inserted_code_hashes[i]);
            i += 1;
            assert(self.inserted_code_hashes@.take(i as int)
                =~= self.inserted_code_hashes@.take(i - 1).push(
                self.inserted_code_hashes@[i - 1],
            ));
        }
        assert(self.inserted_code_hashes@.take(i as int) =~= self.inserted_code_hashes@);
        let b = CallFrameBackup {
            original_accounts_info: self.original_accounts_info.duplicate_entries(),
            original_account_storage_slots: self.original_account_storage_slots.duplicate_entries(),
            inserted_code_hashes: hashes,
        };
        assert(b@ =~= self@) by {
            assert forall|a: Address| b@.infos.contains_key(a) <==> self@.infos.contains_key(a) by {
                assert(b.original_accounts_info@.dom().contains(a)
                    <==> self.original_accounts_info@.dom().contains(a));
            }
            assert forall|a: Address| b@.slots.contains_key(a) <==> self@.slots.contains_key(a) by {
                assert(b.original_account_storage_slots@.dom().contains(a)
                    <==> self.original_account_storage_slots@.dom().contains(a));
            }
        }
        b
    }
}

/// A cached account after the backed-up fields, all but its storage, were put back.
pub open spec fn info_restored(account: AccountView, backup: BackupView, address: Address) -> AccountView {
    if backup.infos.contains_key(address) {
        AccountView { storage: account.storage, ..backup.infos[address] }
    } else {
        account
    }
}

/// A cached account after its backed-up slots were put back.
pub open spec fn slots_restored(
    account: AccountView,
    backup: BackupView,
    address: Address,
) -> AccountView {
    AccountView {
        storage: account.storage.union_prefer_right(backup.slots_of(address)),
        ..account
    }
}

/// A cached account after everything that is backed up of it was put back.
pub open spec fn account_restored(
    account: AccountView,
    backup: BackupView,
    address: Address,
) -> AccountView {
    slots_restored(info_restored(account, backup, address), backup, address)
}

/// Cached accounts after the backed-up fields, all but the storage, were put back.
pub open spec fn infos_restored(
    current: Map<Address, AccountView>,
    backup: BackupView,
) -> Map<Address, AccountView> {
    Map::new(
        |a: Address| current.contains_key(a),
        |a: Address| info_restored(current[a], backup, a),
    )
}

/// Codes without those that were put into the cache.
pub open spec fn codes_restored<V>(codes: Map<H256, V>, inserted: Seq<H256>) -> Map<H256, V> {
    Map::new(|h: H256| codes.contains_key(h) && !inserted.contains(h), |h: H256| codes[h])
}

/// The database after a backup was put back: every cached account that is backed up
/// has its fields and its slots again, and every code that was put into the cache is
/// gone.
pub open spec fn restored(db: DbView, backup: BackupView) -> DbView {
    DbView {
        current: Map::new(
            |a: Address| db.current.contains_key(a),
            |a: Address| account_restored(db.current[a], backup, a),
        ),
        codes: codes_restored(db.codes, backup.inserted_codes),
        ..db
    }
}

/// Every account with backed-up slots is cached.
pub open spec fn slots_cached(db: DbView, backup: BackupView) -> bool {
    forall|a: Address| #[trigger] backup.slots.contains_key(a) ==> db.current.contains_key(a)
}

/// What a failed restore leaves behind: every backed-up field is back, and of each
/// account either all of its backed-up slots or none. Nothing else has changed.
pub open spec fn partly_restored(before: DbView, after: DbView, backup: BackupView) -> bool {
    &&& after == (DbView { current: after.current, ..before })
    &&& after.current.dom() =~= before.current.dom()
    &&& forall|a: Address| #[trigger]
        after.current.contains_key(a) ==> after.current[a] == info_restored(
            before.current[a],
            backup,
            a,
        ) || after.current[a] == account_restored(before.current[a], backup, a)
}

/// What is said where no transaction was backed up.
pub open spec fn no_backup() -> ErrorView {
    ErrorView::Custom("Transaction backup not found. Was BackupHook enabled?"@)
}

impl<D: Database> GeneralizedDatabase<D> {
    fn restore_infos(&mut self, backup: &CallFrameBackup)
        ensures
            final(self).store == old(self).store,
            final(self)@ == (DbView {
                current: infos_restored(old(self)@.current, backup@),
                ..old(self)@
            }),
    {
        let keys = backup.original_accounts_info.keys();
        let mut i: usize = 0;
        while i < keys.len()
            invariant
                i <= keys@.len(),
                keys@.no_duplicates(),
                keys@.to_set() == backup@.infos.dom(),
                forall|j: int|
                    0 <= j < keys@.len() ==> backup@.infos.contains_key(#[trigger] keys@[j]),
                self.store == old(self).store,
                self@ =~= (DbView { current: self@.current, ..old(self)@ }),
                self@.current.dom() =~= old(self)@.current.dom(),
                forall|a: Address| #[trigger]
                    self@.current.contains_key(a) ==> self@.current[a] == if keys@.take(
                        i as int,
                    ).contains(a) {
                        info_restored(old(self)@.current[a], backup@, a)
                    } else {
                        old(self)@.current[a]
                    },
            decreases keys@.len() - i,
        {
            let address = keys[i];
            let ghost before = self@.current;
            assert(backup@.infos.contains_key(keys@[i as int]));
            match backup.original_accounts_info.get(address) {
                Some(saved) => match self.current_accounts_state.get_mut(address) {
                    Some(account) => {
                        account.info = saved.info;
                        account.status = saved.status;
                        account.has_storage = saved.has_storage;
                        account.exists = saved.exists;
                    },
                    None => {},
                },
                None => {},
            }
            let ghost at = i as int;
            i += 1;
            proof {
                lemma_walk(keys@, at, i as int);
                assert forall|a: Address| #[trigger]
                    self@.current.contains_key(a) implies self@.current[a] == if keys@.take(
                    i as int,
                ).contains(a) {
                    info_restored(old(self)@.current[a], backup@, a)
                } else {
                    old(self)@.current[a]
                } by {
                    assert(before.contains_key(a));
                }
            }
        }
        proof {
            lemma_walk_end(keys@, backup@.infos.dom());
        }
        assert(self@.current =~= infos_restored(old(self)@.current, backup@));
    }

    fn restore_slots(&mut self, backup: &CallFrameBackup) -> (r: Result<(), InternalError>)
        ensures
            final(self).store == old(self).store,
            r is Ok <==> slots_cached(old(self)@, backup@),
            r matches Err(e) ==> e == InternalError::AccountNotFound,
            final(self)@ == (DbView { current: final(self)@.current, ..old(self)@ }),
            final(self)@.current.dom() == old(self)@.current.dom(),
            forall|a: Address| #[trigger]
                final(self)@.current.contains_key(a) ==> final(self)@.current[a] == old(self)@.current[a] || final(self)@.current[a] == slots_restored(
                    old(self)@.current[a],
                    backup@,
                    a,
                ),
            r is Ok ==> forall|a: Address| #[trigger]
                final(self)@.current.contains_key(a) ==> final(self)@.current[a]
                    == slots_restored(old(self)@.current[a], backup@, a),
    {
        let keys = backup.original_account_storage_slots.keys();
        let mut i: usize = 0;
        while i < keys.len()
            invariant
                i <= keys@.len(),
                keys@.no_duplicates(),
                keys@.to_set() == backup@.slots.dom(),
                forall|j: int|
                    0 <= j < keys@.len() ==> backup@.slots.contains_key(#[trigger] keys@[j]),
                self.store == old(self).store,
                self@ =~= (DbView { current: self@.current, ..old(self)@ }),
                self@.current.dom() =~= old(self)@.current.dom(),
                forall|a: Address| #[trigger]
                    keys@.take(i as int).contains(a) ==> old(self)@.current.contains_key(a),
                forall|a: Address| #[trigger]
                    self@.current.contains_key(a) ==> self@.current[a] == if keys@.take(
                        i as int,
                    ).contains(a) {
                        slots_restored(old(self)@.current[a], backup@, a)
                    } else {
                        old(self)@.current[a]
                    },
            decreases keys@.len() - i,
        {
            let address = keys[i];
            let ghost before = self@.current;
            assert(backup@.slots.contains_key(keys@[i as int]));
            let ghost at = i as int;
            proof {
                lemma_walk(keys@, at, at + 1);
            }
            match backup.original_account_storage_slots.get(address) {
                Some(saved) => match self.current_accounts_state.get_mut(address) {
                    Some(account) => {
                        account.storage.extend_from(saved);
                    },
                    None => {
                        assert(!old(self)@.current.dom().contains(address));
                        return Err(InternalError::AccountNotFound);
                    },
                },
                None => {},
            }
            assert(before.dom().contains(address) == old(self)@.current.dom().contains(address));
            i += 1;
            proof {
                assert forall|a: Address| #[trigger]
                    self@.current.contains_key(a) implies self@.current[a] == if keys@.take(
                    i as int,
                ).contains(a) {
                    slots_restored(old(self)@.current[a], backup@, a)
                } else {
                    old(self)@.current[a]
                } by {
                    assert(before.contains_key(a));
                }
            }
        }
        proof {
            lemma_walk_end(keys@, backup@.slots.dom());
            assert(keys@.take(i as int) =~= keys@.take(keys@.len() as int));
            assert forall|a: Address| #[trigger]
                backup@.slots.contains_key(a) implies old(self)@.current.contains_key(a) by {
                assert(keys@.take(i as int).contains(a));
            }
            assert forall|a: Address| #[trigger] self@.current.contains_key(a) implies self@.current[a]
                == slots_restored(old(self)@.current[a], backup@, a) by {
                if !backup@.slots.contains_key(a) {
                    assert(old(self)@.current[a].storage.union_prefer_right(Map::empty())
                        =~= old(self)@.current[a].storage);
                }
            }
        }
        Ok(())
    }

    fn evict_codes(&mut self, hashes: &Vec<H256>)
        ensures
            final(self).store == old(self).store,
            final(self)@ == (DbView {
                codes: codes_restored(old(self)@.codes, hashes@),
                ..old(self)@
            }),
    {
        let mut i: usize = 0;
        while i < hashes.len()
            invariant
                i <= hashes@.len(),
                self.store == old(self).store,
                self@ =~= (DbView {
                    codes: codes_restored(old(self)@.codes, hashes@.take(i as int)),
                    ..old(self)@
                }),
            decreases hashes@.len() - i,
        {
            let hash = hashes[i];
            let ghost before = self@.codes;
            let ghost at = i as int;
            let _ = self.codes.remove(hash);
            i += 1;
            proof {
                let done = hashes@.take(i as int);
                let was = hashes@.take(at);
                assert forall|h: H256| #[trigger]
                    done.contains(h) == (was.contains(h) || h == hash) by {
                    if was.contains(h) {
                        assert(done[was.index_of(h)] == h);
                    }
                    if h == hash {
                        assert(done[at] == h);
                    }
                    if done.contains(h) {
                        let j = done.index_of(h);
                        if j < at {
                            assert(was[j] == h);
                        }
                    }
                }
                assert(self@.codes =~= before.remove(hash));
                assert(self@.codes =~= codes_restored(old(self)@.codes, done));
            }
        }
        assert(hashes@.take(i as int) =~= hashes@);
    }

    /// Puts a backup back. Fails where an account whose slots are backed up is not
    /// cached; which of the other slots are back by then is left open.
    pub fn restore_cache_state(&mut self, backup: &CallFrameBackup) -> (r: Result<
        (),
        InternalError,
    >)
        ensures
            final(self).store == old(self).store,
            r is Ok <==> slots_cached(old(self)@, backup@),
            r is Ok ==> final(self)@ == restored(old(self)@, backup@),
            r matches Err(e) ==> e == InternalError::AccountNotFound,
            r is Err ==> partly_restored(old(self)@, final(self)@, backup@),
    {
        self.restore_infos(backup);
        let ghost mid = self@;
        match self.restore_slots(backup) {
            Ok(_) => {
                assert forall|a: Address| #[trigger] self@.current.contains_key(a) implies self@.current[a]
                    == account_restored(old(self)@.current[a], backup@, a) by {
                    assert(mid.current.contains_key(a));
                }
                self.evict_codes(&backup.inserted_code_hashes);
                assert(self@ =~= restored(old(self)@, backup@));
                Ok(())
            },
            Err(e) => {
                assert forall|a: Address| #[trigger]
                    self@.current.contains_key(a) implies self@.current[a] == info_restored(
                    old(self)@.current[a],
                    backup@,
                    a,
                ) || self@.current[a] == account_restored(old(self)@.current[a], backup@, a) by {
                    assert(mid.current.contains_key(a));
                }
                Err(e)
            },
        }
    }

    /// The backup of the last transaction, where one was taken.
    pub fn get_tx_backup(&self) -> (r: Result<CallFrameBackup, InternalError>)
        ensures
            match r {
                Ok(backup) => self@.backup == Some(backup@),
                Err(e) => self@.backup is None && e@ == no_backup(),
            },
    {
        match &self.tx_backup {
            Some(backup) => Ok(backup.duplicate()),
            None => Err(
                InternalError::msg("Transaction backup not found. Was BackupHook enabled?"),
            ),
        }
    }

    /// Takes the last transaction back: the cache is as it was before it.
    pub fn undo_last_transaction(&mut self) -> (r: Result<(), VMError>)
        ensures
            final(self).store == old(self).store,
            match old(self)@.backup {
                None => (r matches Err(VMError::Internal(e)) && e@ == no_backup())
                    && final(self)@ == old(self)@,
                Some(backup) => {
                    &&& r is Ok <==> slots_cached(old(self)@, backup)
                    &&& r is Ok ==> final(self)@ == restored(old(self)@, backup)
                    &&& r matches Err(e) ==> e == VMError::Internal(
                        InternalError::AccountNotFound,
                    ) && partly_restored(old(self)@, final(self)@, backup)
                },
            },
    {
        match self.get_tx_backup() {
            Ok(backup) => match self.restore_cache_state(&backup) {
                Ok(_) => Ok(()),
                Err(e) => Err(VMError::Internal(e)),
            },
            Err(e) => Err(VMError::Internal(e)),
        }
    }
}

} // verus!
