//! The database of the virtual machine: a [`Database`] behind caches of accounts and
//! code, with the baseline that state transitions are computed against.

use crate::account::{
    account_to_levm_account, accounts_view, cache_entry, codes_view, empty_keccak,
    empty_keccak_hash, Account, AccountInfo, AccountState, AccountStatus, AccountView, CacheDB,
    Code, CodeMetadata, CodeView, LevmAccount,
};
use crate::backup::{BackupView, CallFrameBackup};
use crate::bal::{
    code_from_bal, index_of, partition_point, seed_one_storage_slot_from_bal,
    slot_value, told, AccountChanges, BalAddressIndex, BalEvent, BlockAccessList,
    BlockAccessListRecorder, RecorderView,
};
use crate::database::Database;
use crate::error::{DatabaseError, ErrorView, InternalError};
use crate::table::{lemma_walk, lemma_walk_end, Duplicate, Table};
use crate::word::{Address, H256, U256};
use std::sync::Arc;
use vstd::prelude::*;

verus! {

/// A block access list with the index of the transaction that is about to run:
/// account loads and storage reads see what the transactions before it left behind.
/// The index is that of the transaction in its block plus one.
pub struct LazyBalCursor {
    bal: Arc<BlockAccessList>,
    bal_index: u32,
    index: Arc<BalAddressIndex>,
}

impl LazyBalCursor {
    #[verifier::type_invariant]
    spec fn wf(self) -> bool {
        &&& self.bal_index >= 1
        &&& index_of(*self.bal, *self.index)
    }

    pub closed spec fn list(self) -> BlockAccessList {
        *self.bal
    }

    pub closed spec fn positions(self) -> BalAddressIndex {
        *self.index
    }

    /// The last index whose changes the transaction sees.
    pub closed spec fn max_idx(self) -> u32 {
        (self.bal_index - 1) as u32
    }

    pub fn new(bal: Arc<BlockAccessList>, bal_index: u32, index: Arc<BalAddressIndex>) -> (c: Self)
        requires
            bal_index >= 1,
            index_of(*bal, *index),
        ensures
            c.list() == *bal,
            c.positions() == *index,
            c.max_idx() == bal_index - 1,
    {
        LazyBalCursor { bal, bal_index, index }
    }

    /// The changes of an account, where the list holds any.
    pub open spec fn changes(self, address: Address) -> Option<AccountChanges> {
        if self.positions().addr_to_idx@.contains_key(address) {
            Some(self.list().accounts@[self.positions().addr_to_idx@[address] as int])
        } else {
            None
        }
    }

    /// The value of a slot that the transaction sees, where the list holds one.
    pub open spec fn slot(self, address: Address, key: H256) -> Option<U256> {
        if self.positions().addr_to_idx@.contains_key(address) {
            slot_value(
                self.list(),
                self.positions(),
                self.positions().addr_to_idx@[address] as int,
                key,
                self.max_idx(),
            )
        } else {
            None
        }
    }

    fn find(&self, address: Address) -> (found: Option<&AccountChanges>)
        ensures
            match found {
                Some(changes) => self.changes(address) == Some(*changes) && changes.address
                    == address,
                None => self.changes(address) is None,
            },
    {
        proof {
            use_type_invariant(self);
        }
        match self.index.addr_to_idx.get(address) {
            Some(at) => Some(&self.bal.accounts[*at]),
            None => None,
        }
    }

    fn get_max_idx(&self) -> (max_idx: u32)
        ensures
            max_idx == self.max_idx(),
    {
        proof {
            use_type_invariant(self);
        }
        self.bal_index - 1
    }

    /// The value of a slot that the transaction sees, where the list holds one.
    pub fn storage_hit(&self, address: Address, key: H256) -> (value: Option<U256>)
        ensures
            value == self.slot(address, key),
    {
        match self.index.addr_to_idx.get(address) {
            Some(at) => seed_one_storage_slot_from_bal(
                &self.bal,
                &self.index,
                *at,
                key,
                self.get_max_idx(),
            ),
            None => None,
        }
    }
}

/// A cached database.
pub struct GeneralizedDatabase<D: Database> {
    pub store: D,
    pub current_accounts_state: CacheDB,
    pub initial_accounts_state: CacheDB,
    /// A read-only snapshot of accounts, asked before the store and after the block
    /// access list.
    pub shared_base: Option<Arc<CacheDB>>,
    pub codes: Table<H256, Code>,
    pub code_metadata: Table<H256, CodeMetadata>,
    pub tx_backup: Option<CallFrameBackup>,
    pub bal_recorder: Option<BlockAccessListRecorder>,
    /// Loaded accounts are not kept as a baseline: for databases whose state
    /// transitions are never asked for.
    pub skip_initial_tracking: bool,
    /// The addresses that were loaded, where someone wants to know.
    pub accessed_accounts: Option<Table<Address, ()>>,
    /// The addresses whose balance was read by a program, where someone wants to know.
    pub balance_reads: Option<Table<Address, ()>>,
    /// The block access list that loads and storage reads consult before the store.
    pub lazy_bal: Option<LazyBalCursor>,
}

/// What a [`GeneralizedDatabase`] holds in front of its store.
#[verifier::ext_equal]
pub struct DbView {
    pub current: Map<Address, AccountView>,
    pub initial: Map<Address, AccountView>,
    pub base: Option<Map<Address, AccountView>>,
    pub codes: Map<H256, CodeView>,
    pub metadata: Map<H256, CodeMetadata>,
    pub backup: Option<BackupView>,
    pub recorder: Option<RecorderView>,
    pub skip: bool,
    pub accessed: Option<Set<Address>>,
    pub balance_reads: Option<Set<Address>>,
    pub lazy: Option<LazyBalCursor>,
}

impl<D: Database> View for GeneralizedDatabase<D> {
    type V = DbView;

    open spec fn view(&self) -> DbView {
        DbView {
            current: accounts_view(self.current_accounts_state@),
            initial: accounts_view(self.initial_accounts_state@),
            base: match self.shared_base {
                Some(base) => Some(accounts_view(base@)),
                None => None,
            },
            codes: codes_view(self.codes@),
            metadata: self.code_metadata@,
            backup: match self.tx_backup {
                Some(backup) => Some(backup@),
                None => None,
            },
            recorder: match self.bal_recorder {
                Some(recorder) => Some(recorder@),
                None => None,
            },
            skip: self.skip_initial_tracking,
            accessed: match self.accessed_accounts {
                Some(set) => Some(set@.dom()),
                None => None,
            },
            balance_reads: match self.balance_reads {
                Some(set) => Some(set@.dom()),
                None => None,
            },
            lazy: self.lazy_bal,
        }
    }
}

/// A database view after a step that may fail.
#[verifier::ext_equal]
pub struct Stepped {
    pub db: DbView,
    pub error: Option<ErrorView>,
}

/// The database has noted that `address` was loaded.
pub open spec fn touched(db: DbView, address: Address) -> DbView {
    DbView {
        accessed: match db.accessed {
            Some(set) => Some(set.insert(address)),
            None => None,
        },
        ..db
    }
}

/// An account of the baseline as it comes back into the cache: without its storage,
/// which is read back slot by slot, unless the account was destroyed, whose unwritten
/// slots must not be read from the baseline.
pub open spec fn faulted(account: AccountView) -> AccountView {
    if account.status.destroyed() {
        account
    } else {
        account.without_storage()
    }
}

/// The database after `account` was loaded for the first time.
pub open spec fn admitted(db: DbView, address: Address, account: AccountView) -> DbView {
    DbView {
        initial: if db.skip {
            db.initial
        } else {
            db.initial.insert(address, account)
        },
        current: db.current.insert(address, account),
        ..db
    }
}

/// The changes of the block access list that a load of `address` sees, where they
/// touch balance, nonce or code.
pub open spec fn cover(db: DbView, address: Address) -> Option<AccountChanges> {
    match db.lazy {
        Some(cursor) => match cursor.changes(address) {
            Some(changes) => if changes.covers_some(cursor.max_idx()) {
                Some(changes)
            } else {
                None
            },
            None => None,
        },
        None => None,
    }
}

/// Whether the shared base holds `address`.
pub open spec fn in_base(db: DbView, address: Address) -> bool {
    db.base is Some && db.base->0.contains_key(address)
}

/// Whether a load of `address` has to ask the store.
pub open spec fn asks_store(db: DbView, address: Address) -> bool {
    &&& !db.current.contains_key(address)
    &&& !db.initial.contains_key(address)
    &&& !in_base(db, address)
    &&& (cover(db, address) matches Some(changes) ==> !changes.covers_all(db.lazy->0.max_idx()))
}

/// The answer of the store to a load, where it was asked.
pub type AccountAnswer = Option<Result<AccountState, DatabaseError>>;

/// The first load of an account that neither the cache nor the baseline holds, from
/// the shared base or else from what the store answered.
pub open spec fn load_base(db: DbView, address: Address, answer: AccountAnswer) -> Stepped {
    if in_base(db, address) {
        Stepped { db: admitted(db, address, db.base->0[address]), error: None }
    } else {
        match answer->0 {
            Ok(state) => Stepped {
                db: admitted(db, address, AccountView::loaded(state)),
                error: None,
            },
            Err(e) => Stepped { db, error: Some(ErrorView::Database(e)) },
        }
    }
}

/// The account that stands for one of which the block access list holds all there is
/// to know.
pub open spec fn blank_modified() -> AccountView {
    AccountView {
        info: AccountInfo::blank(),
        storage: Map::empty(),
        has_storage: false,
        status: AccountStatus::Modified,
        exists: true,
    }
}

/// The database after the changes up to `max_idx` were laid over the cached account.
pub open spec fn seeded(db: DbView, changes: AccountChanges, max_idx: u32) -> DbView {
    let account = if db.current.contains_key(changes.address) {
        db.current[changes.address]
    } else {
        blank_modified()
    };
    DbView {
        current: db.current.insert(
            changes.address,
            AccountView {
                info: changes.overlay(account.info, max_idx),
                ..account.mark_modified()
            },
        ),
        codes: changes.overlay_codes(db.codes, max_idx),
        ..db
    }
}

/// What is said where the fields that a block access list leaves open could not be loaded.
pub open spec fn seed_fault(e: ErrorView) -> ErrorView {
    ErrorView::Custom("seed_db_from_bal load: "@ + e.text())
}

/// The database after a load of `address`. The cache comes first, then the baseline,
/// then the block access list laid over the shared base or the store.
pub open spec fn load(db: DbView, address: Address, answer: AccountAnswer) -> Stepped {
    let db = touched(db, address);
    if db.current.contains_key(address) {
        Stepped { db, error: None }
    } else if db.initial.contains_key(address) {
        Stepped {
            db: DbView {
                current: db.current.insert(address, faulted(db.initial[address])),
                ..db
            },
            error: None,
        }
    } else {
        match cover(db, address) {
            Some(changes) => {
                let max_idx = db.lazy->0.max_idx();
                if changes.covers_all(max_idx) {
                    Stepped { db: seeded(db, changes, max_idx), error: None }
                } else {
                    let loaded = load_base(db, address, answer);
                    match loaded.error {
                        Some(e) => Stepped {
                            db: loaded.db,
                            error: Some(
                                ErrorView::Custom("lazy_bal seed: "@ + seed_fault(e).text()),
                            ),
                        },
                        None => Stepped { db: seeded(loaded.db, changes, max_idx), error: None },
                    }
                }
            },
            None => load_base(db, address, answer),
        }
    }
}

/// `answer` is what the store said to a load of `address`, or nothing where the load
/// does not ask it.
pub open spec fn account_answer<D: Database>(
    store: D,
    db: DbView,
    address: Address,
    answer: AccountAnswer,
) -> bool {
    if asks_store(db, address) {
        answer is Some && call_ensures(D::get_account_state, (&store, address), answer->0)
    } else {
        answer is None
    }
}

/// The error of a result, where it has one.
pub open spec fn failure<T>(r: Result<T, InternalError>) -> Option<ErrorView> {
    match r {
        Ok(_) => None,
        Err(e) => Some(e@),
    }
}

/// A load of `address` takes the database from `before` to `after`, whatever the store
/// answers where it is asked, and fails with `error` or does not fail.
pub open spec fn account_loaded<D: Database>(
    store: D,
    before: DbView,
    address: Address,
    after: DbView,
    error: Option<ErrorView>,
) -> bool {
    exists|answer: AccountAnswer| #[trigger]
        account_answer(store, before, address, answer) && load(before, address, answer) == (
        Stepped { db: after, error })
}

/// The answer of the store to a code lookup, where it was asked.
pub type CodeAnswer = Option<Result<Code, DatabaseError>>;

/// `answer` is what the store said to a lookup of the code with hash `code_hash`, or
/// nothing where the cache holds that code.
pub open spec fn code_answer<D: Database>(
    store: D,
    db: DbView,
    code_hash: H256,
    answer: CodeAnswer,
) -> bool {
    if db.codes.contains_key(code_hash) {
        answer is None
    } else {
        answer is Some && call_ensures(D::get_account_code, (&store, code_hash), answer->0)
    }
}

/// The database after a lookup of the code with hash `code_hash`.
pub open spec fn load_code(db: DbView, code_hash: H256, answer: CodeAnswer) -> Stepped {
    if db.codes.contains_key(code_hash) {
        Stepped { db, error: None }
    } else {
        match answer->0 {
            Ok(code) => Stepped {
                db: DbView { codes: db.codes.insert(code_hash, code@), ..db },
                error: None,
            },
            Err(e) => Stepped { db, error: Some(ErrorView::Database(e)) },
        }
    }
}

/// The database after a lookup of the length of the code with hash `code_hash`: the
/// code itself is looked up where the length is not known yet.
pub open spec fn load_metadata(db: DbView, code_hash: H256, answer: CodeAnswer) -> Stepped {
    if db.metadata.contains_key(code_hash) {
        Stepped { db, error: None }
    } else {
        let loaded = load_code(db, code_hash, answer);
        match loaded.error {
            Some(_) => loaded,
            None => Stepped {
                db: DbView {
                    metadata: db.metadata.insert(
                        code_hash,
                        CodeMetadata {
                            length: loaded.db.codes[code_hash].bytecode.len() as u64,
                        },
                    ),
                    ..loaded.db
                },
                error: None,
            },
        }
    }
}

/// As [`code_answer`], for a lookup of the length of a code.
pub open spec fn metadata_answer<D: Database>(
    store: D,
    db: DbView,
    code_hash: H256,
    answer: CodeAnswer,
) -> bool {
    if db.metadata.contains_key(code_hash) {
        answer is None
    } else {
        code_answer(store, db, code_hash, answer)
    }
}

/// A lookup of the code with hash `code_hash` takes the database from `before` to
/// `after`, and fails with `error` or does not fail.
pub open spec fn code_loaded<D: Database>(
    store: D,
    before: DbView,
    code_hash: H256,
    after: DbView,
    error: Option<ErrorView>,
) -> bool {
    exists|answer: CodeAnswer| #[trigger]
        code_answer(store, before, code_hash, answer) && load_code(before, code_hash, answer) == (
        Stepped { db: after, error })
}

/// A lookup of the length of the code with hash `code_hash` takes the database from
/// `before` to `after`, and fails with `error` or does not fail.
pub open spec fn metadata_loaded<D: Database>(
    store: D,
    before: DbView,
    code_hash: H256,
    after: DbView,
    error: Option<ErrorView>,
) -> bool {
    exists|answer: CodeAnswer| #[trigger]
        metadata_answer(store, before, code_hash, answer) && load_metadata(
            before,
            code_hash,
            answer,
        ) == (Stepped { db: after, error })
}

/// A read of the length of an account's code takes the database from `before` to
/// `after` and gives `r`: zero for an account without code, and otherwise the length
/// that is known of its code.
pub open spec fn code_length_read<D: Database>(
    store: D,
    before: DbView,
    address: Address,
    after: DbView,
    r: Result<usize, InternalError>,
) -> bool {
    exists|loaded: DbView, error: Option<ErrorView>| #[trigger]
        account_loaded(store, before, address, loaded, error) && (match error {
            Some(_) => failure(r) == error && after == loaded,
            None => {
                let code_hash = loaded.current[address].info.code_hash;
                if code_hash == empty_keccak() {
                    r == Ok::<usize, InternalError>(0) && after == loaded
                } else {
                    metadata_loaded(store, loaded, code_hash, after, failure(r)) && (r matches Ok(
                        n,
                    ) ==> n == after.metadata[code_hash].length as usize)
                }
            },
        })
}

impl DbView {
    /// Nothing cached, nothing recorded.
    pub open spec fn blank() -> DbView {
        DbView {
            current: Map::empty(),
            initial: Map::empty(),
            base: None,
            codes: Map::empty(),
            metadata: Map::empty(),
            backup: None,
            recorder: None,
            skip: false,
            accessed: None,
            balance_reads: None,
            lazy: None,
        }
    }

    /// The cache with `value` under `key` in the storage of a cached account.
    pub open spec fn with_cached_slot(self, address: Address, key: H256, value: U256) -> DbView {
        DbView {
            current: self.current.insert(
                address,
                AccountView {
                    storage: self.current[address].storage.insert(key, value),
                    ..self.current[address]
                },
            ),
            ..self
        }
    }
}

/// The cache entries of accounts of which everything is known.
pub open spec fn entries_of(accounts: Map<Address, Account>) -> Map<Address, AccountView> {
    Map::new(|a: Address| accounts.contains_key(a), |a: Address| cache_entry(accounts[a]@))
}

/// What is said where a slot is fetched of an account that was never loaded.
pub open spec fn unloaded_storage() -> ErrorView {
    ErrorView::Custom("Account not found in InMemoryDB when fetching storage"@)
}

/// The database after the store answered a read of a slot.
pub open spec fn fetch_slot(
    db: DbView,
    address: Address,
    key: H256,
    answer: Result<U256, DatabaseError>,
) -> Stepped {
    match answer {
        Err(e) => Stepped { db, error: Some(ErrorView::Database(e)) },
        Ok(value) => if db.skip {
            Stepped { db, error: None }
        } else if !db.initial.contains_key(address) {
            Stepped { db, error: Some(unloaded_storage()) }
        } else {
            Stepped {
                db: DbView {
                    initial: db.initial.insert(
                        address,
                        AccountView {
                            storage: db.initial[address].storage.insert(key, value),
                            ..db.initial[address]
                        },
                    ),
                    ..db
                },
                error: None,
            }
        },
    }
}

/// A read of a slot from the store takes the database from `before` to `after` and
/// gives `r`, whatever the store answers.
pub open spec fn slot_fetched<D: Database>(
    store: D,
    before: DbView,
    address: Address,
    key: H256,
    after: DbView,
    r: Result<U256, InternalError>,
) -> bool {
    exists|answer: Result<U256, DatabaseError>| #[trigger]
        call_ensures(D::get_storage_value, (&store, address, key), answer) && fetch_slot(
            before,
            address,
            key,
            answer,
        ) == (Stepped { db: after, error: failure(r) }) && (r matches Ok(value) ==> answer == Ok::<
            U256,
            DatabaseError,
        >(value))
}

/// Lays what a block access list says of the balance, nonce and code of one account,
/// up to `max_idx`, over the cached account. Storage is left alone. Says whether the
/// list had anything to say.
///
/// Where the list knows all three fields the account need not be loaded; otherwise
/// the missing ones are.
pub fn seed_one_address_info_from_bal<D: Database>(
    db: &mut GeneralizedDatabase<D>,
    bal: &BlockAccessList,
    acct_idx: usize,
    max_idx: u32,
) -> (r: Result<bool, InternalError>)
    ensures
        final(db).store == old(db).store,
        acct_idx >= bal.accounts@.len() ==> r == Err::<bool, InternalError>(
            InternalError::AccountNotFound,
        ) && final(db)@ == old(db)@,
        acct_idx < bal.accounts@.len() ==> {
            let changes = bal.accounts@[acct_idx as int];
            if !changes.covers_some(max_idx) {
                r == Ok::<bool, InternalError>(false) && final(db)@ == old(db)@
            } else if changes.covers_all(max_idx) {
                r == Ok::<bool, InternalError>(true) && final(db)@ == seeded(
                    old(db)@,
                    changes,
                    max_idx,
                )
            } else {
                exists|loaded: DbView, error: Option<ErrorView>| #[trigger]
                    account_loaded(old(db).store, old(db)@, changes.address, loaded, error) && (
                    match error {
                        None => r == Ok::<bool, InternalError>(true) && final(db)@ == seeded(
                            loaded,
                            changes,
                            max_idx,
                        ),
                        Some(e) => failure(r) == Some(seed_fault(e)) && final(db)@ == loaded,
                    })
            }
        },
{
    if acct_idx >= bal.accounts.len() {
        return Err(InternalError::AccountNotFound);
    }
    let changes = &bal.accounts[acct_idx];
    let balance_pos: usize = partition_point(&changes.balance_changes, max_idx);
    let nonce_pos: usize = partition_point(&changes.nonce_changes, max_idx);
    let code_pos: usize = partition_point(&changes.code_changes, max_idx);
    if balance_pos == 0 && nonce_pos == 0 && code_pos == 0 {
        return Ok(false);
    }
    if !(balance_pos > 0 && nonce_pos > 0 && code_pos > 0) {
        match db.load_account(changes.address) {
            Ok(_) => {},
            Err(e) => {
                return Err(e.during("seed_db_from_bal load: "));
            },
        }
    }
    db.seed_cached(changes, max_idx);
    Ok(true)
}

impl<D: Database> GeneralizedDatabase<D> {
    /// An empty cache in front of `store`.
    pub fn new(store: D) -> (db: Self)
        ensures
            db.store == store,
            db@ == DbView::blank(),
    {
        let db = GeneralizedDatabase {
            store,
            current_accounts_state: Table::new(),
            initial_accounts_state: Table::new(),
            shared_base: None,
            codes: Table::new(),
            code_metadata: Table::new(),
            tx_backup: None,
            bal_recorder: None,
            skip_initial_tracking: false,
            accessed_accounts: None,
            balance_reads: None,
            lazy_bal: None,
        };
        assert(db@ =~= DbView::blank());
        db
    }

    /// An empty cache in front of a shared snapshot and `store`, for one of several
    /// executions that start from the same state. It keeps no baseline.
    pub fn new_with_shared_base(store: D, shared_base: Arc<CacheDB>) -> (db: Self)
        ensures
            db.store == store,
            db@ == (DbView {
                base: Some(accounts_view(shared_base@)),
                skip: true,
                ..DbView::blank()
            }),
    {
        Self::new_with_shared_base_and_capacity(store, shared_base, 0)
    }

    /// As [`new_with_shared_base`](Self::new_with_shared_base), for about `capacity`
    /// accounts.
    pub fn new_with_shared_base_and_capacity(
        store: D,
        shared_base: Arc<CacheDB>,
        capacity: usize,
    ) -> (db: Self)
        ensures
            db.store == store,
            db@ == (DbView {
                base: Some(accounts_view(shared_base@)),
                skip: true,
                ..DbView::blank()
            }),
    {
        let mut db = Self::new(store);
        db.current_accounts_state = Table::with_capacity(capacity);
        db.codes = Table::with_capacity(capacity / 4);
        db.shared_base = Some(shared_base);
        db.skip_initial_tracking = true;
        assert(db@ =~= (DbView {
            base: Some(accounts_view(shared_base@)),
            skip: true,
            ..DbView::blank()
        }));
        db
    }

    /// A cache that holds the given accounts, with all of their storage, as cache and
    /// baseline.
    pub fn new_with_account_state(store: D, accounts: &Table<Address, Account>) -> (db: Self)
        ensures
            db.store == store,
            db@ == (DbView {
                current: entries_of(accounts@),
                initial: entries_of(accounts@),
                codes: db@.codes,
                ..DbView::blank()
            }),
            forall|a: Address| #[trigger]
                accounts@.contains_key(a) ==> db@.codes.contains_key(accounts@[a].info.code_hash),
            forall|h: H256| #[trigger]
                db@.codes.contains_key(h) ==> exists|a: Address| #[trigger]
                    accounts@.contains_key(a) && accounts@[a].info.code_hash == h
                        && accounts@[a].code@ == db@.codes[h],
    {
        let mut db = Self::new(store);
        let keys = accounts.keys();
        let mut i: usize = 0;
        proof {
            assert(keys@.take(0) =~= Seq::empty());
        }
        while i < keys.len()
            invariant
                i <= keys@.len(),
                keys@.no_duplicates(),
                keys@.to_set() == accounts@.dom(),
                forall|j: int| 0 <= j < keys@.len() ==> accounts@.contains_key(#[trigger] keys@[j]),
                db.store == store,
                db@ =~= (DbView {
                    current: db@.current,
                    initial: db@.current,
                    codes: db@.codes,
                    ..DbView::blank()
                }),
                forall|a: Address| #[trigger]
                    db@.current.contains_key(a) <==> keys@.take(i as int).contains(a),
                forall|a: Address| #[trigger]
                    db@.current.contains_key(a) ==> db@.current[a] == cache_entry(accounts@[a]@),
                forall|a: Address| #[trigger]
                    keys@.take(i as int).contains(a) ==> db@.codes.contains_key(
                        accounts@[a].info.code_hash,
                    ),
                forall|h: H256| #[trigger]
                    db@.codes.contains_key(h) ==> exists|a: Address| #[trigger]
                        accounts@.contains_key(a) && accounts@[a].info.code_hash == h
                            && accounts@[a].code@ == db@.codes[h],
            decreases keys@.len() - i,
        {
            let address = keys[i];
            let ghost at = i as int;
            let ghost before = db@;
            proof {
                lemma_walk(keys@, at, at + 1);
                assert(accounts@.contains_key(keys@[at]));
            }
            match accounts.get(address) {
                Some(account) => {
                    let (entry, code) = account_to_levm_account(account);
                    db.codes.insert(entry.info.code_hash, code);
                    db.initial_accounts_state.insert(address, entry.duplicate());
                    db.current_accounts_state.insert(address, entry);
                },
                None => {},
            }
            i += 1;
            proof {
                assert(db@.current =~= before.current.insert(
                    address,
                    cache_entry(accounts@[address]@),
                ));
                assert(db@.codes =~= before.codes.insert(
                    accounts@[address].info.code_hash,
                    accounts@[address].code@,
                ));
                assert forall|a: Address| #[trigger]
                    db@.current.contains_key(a) <==> keys@.take(i as int).contains(a) by {
                    assert(before.current.contains_key(a) <==> keys@.take(at).contains(a));
                }
                assert forall|a: Address| #[trigger]
                    db@.current.contains_key(a) implies db@.current[a] == cache_entry(
                    accounts@[a]@,
                ) by {
                    if a != address {
                        assert(before.current.contains_key(a));
                    }
                }
                assert forall|h: H256| #[trigger] db@.codes.contains_key(h) implies exists|
                    a: Address,
                | #[trigger]
                    accounts@.contains_key(a) && accounts@[a].info.code_hash == h
                        && accounts@[a].code@ == db@.codes[h] by {
                    if h == accounts@[address].info.code_hash {
                        assert(accounts@.contains_key(address));
                    } else {
                        assert(before.codes.contains_key(h));
                    }
                }
            }
        }
        proof {
            lemma_walk_end(keys@, accounts@.dom());
            assert(keys@.take(i as int) =~= keys@.take(keys@.len() as int));
            assert(db@.current =~= entries_of(accounts@));
            assert forall|a: Address| #[trigger] accounts@.contains_key(a) implies db@.codes.contains_key(
                accounts@[a].info.code_hash,
            ) by {
                assert(keys@.take(i as int).contains(a));
            }
        }
        db
    }

    /// From now on state changes are recorded for a block access list.
    pub fn enable_bal_recording(&mut self)
        ensures
            final(self).store == old(self).store,
            final(self)@ == (DbView {
                recorder: Some(RecorderView { block_access_index: 0, events: Seq::empty() }),
                ..old(self)@
            }),
    {
        self.bal_recorder = Some(BlockAccessListRecorder::new());
    }

    /// State changes are recorded no more, and what was recorded is dropped.
    pub fn disable_bal_recording(&mut self)
        ensures
            final(self).store == old(self).store,
            final(self)@ == (DbView { recorder: None, ..old(self)@ }),
    {
        self.bal_recorder = None;
    }

    /// Sets the index under which state changes are recorded, where they are.
    pub fn set_bal_index(&mut self, index: u32)
        ensures
            final(self).store == old(self).store,
            final(self)@ == (DbView {
                recorder: match old(self)@.recorder {
                    Some(r) => Some(RecorderView { block_access_index: index, ..r }),
                    None => None,
                },
                ..old(self)@
            }),
    {
        match &mut self.bal_recorder {
            Some(recorder) => {
                recorder.set_block_access_index(index);
            },
            None => {},
        }
    }

    /// Hands out what was recorded, from which the block access list is built, and
    /// stops recording.
    pub fn take_bal(&mut self) -> (taken: Option<BlockAccessListRecorder>)
        ensures
            final(self).store == old(self).store,
            final(self)@ == (DbView { recorder: None, ..old(self)@ }),
            match taken {
                Some(recorder) => old(self)@.recorder == Some(recorder@),
                None => old(self)@.recorder is None,
            },
    {
        self.bal_recorder.take()
    }

    /// The recorder, where recording is on.
    pub fn bal_recorder_mut(&mut self) -> (r: Option<&mut BlockAccessListRecorder>)
        ensures
            final(self).store == old(self).store,
            match r {
                Some(recorder) => old(self)@.recorder == Some(recorder@) && final(self)@ == (DbView {
                    recorder: Some((*final(recorder))@),
                    ..old(self)@
                }),
                None => old(self)@.recorder is None && final(self)@ == old(self)@,
            },
    {
        match &mut self.bal_recorder {
            Some(recorder) => Some(recorder),
            None => None,
        }
    }

    /// Tells the recorder, where recording is on.
    pub fn record(&mut self, event: BalEvent)
        ensures
            final(self).store == old(self).store,
            final(self)@ == (DbView { recorder: told(old(self)@.recorder, event@), ..old(self)@ }),
    {
        match &mut self.bal_recorder {
            Some(recorder) => {
                recorder.tell(event);
            },
            None => {},
        }
    }

    /// Reads a slot from the store, and keeps it in the baseline unless that is
    /// switched off. The account must be part of the baseline.
    pub fn get_value_from_database(&mut self, address: Address, key: H256) -> (r: Result<
        U256,
        InternalError,
    >)
        ensures
            final(self).store == old(self).store,
            slot_fetched(old(self).store, old(self)@, address, key, final(self)@, r),
    {
        let said = self.store.get_storage_value(address, key);
        let ghost answer = said;
        let value = match said {
            Ok(value) => value,
            Err(e) => {
                return Err(InternalError::Database(e));
            },
        };
        if self.skip_initial_tracking {
            return Ok(value);
        }
        match self.initial_accounts_state.get_mut(address) {
            Some(account) => {
                account.storage.insert(key, value);
            },
            None => {
                return Err(
                    InternalError::msg("Account not found in InMemoryDB when fetching storage"),
                );
            },
        }
        assert(self@ =~= fetch_slot(old(self)@, address, key, answer).db);
        Ok(value)
    }

    /// Whether a load of `address` has to ask the store.
    pub fn must_ask_store(&self, address: Address) -> (b: bool)
        ensures
            b == asks_store(self@, address),
    {
        if self.current_accounts_state.contains_key(address)
            || self.initial_accounts_state.contains_key(address) {
            return false;
        }
        match &self.shared_base {
            Some(base) => {
                if base.contains_key(address) {
                    return false;
                }
            },
            None => {},
        }
        match &self.lazy_bal {
            Some(cursor) => match cursor.find(address) {
                Some(changes) => {
                    let max_idx: u32 = cursor.get_max_idx();
                    !(partition_point(&changes.balance_changes, max_idx) > 0 && partition_point(
                        &changes.nonce_changes,
                        max_idx,
                    ) > 0 && partition_point(&changes.code_changes, max_idx) > 0)
                },
                None => true,
            },
            None => true,
        }
    }

    fn touch(&mut self, address: Address)
        ensures
            final(self)@ == touched(old(self)@, address),
            final(self).store == old(self).store,
    {
        match &mut self.accessed_accounts {
            Some(tracker) => {
                tracker.insert(address, ());
            },
            None => {},
        }
        assert(self@ =~= touched(old(self)@, address));
    }

    /// Puts an account that was loaded for the first time into the cache, and into the
    /// baseline unless that is switched off.
    fn keep_loaded(&mut self, address: Address, account: LevmAccount)
        ensures
            final(self)@ == admitted(old(self)@, address, account@),
            final(self).store == old(self).store,
    {
        if !self.skip_initial_tracking {
            self.initial_accounts_state.insert(address, account.duplicate());
        }
        self.current_accounts_state.insert(address, account);
        assert(self@ =~= admitted(old(self)@, address, account@));
    }

    fn load_base_from(&mut self, address: Address, answer: AccountAnswer) -> (r: Result<
        (),
        InternalError,
    >)
        requires
            !in_base(old(self)@, address) ==> answer is Some,
        ensures
            final(self)@ == load_base(old(self)@, address, answer).db,
            final(self).store == old(self).store,
            match r {
                Ok(_) => load_base(old(self)@, address, answer).error is None,
                Err(e) => load_base(old(self)@, address, answer).error == Some(e@),
            },
    {
        let mut found: Option<LevmAccount> = None;
        match &self.shared_base {
            Some(base) => match base.get(address) {
                Some(account) => {
                    found = Some(account.duplicate());
                },
                None => {},
            },
            None => {},
        }
        match found {
            Some(account) => {
                self.keep_loaded(address, account);
                Ok(())
            },
            None => match answer {
                Some(Ok(state)) => {
                    self.keep_loaded(address, LevmAccount::from_state(state));
                    Ok(())
                },
                Some(Err(e)) => Err(InternalError::Database(e)),
                None => Err(InternalError::AccountNotFound),
            },
        }
    }

    /// Lays the changes up to `max_idx` over the cached account.
    fn seed_cached(&mut self, changes: &AccountChanges, max_idx: u32)
        requires
            changes.covers_some(max_idx),
            old(self)@.current.contains_key(changes.address) || changes.covers_all(max_idx),
        ensures
            final(self)@ == seeded(old(self)@, *changes, max_idx),
            final(self).store == old(self).store,
    {
        let address = changes.address;
        if !self.current_accounts_state.contains_key(address) {
            self.current_accounts_state.insert(
                address,
                LevmAccount {
                    info: AccountInfo::empty(),
                    storage: Table::new(),
                    has_storage: false,
                    status: AccountStatus::Modified,
                    exists: true,
                },
            );
        }
        let balance_pos: usize = partition_point(&changes.balance_changes, max_idx);
        let nonce_pos: usize = partition_point(&changes.nonce_changes, max_idx);
        let code_pos: usize = partition_point(&changes.code_changes, max_idx);
        let code_update: Option<(H256, Option<Code>)> = if code_pos > 0 {
            Some(code_from_bal(&changes.code_changes[code_pos - 1].post))
        } else {
            None
        };
        match self.current_accounts_state.get_mut(address) {
            Some(account) => {
                if balance_pos > 0 {
                    account.info.balance = changes.balance_changes[balance_pos - 1].post;
                }
                if nonce_pos > 0 {
                    account.info.nonce = changes.nonce_changes[nonce_pos - 1].post;
                }
                match &code_update {
                    Some(update) => {
                        account.info.code_hash = update.0;
                    },
                    None => {},
                }
                account.mark_modified();
            },
            None => {},
        }
        match code_update {
            Some((hash, Some(code))) => {
                if !self.codes.contains_key(hash) {
                    self.codes.insert(hash, code);
                }
            },
            _ => {},
        }
        assert(self@ =~= seeded(old(self)@, *changes, max_idx));
    }

    /// Loads an account into the cache: from the cache itself, the baseline, the block
    /// access list, the shared base or, last, from what the store answered.
    pub fn load_account_from(&mut self, address: Address, answer: AccountAnswer) -> (r: Result<
        (),
        InternalError,
    >)
        requires
            asks_store(old(self)@, address) ==> answer is Some,
        ensures
            final(self)@ == load(old(self)@, address, answer).db,
            final(self).store == old(self).store,
            match r {
                Ok(_) => load(old(self)@, address, answer).error is None
                    && final(self)@.current.contains_key(address),
                Err(e) => load(old(self)@, address, answer).error == Some(e@),
            },
    {
        self.touch(address);
        if self.current_accounts_state.contains_key(address) {
            return Ok(());
        }
        match self.initial_accounts_state.get(address) {
            Some(account) => {
                let clone = if account.status.is_destroyed() {
                    account.duplicate()
                } else {
                    account.clone_without_storage()
                };
                self.current_accounts_state.insert(address, clone);
                assert(self@ =~= load(old(self)@, address, answer).db);
                return Ok(());
            },
            None => {},
        }
        // The cursor is set aside while the account is loaded and put back whatever
        // comes of it.
        let cursor = self.lazy_bal.take();
        let r = match &cursor {
            Some(c) => match c.find(address) {
                Some(changes) => {
                    let max_idx: u32 = c.get_max_idx();
                    let balance_pos: usize = partition_point(&changes.balance_changes, max_idx);
                    let nonce_pos: usize = partition_point(&changes.nonce_changes, max_idx);
                    let code_pos: usize = partition_point(&changes.code_changes, max_idx);
                    if balance_pos == 0 && nonce_pos == 0 && code_pos == 0 {
                        self.load_base_from(address, answer)
                    } else if balance_pos > 0 && nonce_pos > 0 && code_pos > 0 {
                        self.seed_cached(changes, max_idx);
                        Ok(())
                    } else {
                        match self.load_base_from(address, answer) {
                            Ok(_) => {
                                self.seed_cached(changes, max_idx);
                                Ok(())
                            },
                            Err(e) => Err(
                                e.during("seed_db_from_bal load: ").during("lazy_bal seed: "),
                            ),
                        }
                    }
                },
                None => self.load_base_from(address, answer),
            },
            None => self.load_base_from(address, answer),
        };
        self.lazy_bal = cursor;
        assert(self@ =~= load(old(self)@, address, answer).db);
        r
    }

    /// Loads an account into the cache, asking the store where nothing else knows it.
    fn load_account(&mut self, address: Address) -> (r: Result<(), InternalError>)
        ensures
            final(self).store == old(self).store,
            account_loaded(old(self).store, old(self)@, address, final(self)@, failure(r)),
            r is Ok ==> final(self)@.current.contains_key(address),
    {
        let answer: AccountAnswer = if self.must_ask_store(address) {
            Some(self.store.get_account_state(address))
        } else {
            None
        };
        let ghost said = answer;
        let r = self.load_account_from(address, answer);
        assert(account_answer(old(self).store, old(self)@, address, said));
        r
    }

    /// Gets an account.
    pub fn get_account(&mut self, address: Address) -> (r: Result<&LevmAccount, InternalError>)
        ensures
            final(self).store == old(self).store,
            account_loaded(old(self).store, old(self)@, address, final(self)@, failure(r)),
            r matches Ok(account) ==> final(self)@.current.contains_key(address) && account@
                == final(self)@.current[address],
    {
        match self.load_account(address) {
            Ok(_) => match self.current_accounts_state.get(address) {
                Some(account) => Ok(account),
                None => Err(InternalError::AccountNotFound),
            },
            Err(e) => Err(e),
        }
    }

    /// Gets an account to be changed, and marks it as changed. Inside a program the
    /// virtual machine's own method is to be used, which also backs the account up.
    pub fn get_account_mut(&mut self, address: Address) -> (r: Result<
        &mut LevmAccount,
        InternalError,
    >)
        ensures
            final(self).store == old(self).store,
            exists|loaded: DbView| #[trigger]
                account_loaded(old(self).store, old(self)@, address, loaded, failure(r)) && (
                match r {
                    Ok(account) => {
                        &&& loaded.current.contains_key(address)
                        &&& account@ == loaded.current[address].mark_modified()
                        &&& final(self)@ =~= (DbView {
                            current: loaded.current.insert(address, (*final(account))@),
                            ..loaded
                        })
                    },
                    Err(_) => final(self)@ == loaded,
                }),
    {
        match self.load_account(address) {
            Ok(_) => match self.current_accounts_state.get_mut(address) {
                Some(account) => {
                    account.mark_modified();
                    Ok(account)
                },
                None => Err(InternalError::AccountNotFound),
            },
            Err(e) => Err(e),
        }
    }

    fn load_code_entry(&mut self, code_hash: H256) -> (r: Result<(), InternalError>)
        ensures
            final(self).store == old(self).store,
            code_loaded(old(self).store, old(self)@, code_hash, final(self)@, failure(r)),
            r is Ok ==> final(self)@.codes.contains_key(code_hash),
    {
        if self.codes.contains_key(code_hash) {
            assert(code_answer(old(self).store, old(self)@, code_hash, None));
            return Ok(());
        }
        let said = self.store.get_account_code(code_hash);
        let ghost answer: CodeAnswer = Some(said);
        assert(code_answer(old(self).store, old(self)@, code_hash, answer));
        match said {
            Ok(code) => {
                self.codes.insert(code_hash, code);
                assert(self@ =~= load_code(old(self)@, code_hash, answer).db);
                Ok(())
            },
            Err(e) => Err(InternalError::Database(e)),
        }
    }

    /// Gets the code with the given hash, asking the store where the cache does not
    /// hold it.
    pub fn get_code(&mut self, code_hash: H256) -> (r: Result<&Code, InternalError>)
        ensures
            final(self).store == old(self).store,
            code_loaded(old(self).store, old(self)@, code_hash, final(self)@, failure(r)),
            r matches Ok(code) ==> final(self)@.codes.contains_key(code_hash) && code@
                == final(self)@.codes[code_hash],
    {
        match self.load_code_entry(code_hash) {
            Ok(_) => match self.codes.get(code_hash) {
                Some(code) => Ok(code),
                None => Err(InternalError::AccountNotFound),
            },
            Err(e) => Err(e),
        }
    }

    /// Gets the code of an account.
    pub fn get_account_code(&mut self, address: Address) -> (r: Result<&Code, InternalError>)
        ensures
            final(self).store == old(self).store,
            exists|loaded: DbView, error: Option<ErrorView>| #[trigger]
                account_loaded(old(self).store, old(self)@, address, loaded, error) && (
                match error {
                    Some(_) => failure(r) == error && final(self)@ == loaded,
                    None => code_loaded(
                        old(self).store,
                        loaded,
                        loaded.current[address].info.code_hash,
                        final(self)@,
                        failure(r),
                    ) && (r matches Ok(code) ==> code@
                        == final(self)@.codes[loaded.current[address].info.code_hash]),
                }),
    {
        let code_hash = match self.get_account(address) {
            Ok(account) => account.info.code_hash,
            Err(e) => {
                return Err(e);
            },
        };
        self.get_code(code_hash)
    }

    /// Gets the length of the code with the given hash.
    pub fn get_code_metadata(&mut self, code_hash: H256) -> (r: Result<
        &CodeMetadata,
        InternalError,
    >)
        ensures
            final(self).store == old(self).store,
            metadata_loaded(old(self).store, old(self)@, code_hash, final(self)@, failure(r)),
            r matches Ok(metadata) ==> final(self)@.metadata.contains_key(code_hash) && *metadata
                == final(self)@.metadata[code_hash],
    {
        if !self.code_metadata.contains_key(code_hash) {
            let length: u64 = match self.get_code(code_hash) {
                Ok(code) => code.len() as u64,
                Err(e) => {
                    let ghost answer = choose|answer: CodeAnswer| #[trigger]
                        code_answer(old(self).store, old(self)@, code_hash, answer) && load_code(
                            old(self)@,
                            code_hash,
                            answer,
                        ) == (Stepped { db: self@, error: Some(e@) });
                    assert(metadata_answer(old(self).store, old(self)@, code_hash, answer));
                    return Err(e);
                },
            };
            let ghost answer = choose|answer: CodeAnswer| #[trigger]
                code_answer(old(self).store, old(self)@, code_hash, answer) && load_code(
                    old(self)@,
                    code_hash,
                    answer,
                ) == (Stepped { db: self@, error: None });
            self.code_metadata.insert(code_hash, CodeMetadata { length });
            assert(metadata_answer(old(self).store, old(self)@, code_hash, answer));
            assert(self@ =~= load_metadata(old(self)@, code_hash, answer).db);
        } else {
            assert(metadata_answer(old(self).store, old(self)@, code_hash, None));
        }
        match self.code_metadata.get(code_hash) {
            Some(metadata) => Ok(metadata),
            None => Err(InternalError::AccountNotFound),
        }
    }

    /// Gets the length of the code of an account: zero where it has none, without a
    /// code lookup.
    pub fn get_code_length(&mut self, address: Address) -> (r: Result<usize, InternalError>)
        ensures
            final(self).store == old(self).store,
            code_length_read(old(self).store, old(self)@, address, final(self)@, r),
    {
        let code_hash = match self.get_account(address) {
            Ok(account) => account.info.code_hash,
            Err(e) => {
                return Err(e);
            },
        };
        if code_hash == empty_keccak_hash() {
            return Ok(0);
        }
        match self.get_code_metadata(code_hash) {
            Ok(metadata) => Ok(metadata.length as usize),
            Err(e) => Err(e),
        }
    }
}

} // verus!
