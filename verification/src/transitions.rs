//! State transitions: how the cached accounts differ from their baseline.

use crate::account::{
    accounts_view, codes_view, AccountStatus, AccountUpdate, AccountView, CacheDB, Code, CodeView,
    LevmAccount, UpdateView,
};
use crate::database::Database;
use crate::error::{ErrorView, InternalError, VMError};
use crate::hex::{long_form, short_form};
use crate::gen_db::{account_loaded, faulted, DbView, GeneralizedDatabase};
use crate::table::{lemma_walk, lemma_walk_end, Duplicate, Table};
use crate::vm::{known_slot, storage_read, storage_written, VmView};
use crate::word::{Address, H256, U256};
use vstd::prelude::*;

verus! {

/// The baseline of a slot. A destroyed account that came back has no old values.
pub open spec fn old_slot(initial: AccountView, current: AccountView, key: H256) -> U256 {
    if current.status == AccountStatus::DestroyedModified {
        U256 { hi: 0, lo: 0 }
    } else {
        initial.storage[key]
    }
}

/// The cached slots whose value differs from the baseline.
pub open spec fn changed_slots(initial: AccountView, current: AccountView) -> Map<H256, U256> {
    Map::new(
        |k: H256|
            current.storage.contains_key(k) && current.storage[k] != old_slot(initial, current, k),
        |k: H256| current.storage[k],
    )
}

/// How a cached account differs from its baseline.
pub open spec fn update_of(
    address: Address,
    initial: AccountView,
    current: AccountView,
    codes: Map<H256, CodeView>,
) -> UpdateView {
    UpdateView {
        address,
        removed: current.empty() && !initial.empty(),
        info: if initial.info != current.info {
            Some(current.info)
        } else {
            None
        },
        code: if initial.info.code_hash != current.info.code_hash {
            Some(codes[current.info.code_hash])
        } else {
            None
        },
        added_storage: changed_slots(initial, current),
        removed_storage: current.status == AccountStatus::DestroyedModified
            && initial.has_storage,
    }
}

/// Whether an update says anything.
pub open spec fn says_something(update: UpdateView) -> bool {
    ||| update.removed
    ||| update.info is Some
    ||| !update.added_storage.dom().is_empty()
    ||| update.removed_storage
}

/// Why the state transition of a cached account cannot be told.
pub enum Obstacle {
    /// The account has no baseline.
    Baseline,
    /// Its new code is not cached.
    NewCode,
    /// One of its slots has no baseline.
    OldSlot,
}

/// Whether a slot of a cached account should have a baseline and has none.
pub open spec fn unmatched(initial: AccountView, current: AccountView, key: H256) -> bool {
    current.status != AccountStatus::DestroyedModified && current.storage.contains_key(key)
        && !initial.storage.contains_key(key)
}

/// Why a cached account cannot be compared with its baseline.
pub open spec fn obstacle(
    initial: AccountView,
    current: AccountView,
    codes: Map<H256, CodeView>,
) -> Option<Obstacle> {
    if initial.info.code_hash != current.info.code_hash && !codes.contains_key(
        current.info.code_hash,
    ) {
        Some(Obstacle::NewCode)
    } else if exists|k: H256| #[trigger] unmatched(initial, current, k) {
        Some(Obstacle::OldSlot)
    } else {
        None
    }
}

/// What is said of an obstacle. A slot is told apart where `detailed`.
pub open spec fn obstacle_text(
    obstacle: Obstacle,
    address: Address,
    key: H256,
    detailed: bool,
) -> Seq<char> {
    match obstacle {
        Obstacle::Baseline => "Failed to get account "@ + short_form(address.bytes())
            + " from immutable cache"@,
        Obstacle::NewCode => "Failed to get code for account "@ + short_form(address.bytes()),
        Obstacle::OldSlot => if detailed {
            "Failed to get old value from account's initial storage for address: "@ + long_form(
                address.bytes(),
            ) + ". For key: "@ + long_form(key.bytes())
        } else {
            "Failed to get old value from account's initial storage for address: "@ + short_form(
                address.bytes(),
            )
        },
    }
}

/// `e` tells of an obstacle, and of a slot without a baseline where it is that.
pub open spec fn complaint(
    obstacle: Obstacle,
    address: Address,
    initial: AccountView,
    current: AccountView,
    detailed: bool,
    e: ErrorView,
) -> bool {
    exists|key: H256|
        e == ErrorView::Custom(#[trigger] obstacle_text(obstacle, address, key, detailed)) && (
        obstacle is OldSlot ==> unmatched(initial, current, key))
}

fn baseline_error(address: Address) -> (e: InternalError)
    ensures
        forall|key: H256, detailed: bool|
            e@ == ErrorView::Custom(
                #[trigger] obstacle_text(Obstacle::Baseline, address, key, detailed),
            ),
{
    let mut why = "Failed to get account ".to_owned();
    why.append(address.short_text().as_str());
    why.append(" from immutable cache");
    InternalError::Custom(why)
}

fn new_code_error(address: Address) -> (e: InternalError)
    ensures
        forall|key: H256, detailed: bool|
            e@ == ErrorView::Custom(
                #[trigger] obstacle_text(Obstacle::NewCode, address, key, detailed),
            ),
{
    let mut why = "Failed to get code for account ".to_owned();
    why.append(address.short_text().as_str());
    InternalError::Custom(why)
}

fn old_slot_error(address: Address, key: H256, detailed: bool) -> (e: InternalError)
    ensures
        e@ == ErrorView::Custom(obstacle_text(Obstacle::OldSlot, address, key, detailed)),
{
    let mut why =
        "Failed to get old value from account's initial storage for address: ".to_owned();
    if detailed {
        why.append(address.long_text().as_str());
        why.append(". For key: ");
        why.append(key.long_text().as_str());
    } else {
        why.append(address.short_text().as_str());
    }
    InternalError::Custom(why)
}

/// Compares a cached account with its baseline. Nothing comes back where the two
/// agree. Where they cannot be compared, the slot that stands in the way is told apart if
/// `detailed`.
pub fn account_update(
    address: Address,
    initial: &LevmAccount,
    current: &LevmAccount,
    codes: &Table<H256, Code>,
    detailed: bool,
) -> (r: Result<Option<AccountUpdate>, InternalError>)
    ensures
        match r {
            Err(e) => obstacle(initial@, current@, codes_view(codes@)) matches Some(cause)
                && complaint(cause, address, initial@, current@, detailed, e@),
            Ok(found) => {
                let update = update_of(address, initial@, current@, codes_view(codes@));
                &&& obstacle(initial@, current@, codes_view(codes@)) is None
                &&& match found {
                    Some(u) => u@ == update && says_something(update),
                    None => !says_something(update),
                }
            },
        },
{
    let code_changed = initial.info.code_hash != current.info.code_hash;
    let info_changed = initial.info.balance != current.info.balance || initial.info.nonce
        != current.info.nonce || code_changed;
    let code: Option<Code> = if code_changed {
        match codes.get(current.info.code_hash) {
            Some(code) => Some(code.duplicate()),
            None => {
                let e = new_code_error(address);
                assert(e@ == ErrorView::Custom(
                    obstacle_text(Obstacle::NewCode, address, H256 { hi: 0, lo: 0 }, detailed),
                ));
                return Err(e);
            },
        }
    } else {
        None
    };
    let was_destroyed = current.status == AccountStatus::DestroyedModified;
    let removed_storage = was_destroyed && initial.has_storage;
    let mut added_storage: Table<H256, U256> = Table::new();
    let keys = current.storage.keys();
    let mut i: usize = 0;
    while i < keys.len()
        invariant
            i <= keys@.len(),
            keys@.no_duplicates(),
            keys@.to_set() == current@.storage.dom(),
            forall|j: int|
                0 <= j < keys@.len() ==> current@.storage.contains_key(#[trigger] keys@[j]),
            was_destroyed == (current.status == AccountStatus::DestroyedModified),
            initial@.info.code_hash != current@.info.code_hash ==> codes_view(
                codes@,
            ).contains_key(current@.info.code_hash),
            !was_destroyed ==> forall|k: H256| #[trigger]
                keys@.take(i as int).contains(k) ==> initial@.storage.contains_key(k),
            forall|k: H256| #[trigger]
                added_storage@.contains_key(k) <==> keys@.take(i as int).contains(k)
                    && current@.storage[k] != old_slot(initial@, current@, k),
            forall|k: H256| #[trigger]
                added_storage@.contains_key(k) ==> added_storage@[k] == current@.storage[k],
        decreases keys@.len() - i,
    {
        let key = keys[i];
        let ghost before = added_storage@;
        let ghost at = i as int;
        proof {
            lemma_walk(keys@, at, at + 1);
            assert(current@.storage.contains_key(keys@[at]));
        }
        match current.storage.get(key) {
            Some(new_value) => {
                let old_value: U256 = if !was_destroyed {
                    match initial.storage.get(key) {
                        Some(value) => *value,
                        None => {
                            assert(unmatched(initial@, current@, key));
                            return Err(old_slot_error(address, key, detailed));
                        },
                    }
                } else {
                    U256::zero()
                };
                if *new_value != old_value {
                    added_storage.insert(key, *new_value);
                }
            },
            None => {},
        }
        i += 1;
        proof {
            assert forall|k: H256| #[trigger]
                added_storage@.contains_key(k) <==> keys@.take(i as int).contains(k)
                    && current@.storage[k] != old_slot(initial@, current@, k) by {
                assert(before.contains_key(k) <==> keys@.take(at).contains(k)
                    && current@.storage[k] != old_slot(initial@, current@, k));
            }
        }
    }
    proof {
        lemma_walk_end(keys@, current@.storage.dom());
        assert(keys@.take(i as int) =~= keys@.take(keys@.len() as int));
        assert(added_storage@ =~= changed_slots(initial@, current@)) by {
            assert forall|k: H256| added_storage@.contains_key(k) <==> #[trigger] changed_slots(
                initial@,
                current@,
            ).contains_key(k) by {
                assert(added_storage@.contains_key(k) <==> keys@.take(i as int).contains(k)
                    && current@.storage[k] != old_slot(initial@, current@, k));
            }
        }
        if !was_destroyed {
            assert forall|k: H256| !#[trigger] unmatched(initial@, current@, k) by {
                if current@.storage.contains_key(k) {
                    assert(keys@.take(i as int).contains(k));
                }
            }
        }
    }
    let removed = current.is_empty() && !initial.is_empty();
    if !removed && !info_changed && added_storage.is_empty() && !removed_storage {
        return Ok(None);
    }
    Ok(
        Some(
            AccountUpdate {
                address,
                removed,
                info: if info_changed {
                    Some(current.info)
                } else {
                    None
                },
                code,
                added_storage,
                removed_storage,
            },
        ),
    )
}

/// The update that a cached account calls for.
pub open spec fn db_update(db: DbView, address: Address) -> UpdateView {
    update_of(address, db.initial[address], db.current[address], db.codes)
}

/// Whether a cached account was modified and differs from its baseline.
pub open spec fn changed(db: DbView, address: Address) -> bool {
    &&& db.current.contains_key(address)
    &&& db.current[address].status != AccountStatus::Unmodified
    &&& says_something(db_update(db, address))
}

/// Why the state transition of a cached account cannot be told.
pub open spec fn db_obstacle(db: DbView, address: Address) -> Option<Obstacle> {
    if db.current[address].status == AccountStatus::Unmodified {
        None
    } else if !db.initial.contains_key(address) {
        Some(Obstacle::Baseline)
    } else {
        obstacle(db.initial[address], db.current[address], db.codes)
    }
}

/// `e` tells why the state transition of a cached account cannot be told.
pub open spec fn db_complaint(db: DbView, address: Address, detailed: bool, e: VMError) -> bool {
    &&& db.current.contains_key(address)
    &&& db_obstacle(db, address) matches Some(cause) && (e matches VMError::Internal(e)
        && complaint(cause, address, db.initial[address], db.current[address], detailed, e@))
}

/// What a sequence of updates says.
pub open spec fn updates_view(updates: Seq<AccountUpdate>) -> Seq<UpdateView> {
    Seq::new(updates.len(), |i: int| updates[i]@)
}

/// `updates` holds, for each address among `walked` that changed, its update, and
/// nothing else; in some order.
pub open spec fn tells(updates: Seq<UpdateView>, db: DbView, walked: Set<Address>) -> bool {
    &&& forall|i: int|
        0 <= i < updates.len() ==> {
            let a = (#[trigger] updates[i]).address;
            walked.contains(a) && changed(db, a) && updates[i] == db_update(db, a)
        }
    &&& forall|i: int, j: int|
        0 <= i < j < updates.len() ==> (#[trigger] updates[i]).address != (
        #[trigger] updates[j]).address
    &&& forall|a: Address|
        walked.contains(a) && #[trigger] changed(db, a) ==> exists|i: int|
            0 <= i < updates.len() && (#[trigger] updates[i]).address == a
}

/// No cached account stands in the way of telling the transitions.
pub open spec fn unobstructed(db: DbView) -> bool {
    forall|a: Address| #[trigger] db.current.contains_key(a) ==> db_obstacle(db, a) is None
}

proof fn lemma_tells_next(
    updates: Seq<UpdateView>,
    db: DbView,
    walked: Set<Address>,
    address: Address,
    next: Seq<UpdateView>,
)
    requires
        tells(updates, db, walked),
        !walked.contains(address),
        changed(db, address) ==> next == updates.push(db_update(db, address)),
        !changed(db, address) ==> next == updates,
    ensures
        tells(next, db, walked.insert(address)),
{
    assert forall|a: Address|
        walked.insert(address).contains(a) && #[trigger] changed(db, a) implies exists|i: int|
        0 <= i < next.len() && (#[trigger] next[i]).address == a by {
        if a == address {
            assert(next[updates.len() as int].address == a);
        } else {
            let i = choose|i: int| 0 <= i < updates.len() && (#[trigger] updates[i]).address == a;
            assert(next[i].address == a);
        }
    }
}

/// An account of the baseline after the changes of `current` were committed: the slots
/// that were touched have their new value, the others the one they had. A destroyed
/// account keeps nothing of its earlier storage.
pub open spec fn folded(initial: AccountView, current: AccountView) -> AccountView {
    if current.status.destroyed() {
        current
    } else {
        AccountView {
            storage: initial.storage.union_prefer_right(current.storage),
            ..current
        }
    }
}

/// The baseline after the changes of every cached account were committed.
pub open spec fn baseline_after(db: DbView) -> Map<Address, AccountView> {
    Map::new(
        |a: Address| db.initial.contains_key(a),
        |a: Address|
            if changed(db, a) {
                folded(db.initial[a], db.current[a])
            } else {
                db.initial[a]
            },
    )
}

/// A baseline in which some of the changes were committed.
pub open spec fn baseline_between(db: DbView, initial: Map<Address, AccountView>) -> bool {
    &&& initial.dom() =~= db.initial.dom()
    &&& forall|a: Address| #[trigger]
        initial.contains_key(a) ==> initial[a] == db.initial[a] || (changed(db, a) && initial[a]
            == folded(db.initial[a], db.current[a]))
}

impl<D: Database> GeneralizedDatabase<D> {
    /// The updates that lead from the baseline to the cached accounts. The caches are
    /// emptied. Where an account cannot be compared nothing is changed.
    pub fn get_state_transitions(&mut self) -> (r: Result<Vec<AccountUpdate>, VMError>)
        ensures
            final(self).store == old(self).store,
            r is Ok <==> unobstructed(old(self)@),
            match r {
                Ok(updates) => {
                    &&& tells(updates_view(updates@), old(self)@, old(self)@.current.dom())
                    &&& final(self)@ == (DbView {
                        current: Map::empty(),
                        initial: Map::empty(),
                        codes: Map::empty(),
                        metadata: Map::empty(),
                        ..old(self)@
                    })
                },
                Err(e) => {
                    &&& final(self)@ == old(self)@
                    &&& exists|a: Address| #[trigger] db_complaint(old(self)@, a, true, e)
                },
            },
    {
        let mut updates: Vec<AccountUpdate> = Vec::new();
        let keys = self.current_accounts_state.key_list();
        let mut i: usize = 0;
        proof {
            assert(tells(updates_view(updates@), self@, keys@.take(0).to_set()));
        }
        while i < keys.len()
            invariant
                i <= keys@.len(),
                keys@.no_duplicates(),
                keys@.to_set() == self@.current.dom(),
                forall|j: int|
                    0 <= j < keys@.len() ==> self@.current.contains_key(#[trigger] keys@[j]),
                *self == *old(self),
                forall|a: Address| #[trigger]
                    keys@.take(i as int).contains(a) ==> db_obstacle(self@, a) is None,
                tells(updates_view(updates@), self@, keys@.take(i as int).to_set()),
            decreases keys@.len() - i,
        {
            let address = keys[i];
            let ghost at = i as int;
            let ghost before = updates_view(updates@);
            proof {
                lemma_walk(keys@, at, at + 1);
                assert(self@.current.contains_key(keys@[at]));
                assert(keys@.take(at + 1).to_set() =~= keys@.take(at).to_set().insert(address));
            }
            match self.current_accounts_state.get(address) {
                Some(account) => {
                    if !account.is_unmodified() {
                        match self.initial_accounts_state.get(address) {
                            Some(initial) => match account_update(
                                address,
                                initial,
                                account,
                                &self.codes,
                                true,
                            ) {
                                Ok(Some(update)) => {
                                    updates.push(update);
                                    assert(updates_view(updates@) =~= before.push(update@));
                                },
                                Ok(None) => {},
                                Err(e) => {
                                    assert(db_complaint(
                                        self@,
                                        address,
                                        true,
                                        VMError::Internal(e),
                                    ));
                                    return Err(VMError::Internal(e));
                                },
                            },
                            None => {
                                let e = baseline_error(address);
                                assert(e@ == ErrorView::Custom(
                                    obstacle_text(
                                        Obstacle::Baseline,
                                        address,
                                        H256 { hi: 0, lo: 0 },
                                        true,
                                    ),
                                ));
                                assert(db_complaint(self@, address, true, VMError::Internal(e)));
                                return Err(VMError::Internal(e));
                            },
                        }
                    }
                },
                None => {},
            }
            i += 1;
            proof {
                lemma_tells_next(
                    before,
                    self@,
                    keys@.take(at).to_set(),
                    address,
                    updates_view(updates@),
                );
            }
        }
        proof {
            lemma_walk_end(keys@, self@.current.dom());
            assert(keys@.take(i as int) =~= keys@);
            assert forall|a: Address| #[trigger] self@.current.contains_key(a) implies db_obstacle(
                self@,
                a,
            ) is None by {
                assert(keys@.take(i as int).contains(a));
            }
        }
        self.initial_accounts_state.clear();
        self.current_accounts_state.clear();
        self.codes.clear();
        self.code_metadata.clear();
        assert(self@ =~= (DbView {
            current: Map::empty(),
            initial: Map::empty(),
            codes: Map::empty(),
            metadata: Map::empty(),
            ..old(self)@
        }));
        Ok(updates)
    }

    /// Commits what a cached account holds to its baseline.
    fn fold(&mut self, address: Address, account: LevmAccount)
        requires
            old(self)@.initial.contains_key(address),
        ensures
            final(self).store == old(self).store,
            final(self)@ == (DbView {
                initial: old(self)@.initial.insert(
                    address,
                    folded(old(self)@.initial[address], account@),
                ),
                ..old(self)@
            }),
    {
        if account.status.is_destroyed() {
            self.initial_accounts_state.insert(address, account);
        } else {
            match self.initial_accounts_state.get_mut(address) {
                Some(initial) => {
                    initial.info = account.info;
                    initial.status = account.status;
                    initial.has_storage = account.has_storage;
                    initial.exists = account.exists;
                    initial.storage.extend_from(&account.storage);
                },
                None => {},
            }
        }
        assert(self@ =~= (DbView {
            initial: old(self)@.initial.insert(
                address,
                folded(old(self)@.initial[address], account@),
            ),
            ..old(self)@
        }));
    }

    /// The updates that lead from the baseline to the cached accounts. The cache of
    /// accounts is emptied and the changes become part of the baseline. Where an
    /// account cannot be compared, the cache is emptied all the same, and which changes
    /// are part of the baseline by then is left open.
    pub fn get_state_transitions_tx(&mut self) -> (r: Result<Vec<AccountUpdate>, VMError>)
        ensures
            final(self).store == old(self).store,
            r is Ok <==> unobstructed(old(self)@),
            final(self)@ == (DbView {
                current: Map::empty(),
                initial: final(self)@.initial,
                ..old(self)@
            }),
            match r {
                Ok(updates) => {
                    &&& tells(updates_view(updates@), old(self)@, old(self)@.current.dom())
                    &&& final(self)@.initial == baseline_after(old(self)@)
                },
                Err(e) => {
                    &&& baseline_between(old(self)@, final(self)@.initial)
                    &&& exists|a: Address| #[trigger] db_complaint(old(self)@, a, false, e)
                },
            },
    {
        let ghost db = self@;
        let mut updates: Vec<AccountUpdate> = Vec::new();
        let mut drained: CacheDB = Table::new();
        std::mem::swap(&mut self.current_accounts_state, &mut drained);
        let keys = drained.key_list();
        let mut i: usize = 0;
        proof {
            assert(tells(updates_view(updates@), db, keys@.take(0).to_set()));
            assert(accounts_view(drained@) =~= db.current);
            assert(self@.current =~= Map::empty());
        }
        while i < keys.len()
            invariant
                i <= keys@.len(),
                db == old(self)@,
                keys@.no_duplicates(),
                keys@.to_set() == db.current.dom(),
                forall|j: int|
                    0 <= j < keys@.len() ==> db.current.contains_key(#[trigger] keys@[j]),
                self.store == old(self).store,
                self@ =~= (DbView { current: Map::empty(), initial: self@.initial, ..db }),
                forall|a: Address| #[trigger]
                    accounts_view(drained@).contains_key(a) <==> db.current.contains_key(a)
                        && !keys@.take(i as int).contains(a),
                forall|a: Address| #[trigger]
                    accounts_view(drained@).contains_key(a) ==> accounts_view(drained@)[a]
                        == db.current[a],
                forall|a: Address| #[trigger]
                    keys@.take(i as int).contains(a) ==> db_obstacle(db, a) is None,
                tells(updates_view(updates@), db, keys@.take(i as int).to_set()),
                self@.initial.dom() =~= db.initial.dom(),
                forall|a: Address| #[trigger]
                    self@.initial.contains_key(a) ==> self@.initial[a] == if keys@.take(
                        i as int,
                    ).contains(a) && changed(db, a) {
                        folded(db.initial[a], db.current[a])
                    } else {
                        db.initial[a]
                    },
            decreases keys@.len() - i,
        {
            let address = keys[i];
            let ghost at = i as int;
            let ghost before = updates_view(updates@);
            let ghost held = accounts_view(drained@);
            let ghost baseline = self@.initial;
            proof {
                lemma_walk(keys@, at, at + 1);
                assert(db.current.contains_key(keys@[at]));
                assert(keys@.take(at + 1).to_set() =~= keys@.take(at).to_set().insert(address));
                assert(held.contains_key(address));
                assert(baseline.dom().contains(address) == db.initial.dom().contains(address));
            }
            match drained.remove(address) {
                Some(account) => {
                    assert(account@ == db.current[address]);
                    if !account.is_unmodified() {
                        let found = match self.initial_accounts_state.get(address) {
                            Some(initial) => {
                                assert(initial@ == baseline[address]);
                                account_update(address, initial, &account, &self.codes, false)
                            },
                            None => {
                                let e = baseline_error(address);
                                assert(e@ == ErrorView::Custom(
                                    obstacle_text(
                                        Obstacle::Baseline,
                                        address,
                                        H256 { hi: 0, lo: 0 },
                                        false,
                                    ),
                                ));
                                Err(e)
                            },
                        };
                        match found {
                            Ok(Some(update)) => {
                                self.fold(address, account);
                                updates.push(update);
                                assert(updates_view(updates@) =~= before.push(update@));
                            },
                            Ok(None) => {},
                            Err(e) => {
                                assert(db_complaint(db, address, false, VMError::Internal(e)));
                                return Err(VMError::Internal(e));
                            },
                        }
                    }
                },
                None => {},
            }
            i += 1;
            proof {
                assert(accounts_view(drained@) =~= held.remove(address));
                lemma_tells_next(
                    before,
                    db,
                    keys@.take(at).to_set(),
                    address,
                    updates_view(updates@),
                );
                assert forall|a: Address| #[trigger]
                    self@.initial.contains_key(a) implies self@.initial[a] == if keys@.take(
                    i as int,
                ).contains(a) && changed(db, a) {
                    folded(db.initial[a], db.current[a])
                } else {
                    db.initial[a]
                } by {
                    assert(baseline.contains_key(a));
                }
            }
        }
        proof {
            lemma_walk_end(keys@, db.current.dom());
            assert(keys@.take(i as int) =~= keys@);
            assert forall|a: Address| #[trigger] db.current.contains_key(a) implies db_obstacle(
                db,
                a,
            ) is None by {
                assert(keys@.take(i as int).contains(a));
            }
            assert(self@.initial =~= baseline_after(db));
        }
        Ok(updates)
    }
}

/// A cached account can be compared with its baseline: every cached slot has one, an
/// account that was only read agrees with it, and one that was destroyed stays so.
pub open spec fn comparable(initial: AccountView, current: AccountView) -> bool {
    &&& initial.status.destroyed() ==> current.status.destroyed()
    &&& current.status == AccountStatus::Unmodified ==> current.info == initial.info
    &&& current.status != AccountStatus::DestroyedModified ==> forall|k: H256| #[trigger]
        current.storage.contains_key(k) ==> initial.storage.contains_key(k)
    &&& current.status == AccountStatus::Unmodified ==> forall|k: H256| #[trigger]
        current.storage.contains_key(k) ==> current.storage[k] == initial.storage[k]
}

/// Every cached account has a baseline that it can be compared with.
pub open spec fn baselined(db: DbView) -> bool {
    &&& !db.skip
    &&& db.lazy is None
    &&& forall|a: Address| #[trigger]
        db.current.contains_key(a) ==> db.initial.contains_key(a) && comparable(
            db.initial[a],
            db.current[a],
        )
}

/// Where every cached account has its baseline and every new code is cached, the
/// transitions can be told.
pub proof fn law_baselined_transitions_can_be_told(db: DbView)
    requires
        baselined(db),
        forall|a: Address| #[trigger]
            db.current.contains_key(a) ==> db.initial[a].info.code_hash
                == db.current[a].info.code_hash || db.codes.contains_key(
                db.current[a].info.code_hash,
            ),
    ensures
        unobstructed(db),
{
}

/// Loading an account keeps the baselines.
pub proof fn law_load_keeps_baselined<D: Database>(
    store: D,
    db: DbView,
    address: Address,
    loaded: DbView,
    error: Option<ErrorView>,
)
    requires
        baselined(db),
        account_loaded(store, db, address, loaded, error),
    ensures
        baselined(loaded),
{
}

/// Reading a slot keeps the baselines.
pub proof fn law_storage_read_keeps_baselined<D: Database>(
    store: D,
    db: DbView,
    address: Address,
    key: H256,
    after: DbView,
    r: Result<U256, InternalError>,
)
    requires
        baselined(db),
        storage_read(store, db, address, key, after, r),
    ensures
        baselined(after),
{
}

/// Writing a slot that was read before keeps the baselines, and so does writing any slot of
/// an account that was destroyed and came back.
pub proof fn law_storage_write_keeps_baselined<D: Database>(
    store: D,
    before: VmView,
    address: Address,
    key: H256,
    slot: U256,
    new: U256,
    current: U256,
    after: VmView,
    r: Result<(), InternalError>,
)
    requires
        baselined(before.db),
        before.db.current.contains_key(address),
        before.db.current[address].storage.contains_key(key) || before.db.current[address].status
            == AccountStatus::DestroyedModified,
        storage_written(store, before, address, key, slot, new, current, after, r),
    ensures
        baselined(after.db),
{
}

/// What a slot of an address holds, as far as it can be told without the store.
pub open spec fn told_slot(db: DbView, address: Address, key: H256) -> Option<U256> {
    match known_slot(db, address, key) {
        Some((value, _)) => Some(value),
        None => None,
    }
}

/// Committing the cache to the baseline changes no value that can be told: once the
/// account is loaded again, its slots hold what they held. Left out are accounts that
/// were destroyed and not changed since, and accounts that came back from that without
/// differing from their baseline.
pub proof fn law_commit_keeps_values<D: Database>(
    store: D,
    db: DbView,
    committed: DbView,
    address: Address,
    again: DbView,
    error: Option<ErrorView>,
    key: H256,
)
    requires
        baselined(db),
        db.current.contains_key(address),
        db.current[address].status != AccountStatus::Destroyed,
        db.current[address].status == AccountStatus::DestroyedModified ==> changed(db, address),
        committed == (DbView { current: Map::empty(), initial: baseline_after(db), ..db }),
        account_loaded(store, committed, address, again, error),
        told_slot(db, address, key) is Some,
    ensures
        error is None,
        again.current.contains_key(address),
        again.current[address].info == db.current[address].info,
        told_slot(again, address, key) == told_slot(db, address, key),
{
    let initial = db.initial[address];
    let current = db.current[address];
    if changed(db, address) {
        assert(committed.initial[address] == folded(initial, current));
    } else {
        assert(committed.initial[address] == initial);
        if current.status != AccountStatus::Unmodified {
            let update = db_update(db, address);
            assert(update.added_storage.dom().is_empty());
            assert(!update.added_storage.dom().contains(key));
        }
    }
    assert(again.current[address] == faulted(committed.initial[address]));
}

} // verus!
