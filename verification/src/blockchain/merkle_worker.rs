//! One of the sixteen workers that bring the state trie up to date.
//!
//! The accounts of a block are dealt out by the first nibble of their hashed address,
//! and the storage slots of each account by the first nibble of their hashed key: the
//! worker that holds an account sends the slots of the others to them, and each worker
//! sends the part of the storage trie that it holds, a shard, back to the holder of the
//! account. The holder knows from which workers shards are to come, and takes the new
//! storage root into the account once all of them are there.
//!
//! A worker decides here what is to be done to the tries and what is to be sent; whoever
//! drives it holds the tries and the channels.

use crate::account::{empty_trie_hash, AccountInfo, AccountState};
use crate::blockchain::assembly::{slot_write, write_of, SlotWrite};
use crate::table::Table;
use crate::word::{H256, U256};
use vstd::prelude::*;

verus! {

/// How many workers there are.
pub const WORKERS: u8 = 16;

/// A message to another worker.
#[derive(Copy, Clone, PartialEq, Eq, Structural, Debug)]
pub enum Outgoing {
    /// A slot that the other worker holds.
    MerklizeStorage { prefix: H256, key: H256, value: U256, storage_root: H256 },
    /// All storage of an account is gone.
    DeleteStorage(H256),
    /// This worker sends no more slots.
    RoutingDone { from: u8 },
}

/// What is to be done.
#[derive(Copy, Clone, PartialEq, Eq, Structural, Debug)]
pub enum Effect {
    /// The account is written back as it was found, which brings its path into memory.
    TouchAccount { prefix: H256 },
    PutAccount { prefix: H256, state: AccountState },
    RemoveAccount { prefix: H256 },
    /// The storage trie is replaced by an empty one, and what was collected of it is
    /// dropped.
    ResetStorage { prefix: H256 },
    /// A slot is written or removed in the storage trie, which is opened at the given root
    /// where it is not open.
    WriteSlot { prefix: H256, write: SlotWrite, storage_root: H256 },
    Send { to: u8, message: Outgoing },
}

/// What is to be done to one account.
pub struct ProcessAccount {
    /// The hashed address.
    pub prefix: H256,
    pub info: Option<AccountInfo>,
    /// The slots with their hashed keys.
    pub storage: Vec<(H256, U256)>,
    pub removed: bool,
    pub removed_storage: bool,
}

/// Whether a worker belongs to a set of workers.
pub open spec fn has_worker(mask: u16, worker: u8) -> bool {
    (mask >> worker) & 1 == 1
}

/// The set with one more worker.
pub open spec fn with_worker(mask: u16, worker: u8) -> u16 {
    mask | (1u16 << worker)
}

/// The set of all workers.
pub const ALL_WORKERS: u16 = 0xffff;

/// A set with one more worker holds that one and those it held.
pub proof fn law_worker_set(mask: u16, worker: u8, other: u8)
    requires
        worker < WORKERS,
        other < WORKERS,
    ensures
        has_worker(with_worker(mask, worker), other) == (has_worker(mask, other) || other
            == worker),
        has_worker(ALL_WORKERS, other),
        !has_worker(0, other),
        with_worker(mask, worker) != 0,
{
    assert((((mask | (1u16 << worker)) >> other) & 1 == 1) == (((mask >> other) & 1 == 1) || other
        == worker)) by (bit_vector)
        requires
            worker < 16,
            other < 16,
    ;
    assert((0xffffu16 >> other) & 1 == 1) by (bit_vector)
        requires
            other < 16,
    ;
    assert((0u16 >> other) & 1 != 1) by (bit_vector);
    assert((mask | (1u16 << worker)) != 0) by (bit_vector)
        requires
            worker < 16,
    ;
}

/// Two sets with the same workers are equal.
pub proof fn law_worker_sets_equal(a: u16, b: u16)
    requires
        forall|w: u8| w < WORKERS ==> (#[trigger] has_worker(a, w) == has_worker(b, w)),
    ensures
        a == b,
{
    assert(has_worker(a, 0) == has_worker(b, 0));
    assert(has_worker(a, 1) == has_worker(b, 1));
    assert(has_worker(a, 2) == has_worker(b, 2));
    assert(has_worker(a, 3) == has_worker(b, 3));
    assert(has_worker(a, 4) == has_worker(b, 4));
    assert(has_worker(a, 5) == has_worker(b, 5));
    assert(has_worker(a, 6) == has_worker(b, 6));
    assert(has_worker(a, 7) == has_worker(b, 7));
    assert(has_worker(a, 8) == has_worker(b, 8));
    assert(has_worker(a, 9) == has_worker(b, 9));
    assert(has_worker(a, 10) == has_worker(b, 10));
    assert(has_worker(a, 11) == has_worker(b, 11));
    assert(has_worker(a, 12) == has_worker(b, 12));
    assert(has_worker(a, 13) == has_worker(b, 13));
    assert(has_worker(a, 14) == has_worker(b, 14));
    assert(has_worker(a, 15) == has_worker(b, 15));
    assert(a == b) by (bit_vector)
        requires
            ((a >> 0u8) & 1 == 1) == ((b >> 0u8) & 1 == 1),
            ((a >> 1u8) & 1 == 1) == ((b >> 1u8) & 1 == 1),
            ((a >> 2u8) & 1 == 1) == ((b >> 2u8) & 1 == 1),
            ((a >> 3u8) & 1 == 1) == ((b >> 3u8) & 1 == 1),
            ((a >> 4u8) & 1 == 1) == ((b >> 4u8) & 1 == 1),
            ((a >> 5u8) & 1 == 1) == ((b >> 5u8) & 1 == 1),
            ((a >> 6u8) & 1 == 1) == ((b >> 6u8) & 1 == 1),
            ((a >> 7u8) & 1 == 1) == ((b >> 7u8) & 1 == 1),
            ((a >> 8u8) & 1 == 1) == ((b >> 8u8) & 1 == 1),
            ((a >> 9u8) & 1 == 1) == ((b >> 9u8) & 1 == 1),
            ((a >> 10u8) & 1 == 1) == ((b >> 10u8) & 1 == 1),
            ((a >> 11u8) & 1 == 1) == ((b >> 11u8) & 1 == 1),
            ((a >> 12u8) & 1 == 1) == ((b >> 12u8) & 1 == 1),
            ((a >> 13u8) & 1 == 1) == ((b >> 13u8) & 1 == 1),
            ((a >> 14u8) & 1 == 1) == ((b >> 14u8) & 1 == 1),
            ((a >> 15u8) & 1 == 1) == ((b >> 15u8) & 1 == 1),
    ;
}

fn add_worker(mask: u16, worker: u8) -> (m: u16)
    requires
        worker < WORKERS,
    ensures
        m == with_worker(mask, worker),
{
    mask | (1u16 << worker)
}

fn holds_worker(mask: u16, worker: u8) -> (b: bool)
    requires
        worker < WORKERS,
    ensures
        b == has_worker(mask, worker),
{
    (mask >> worker) & 1 == 1
}

/// A worker.
pub struct SubtrieWorker {
    /// Which of the sixteen it is.
    pub index: u8,
    /// The accounts that it holds.
    pub accounts: Table<H256, AccountState>,
    /// The workers that shards are to come from, by account.
    pub expected_shards: Table<H256, u16>,
    /// The workers that shards have come from, by account.
    pub received_shards: Table<H256, u16>,
    /// How many accounts wait for shards.
    pub pending_storage_accounts: usize,
    /// The account whose shards are all there and whose storage root is being computed.
    pub resolving: Option<H256>,
    /// The storage tries that are open.
    pub storage_tries: Table<H256, ()>,
    /// The storage tries that are still to be sent.
    pub storage_to_collect: Vec<H256>,
    /// The state was asked for before it was ready.
    pub pending_collect: bool,
    /// Something was changed since the tries were last collected.
    pub dirty: bool,
    /// The storage tries are being sent.
    pub collecting_storages: bool,
    /// Every worker has said that it sends no more slots.
    pub routing_complete: bool,
    pub routing_done_mask: u16,
}

/// What a worker holds.
#[verifier::ext_equal]
pub struct WorkerView {
    pub index: u8,
    pub accounts: Map<H256, AccountState>,
    pub expected: Map<H256, u16>,
    pub received: Map<H256, u16>,
    pub pending: nat,
    pub resolving: Option<H256>,
    pub open: Set<H256>,
    pub to_collect: Seq<H256>,
    pub asked: bool,
    pub dirty: bool,
    pub collecting: bool,
    pub routed: bool,
    pub done_mask: u16,
}

impl View for SubtrieWorker {
    type V = WorkerView;

    open spec fn view(&self) -> WorkerView {
        WorkerView {
            index: self.index,
            accounts: self.accounts@,
            expected: self.expected_shards@,
            received: self.received_shards@,
            pending: self.pending_storage_accounts as nat,
            resolving: self.resolving,
            open: self.storage_tries@.dom(),
            to_collect: self.storage_to_collect@,
            asked: self.pending_collect,
            dirty: self.dirty,
            collecting: self.collecting_storages,
            routed: self.routing_complete,
            done_mask: self.routing_done_mask,
        }
    }
}

impl WorkerView {
    /// The accounts that wait for shards.
    pub open spec fn waiting(self) -> Set<H256> {
        Set::new(
            |p: H256|
                self.expected.contains_key(p) && !(self.received.contains_key(p)
                    && self.received[p] == self.expected[p]),
        )
    }

    /// Whether the state can be handed over.
    pub open spec fn ready(self) -> bool {
        self.pending == 0 && !self.collecting && self.routed
    }

    /// Whether accounts may still be handed to the worker, which can still send slots on.
    pub open spec fn sends(self) -> bool {
        !(self.routed && !self.collecting)
    }

    /// Whether a shard of an account is to come from a worker.
    pub open spec fn awaits(self, prefix: H256, from: u8) -> bool {
        &&& from < WORKERS
        &&& self.expected.contains_key(prefix)
        &&& has_worker(self.expected[prefix], from)
        &&& !(self.received.contains_key(prefix) && has_worker(self.received[prefix], from))
    }

    /// A worker is one of sixteen, holds the accounts that it awaits shards for, counts
    /// them, and has handed the state over if it was asked for and ready.
    pub open spec fn wf(self) -> bool {
        &&& self.index < WORKERS
        &&& self.expected.dom().finite()
        &&& forall|p: H256| #[trigger]
            self.expected.contains_key(p) ==> self.accounts.contains_key(p) && self.expected[p]
                != 0
        &&& self.pending == self.waiting().len() + if self.resolving is Some {
            1nat
        } else {
            0
        }
        &&& self.resolving matches Some(p) ==> self.expected.contains_key(p)
            && !self.waiting().contains(p)
        &&& !(self.asked && self.ready())
    }
}

/// The account that a worker holds, or the one that its trie gave, empty where it gave
/// none.
pub open spec fn held_account(
    worker: WorkerView,
    prefix: H256,
    loaded: Option<AccountState>,
) -> AccountState {
    if worker.accounts.contains_key(prefix) {
        worker.accounts[prefix]
    } else {
        match loaded {
            Some(state) => state,
            None => AccountState::blank(),
        }
    }
}

/// An account with the fields of `info`.
pub open spec fn informed(account: AccountState, info: Option<AccountInfo>) -> AccountState {
    match info {
        Some(info) => AccountState {
            nonce: info.nonce,
            balance: info.balance,
            code_hash: info.code_hash,
            storage_root: account.storage_root,
        },
        None => account,
    }
}

/// Writes an account to the trie: an empty one is removed.
pub open spec fn write_account(prefix: H256, state: AccountState) -> Effect {
    if state != AccountState::blank() {
        Effect::PutAccount { prefix, state }
    } else {
        Effect::RemoveAccount { prefix }
    }
}

/// The messages that tell all other workers, from `from` on, that the storage of an
/// account is gone.
pub open spec fn deletions(prefix: H256, index: u8, from: int) -> Seq<Effect>
    decreases 16 - from,
{
    if from >= 16 {
        Seq::empty()
    } else {
        (if from == index {
            Seq::empty()
        } else {
            seq![Effect::Send { to: from as u8, message: Outgoing::DeleteStorage(prefix) }]
        }) + deletions(prefix, index, from + 1)
    }
}

/// What is done with a slot: it is written here, or sent to the worker that holds it.
pub open spec fn slot_effect(index: u8, prefix: H256, root: H256, slot: (H256, U256)) -> Effect {
    if slot.0.nibble() == index {
        Effect::WriteSlot { prefix, write: write_of(slot), storage_root: root }
    } else {
        Effect::Send {
            to: slot.0.nibble() as u8,
            message: Outgoing::MerklizeStorage {
                prefix,
                key: slot.0,
                value: slot.1,
                storage_root: root,
            },
        }
    }
}

/// What is done with slots.
pub open spec fn slot_effects(
    index: u8,
    prefix: H256,
    root: H256,
    slots: Seq<(H256, U256)>,
) -> Seq<Effect> {
    Seq::new(slots.len(), |i: int| slot_effect(index, prefix, root, slots[i]))
}

/// The workers that hold slots, added to a set.
pub open spec fn holders(mask: u16, slots: Seq<(H256, U256)>) -> u16
    decreases slots.len(),
{
    if slots.len() == 0 {
        mask
    } else {
        with_worker(holders(mask, slots.drop_last()), slots.last().0.nibble() as u8)
    }
}

/// What is done about an account before its slots are looked at.
pub open spec fn account_effects(
    worker: WorkerView,
    request: ProcessAccount,
    loaded: Option<AccountState>,
) -> Seq<Effect> {
    let account = informed(held_account(worker, request.prefix, loaded), request.info);
    (if !worker.accounts.contains_key(request.prefix) && loaded is Some {
        seq![Effect::TouchAccount { prefix: request.prefix }]
    } else {
        Seq::empty()
    }) + (if request.info is Some {
        seq![write_account(request.prefix, account)]
    } else {
        Seq::empty()
    }) + (if request.removed || request.removed_storage {
        seq![Effect::ResetStorage { prefix: request.prefix }] + deletions(
            request.prefix,
            worker.index,
            0,
        )
    } else {
        Seq::empty()
    })
}

/// The account after a request, its storage root not yet brought up to date.
pub open spec fn account_after(
    worker: WorkerView,
    request: ProcessAccount,
    loaded: Option<AccountState>,
) -> AccountState {
    let account = informed(held_account(worker, request.prefix, loaded), request.info);
    if request.removed || request.removed_storage {
        AccountState { storage_root: crate::account::empty_trie(), ..account }
    } else {
        account
    }
}

/// The slots of a request that count: none of a removed account.
pub open spec fn slots_of(request: ProcessAccount) -> Seq<(H256, U256)> {
    if request.removed {
        Seq::empty()
    } else {
        request.storage@
    }
}

/// What is done about an account.
pub open spec fn process_effects(
    worker: WorkerView,
    request: ProcessAccount,
    loaded: Option<AccountState>,
) -> Seq<Effect> {
    account_effects(worker, request, loaded) + slot_effects(
        worker.index,
        request.prefix,
        account_after(worker, request, loaded).storage_root,
        slots_of(request),
    )
}

/// The workers that shards are to come from after a request: all of them where the
/// storage is gone, and the holders of the slots.
pub open spec fn expected_after(worker: WorkerView, request: ProcessAccount) -> Map<H256, u16> {
    let before = if request.removed || request.removed_storage {
        worker.expected.insert(request.prefix, ALL_WORKERS)
    } else {
        worker.expected
    };
    if slots_of(request).len() == 0 {
        before
    } else {
        before.insert(
            request.prefix,
            holders(
                if before.contains_key(request.prefix) {
                    before[request.prefix]
                } else {
                    0
                },
                slots_of(request),
            ),
        )
    }
}

/// Whether a request opens a storage trie with this worker.
pub open spec fn opens_here(index: u8, request: ProcessAccount) -> bool {
    ||| request.removed
    ||| request.removed_storage
    ||| exists|i: int|
        0 <= i < slots_of(request).len() && (#[trigger] slots_of(request)[i]).0.nibble() == index
}

/// The worker after a request.
pub open spec fn processed(
    worker: WorkerView,
    request: ProcessAccount,
    loaded: Option<AccountState>,
) -> WorkerView {
    let expected = expected_after(worker, request);
    WorkerView {
        accounts: worker.accounts.insert(
            request.prefix,
            account_after(worker, request, loaded),
        ),
        expected,
        pending: if expected.contains_key(request.prefix) && !worker.expected.contains_key(
            request.prefix,
        ) {
            worker.pending + 1
        } else {
            worker.pending
        },
        open: if opens_here(worker.index, request) {
            worker.open.insert(request.prefix)
        } else {
            worker.open
        },
        dirty: true,
        ..worker
    }
}

/// The holders of slots are those of the set and the workers of the slots.
pub proof fn lemma_holders(mask: u16, slots: Seq<(H256, U256)>, worker: u8)
    requires
        worker < WORKERS,
    ensures
        has_worker(holders(mask, slots), worker) == (has_worker(mask, worker) || exists|i: int|
            0 <= i < slots.len() && (#[trigger] slots[i]).0.nibble() == worker),
        slots.len() > 0 ==> holders(mask, slots) != 0,
    decreases slots.len(),
{
    if slots.len() > 0 {
        let rest = slots.drop_last();
        let last = slots.last().0.nibble() as u8;
        assert(0 <= slots.last().0.nibble() < 16);
        lemma_holders(mask, rest, worker);
        law_worker_set(holders(mask, rest), last, worker);
        if exists|i: int| 0 <= i < rest.len() && (#[trigger] rest[i]).0.nibble() == worker {
            let i = choose|i: int| 0 <= i < rest.len() && (#[trigger] rest[i]).0.nibble() == worker;
            assert(slots[i].0.nibble() == worker);
        }
        if last == worker {
            assert(slots[slots.len() - 1].0.nibble() == worker);
        }
        if exists|i: int| 0 <= i < slots.len() && (#[trigger] slots[i]).0.nibble() == worker {
            let i = choose|i: int|
                0 <= i < slots.len() && (#[trigger] slots[i]).0.nibble() == worker;
            if i < rest.len() {
                assert(rest[i].0.nibble() == worker);
            }
        }
    }
}

impl SubtrieWorker {
    pub fn new(index: u8) -> (w: SubtrieWorker)
        requires
            index < WORKERS,
        ensures
            w@ == (WorkerView {
                index,
                accounts: Map::empty(),
                expected: Map::empty(),
                received: Map::empty(),
                pending: 0,
                resolving: None,
                open: Set::empty(),
                to_collect: Seq::empty(),
                asked: false,
                dirty: false,
                collecting: false,
                routed: false,
                done_mask: 0,
            }),
            w@.wf(),
    {
        let w = SubtrieWorker {
            index,
            accounts: Table::new(),
            expected_shards: Table::new(),
            received_shards: Table::new(),
            pending_storage_accounts: 0,
            resolving: None,
            storage_tries: Table::new(),
            storage_to_collect: Vec::new(),
            pending_collect: false,
            dirty: false,
            collecting_storages: false,
            routing_complete: false,
            routing_done_mask: 0,
        };
        proof {
            assert(w@.open =~= Set::empty());
            assert(w@.waiting() =~= Set::empty());
        }
        w
    }

    /// Whether the account has to be looked up in the trie before a request for it.
    pub fn must_load(&self, prefix: H256) -> (b: bool)
        ensures
            b == !self@.accounts.contains_key(prefix),
    {
        !self.accounts.contains_key(prefix)
    }

    /// Whether accounts may still be handed to the worker.
    pub fn can_send(&self) -> (b: bool)
        ensures
            b == self@.sends(),
    {
        !self.routing_complete || self.collecting_storages
    }

    /// Whether an account may be handed to the worker: it can still send slots on, and no
    /// shard of the account has come yet.
    pub fn takes_account(&self, prefix: H256) -> (b: bool)
        ensures
            b == (self@.sends() && !self@.received.contains_key(prefix)),
    {
        self.can_send() && !self.received_shards.contains_key(prefix)
    }

    /// Whether a shard of an account is to come from a worker.
    pub fn awaits(&self, prefix: H256, from: u8) -> (b: bool)
        ensures
            b == self@.awaits(prefix, from),
    {
        if from >= WORKERS {
            return false;
        }
        let expected = match self.expected_shards.get(prefix) {
            Some(mask) => holds_worker(*mask, from),
            None => false,
        };
        let received = match self.received_shards.get(prefix) {
            Some(mask) => holds_worker(*mask, from),
            None => false,
        };
        expected && !received
    }

    /// Tells all other workers that the storage of an account is gone.
    fn push_deletions(&self, prefix: H256, effects: &mut Vec<Effect>)
        ensures
            final(effects)@ == old(effects)@ + deletions(prefix, self.index, 0),
    {
        let mut i: u8 = 0;
        while i < WORKERS
            invariant
                i <= WORKERS,
                old(effects)@ + deletions(prefix, self.index, 0) =~= effects@ + deletions(
                    prefix,
                    self.index,
                    i as int,
                ),
            decreases WORKERS - i,
        {
            if i != self.index {
                effects.push(Effect::Send { to: i, message: Outgoing::DeleteStorage(prefix) });
            }
            i += 1;
        }
    }

    /// Deals the slots of an account out, from which workers shards are then to come.
    fn deal_slots(
        &mut self,
        prefix: H256,
        root: H256,
        slots: &Vec<(H256, U256)>,
        effects: &mut Vec<Effect>,
    )
        requires
            old(self).index < WORKERS,
            slots@.len() > 0,
        ensures
            final(effects)@ == old(effects)@ + slot_effects(
                old(self).index,
                prefix,
                root,
                slots@,
            ),
            final(self)@ == (WorkerView {
                expected: old(self)@.expected.insert(
                    prefix,
                    holders(
                        if old(self)@.expected.contains_key(prefix) {
                            old(self)@.expected[prefix]
                        } else {
                            0
                        },
                        slots@,
                    ),
                ),
                open: if exists|i: int|
                    0 <= i < slots@.len() && (#[trigger] slots@[i]).0.nibble() == old(self).index {
                    old(self)@.open.insert(prefix)
                } else {
                    old(self)@.open
                },
                ..old(self)@
            }),
    {
        let before: u16 = match self.expected_shards.get(prefix) {
            Some(mask) => *mask,
            None => 0,
        };
        let mut mask: u16 = before;
        let mut here = false;
        let mut i: usize = 0;
        proof {
            assert(slots@.take(0) =~= Seq::empty());
            assert(effects@ =~= old(effects)@ + slot_effects(
                self.index,
                prefix,
                root,
                slots@.take(0),
            ));
        }
        while i < slots.len()
            invariant
                i <= slots@.len(),
                *self == *old(self),
                self.index < WORKERS,
                mask == holders(before, slots@.take(i as int)),
                here == exists|j: int|
                    0 <= j < i && (#[trigger] slots@[j]).0.nibble() == self.index,
                effects@ =~= old(effects)@ + slot_effects(
                    self.index,
                    prefix,
                    root,
                    slots@.take(i as int),
                ),
            decreases slots@.len() - i,
        {
            let (key, value) = slots[i];
            let bucket: u8 = key.first_nibble();
            mask = add_worker(mask, bucket);
            if bucket == self.index {
                here = true;
                effects.push(
                    Effect::WriteSlot { prefix, write: slot_write(key, value), storage_root: root },
                );
            } else {
                effects.push(
                    Effect::Send {
                        to: bucket,
                        message: Outgoing::MerklizeStorage {
                            prefix,
                            key,
                            value,
                            storage_root: root,
                        },
                    },
                );
            }
            i += 1;
            proof {
                let done = slots@.take(i as int);
                assert(done.drop_last() =~= slots@.take(i - 1));
                assert(done.last() == slots@[i - 1]);
                assert(slot_effects(self.index, prefix, root, done) =~= slot_effects(
                    self.index,
                    prefix,
                    root,
                    slots@.take(i - 1),
                ).push(slot_effect(self.index, prefix, root, slots@[i - 1])));
                if bucket == self.index {
                    assert(slots@[i - 1].0.nibble() == self.index);
                }
            }
        }
        assert(slots@.take(i as int) =~= slots@);
        self.expected_shards.insert(prefix, mask);
        if here {
            self.storage_tries.insert(prefix, ());
        }
        assert(self@.open =~= if here {
            old(self)@.open.insert(prefix)
        } else {
            old(self)@.open
        });
    }

    /// Takes on an account. `loaded` is what the trie gave where the account had to be
    /// looked up.
    #[verifier::spinoff_prover]
    #[verifier::rlimit(50)]
    pub fn process_account(&mut self, request: &ProcessAccount, loaded: Option<AccountState>) -> (
    effects: Vec<Effect>)
        requires
            old(self)@.wf(),
            !old(self)@.received.contains_key(request.prefix),
            old(self)@.sends(),
            old(self)@.pending < usize::MAX,
        ensures
            final(self)@ == processed(old(self)@, *request, loaded),
            effects@ == process_effects(old(self)@, *request, loaded),
            final(self)@.wf(),
            request.info matches Some(info) ==> {
                let kept = final(self)@.accounts[request.prefix];
                kept.nonce == info.nonce && kept.balance == info.balance && kept.code_hash
                    == info.code_hash
            },
    {
        let prefix = request.prefix;
        let mut effects: Vec<Effect> = Vec::new();
        let mut account = match self.accounts.get(prefix) {
            Some(held) => *held,
            None => match loaded {
                Some(state) => {
                    effects.push(Effect::TouchAccount { prefix });
                    state
                },
                None => AccountState::empty(),
            },
        };
        match request.info {
            Some(info) => {
                account.nonce = info.nonce;
                account.balance = info.balance;
                account.code_hash = info.code_hash;
                if account != AccountState::empty() {
                    effects.push(Effect::PutAccount { prefix, state: account });
                } else {
                    effects.push(Effect::RemoveAccount { prefix });
                }
            },
            None => {},
        }
        let was_expected = self.expected_shards.contains_key(prefix);
        if request.removed || request.removed_storage {
            effects.push(Effect::ResetStorage { prefix });
            self.storage_tries.insert(prefix, ());
            self.push_deletions(prefix, &mut effects);
            account.storage_root = empty_trie_hash();
            self.expected_shards.insert(prefix, ALL_WORKERS);
        }
        self.accounts.insert(prefix, account);
        assert(effects@ =~= account_effects(old(self)@, *request, loaded));
        if !request.removed && request.storage.len() > 0 {
            self.deal_slots(prefix, account.storage_root, &request.storage, &mut effects);
        }
        if !was_expected && self.expected_shards.contains_key(prefix) {
            self.pending_storage_accounts = self.pending_storage_accounts + 1;
        }
        self.dirty = true;
        proof {
            let after = processed(old(self)@, *request, loaded);
            assert(effects@ =~= process_effects(old(self)@, *request, loaded));
            assert(self@.open =~= after.open);
            assert(self@ =~= after);
            lemma_processed_wf(old(self)@, *request, loaded);
        }
        effects
    }

    /// Takes on a slot of an account that another worker holds.
    pub fn merklize_storage(&mut self, prefix: H256, key: H256, value: U256, storage_root: H256) -> (
    effect: Effect)
        requires
            old(self)@.wf(),
        ensures
            effect == (Effect::WriteSlot { prefix, write: write_of((key, value)), storage_root }),
            effect matches Effect::WriteSlot { write, .. } && write == if value@ == 0 {
                SlotWrite::Remove { key }
            } else {
                SlotWrite::Put { key, value }
            },
            final(self)@ == (WorkerView {
                open: old(self)@.open.insert(prefix),
                dirty: true,
                ..old(self)@
            }),
            final(self)@.wf(),
    {
        self.storage_tries.insert(prefix, ());
        self.dirty = true;
        proof {
            assert(self@.open =~= old(self)@.open.insert(prefix));
            assert(self@.waiting() =~= old(self)@.waiting());
        }
        Effect::WriteSlot { prefix, write: slot_write(key, value), storage_root }
    }

    /// Learns that the storage of an account is gone.
    pub fn delete_storage(&mut self, prefix: H256) -> (effect: Effect)
        requires
            old(self)@.wf(),
        ensures
            effect == (Effect::ResetStorage { prefix }),
            final(self)@ == (WorkerView {
                open: old(self)@.open.insert(prefix),
                dirty: true,
                ..old(self)@
            }),
            final(self)@.wf(),
    {
        self.storage_tries.insert(prefix, ());
        self.dirty = true;
        proof {
            assert(self@.open =~= old(self)@.open.insert(prefix));
            assert(self@.waiting() =~= old(self)@.waiting());
        }
        Effect::ResetStorage { prefix }
    }

    /// Learns that no more accounts come, and tells all workers that it sends no more
    /// slots.
    pub fn finish_routing(&self) -> (effects: Vec<Effect>)
        requires
            self@.wf(),
            self@.sends(),
        ensures
            effects@ == Seq::new(
                16,
                |i: int|
                    Effect::Send {
                        to: i as u8,
                        message: Outgoing::RoutingDone { from: self.index },
                    },
            ),
    {
        let mut effects: Vec<Effect> = Vec::new();
        let mut i: u8 = 0;
        while i < WORKERS
            invariant
                i <= WORKERS,
                effects@ =~= Seq::new(
                    i as nat,
                    |j: int|
                        Effect::Send {
                            to: j as u8,
                            message: Outgoing::RoutingDone { from: self.index },
                        },
                ),
            decreases WORKERS - i,
        {
            effects.push(
                Effect::Send { to: i, message: Outgoing::RoutingDone { from: self.index } },
            );
            i += 1;
        }
        effects
    }

    /// Learns that another worker sends no more slots. Once all of them have said so,
    /// the storage tries are sent.
    pub fn routing_done(&mut self, from: u8)
        requires
            old(self)@.wf(),
            from < WORKERS,
        ensures
            ({
                let mask = with_worker(old(self)@.done_mask, from);
                if mask == ALL_WORKERS && !old(self)@.collecting && !old(self)@.routed {
                    &&& final(self)@ == (WorkerView {
                        done_mask: mask,
                        collecting: true,
                        routed: true,
                        open: Set::empty(),
                        to_collect: final(self)@.to_collect,
                        ..old(self)@
                    })
                    &&& final(self)@.to_collect.no_duplicates()
                    &&& final(self)@.to_collect.to_set() == old(self)@.open
                } else {
                    final(self)@ == (WorkerView { done_mask: mask, ..old(self)@ })
                }
            }),
            final(self)@.wf(),
            forall|w: u8|
                w < WORKERS ==> (#[trigger] has_worker(final(self)@.done_mask, w) <==> w == from
                    || has_worker(old(self)@.done_mask, w)),
            final(self)@.routed && !old(self)@.routed ==> final(self)@.collecting && forall|w: u8|
                w < WORKERS ==> #[trigger] has_worker(final(self)@.done_mask, w),
            !old(self)@.routed && !old(self)@.collecting && (forall|w: u8|
                w < WORKERS ==> #[trigger] has_worker(final(self)@.done_mask, w))
                ==> final(self)@.routed,
    {
        self.routing_done_mask = add_worker(self.routing_done_mask, from);
        if self.routing_done_mask == ALL_WORKERS && !self.collecting_storages
            && !self.routing_complete {
            self.collecting_storages = true;
            self.routing_complete = true;
            self.storage_to_collect = self.storage_tries.key_list();
            self.storage_tries.clear();
            assert(self@.open =~= Set::empty());
        }
        proof {
            assert(self@.waiting() =~= old(self)@.waiting());
            assert forall|w: u8| w < WORKERS implies (#[trigger] has_worker(
                self.routing_done_mask,
                w,
            ) <==> w == from || has_worker(old(self)@.done_mask, w)) && has_worker(
                ALL_WORKERS,
                w,
            ) by {
                law_worker_set(old(self)@.done_mask, from, w);
            }
            let mask = self@.done_mask;
            if forall|w: u8| w < WORKERS ==> #[trigger] has_worker(mask, w) {
                assert forall|w: u8| w < WORKERS implies (#[trigger] has_worker(mask, w)
                    == has_worker(ALL_WORKERS, w)) by {
                    law_worker_set(mask, w, w);
                }
                law_worker_sets_equal(mask, ALL_WORKERS);
                assert(mask == ALL_WORKERS);
            }
        }
    }
}

proof fn lemma_processed_wf(
    worker: WorkerView,
    request: ProcessAccount,
    loaded: Option<AccountState>,
)
    requires
        worker.wf(),
        !worker.received.contains_key(request.prefix),
        worker.sends(),
    ensures
        processed(worker, request, loaded).wf(),
{
    let after = processed(worker, request, loaded);
    let prefix = request.prefix;
    let start: u16 = if request.removed || request.removed_storage {
        ALL_WORKERS
    } else if worker.expected.contains_key(prefix) {
        worker.expected[prefix]
    } else {
        0
    };
    lemma_holders(start, slots_of(request), 0);
    lemma_waiting_finite(worker);
    let waiting = worker.waiting();
    assert forall|p: H256| #[trigger] after.expected.contains_key(p) implies after.accounts.contains_key(
        p,
    ) && after.expected[p] != 0 by {
        if p != prefix {
            assert(worker.expected.contains_key(p));
        }
    }
    if after.expected.contains_key(prefix) {
        assert(after.waiting() =~= waiting.insert(prefix));
    } else {
        assert(after.waiting() =~= waiting);
    }
}

proof fn lemma_waiting_finite(worker: WorkerView)
    requires
        worker.expected.dom().finite(),
    ensures
        worker.waiting().finite(),
{
    assert(worker.waiting().subset_of(worker.expected.dom()));
    vstd::set_lib::lemma_len_subset(worker.waiting(), worker.expected.dom());
}

/// What is to be done before a worker looks for the next message.
#[derive(Copy, Clone, PartialEq, Eq, Structural, Debug)]
pub enum BeforePoll {
    /// Nothing.
    Nothing,
    /// The part of a storage trie that this worker holds is sent to the worker that
    /// holds the account.
    SendShard { prefix: H256, to: u8 },
    /// All storage tries were sent: the channels to the other workers are closed.
    StopSending,
    /// As [`StopSending`](BeforePoll::StopSending), and the state is handed over, which
    /// ends the work.
    StopSendingAndCollect,
}

/// The worker before it looks for the next message, once something is done: one storage
/// trie at a time is sent, so that messages are seen in between.
pub open spec fn polled(worker: WorkerView) -> (WorkerView, BeforePoll) {
    if !worker.collecting {
        (worker, BeforePoll::Nothing)
    } else if worker.to_collect.len() > 0 {
        (
            WorkerView { to_collect: worker.to_collect.drop_last(), ..worker },
            BeforePoll::SendShard {
                prefix: worker.to_collect.last(),
                to: worker.to_collect.last().nibble() as u8,
            },
        )
    } else if worker.pending == 0 && worker.asked {
        (
            WorkerView { collecting: false, asked: false, ..worker },
            BeforePoll::StopSendingAndCollect,
        )
    } else {
        (WorkerView { collecting: false, ..worker }, BeforePoll::StopSending)
    }
}

/// What is to be done while no message waits.
#[derive(Copy, Clone, PartialEq, Eq, Structural, Debug)]
pub enum Idle {
    Nothing,
    /// What was changed is collected ahead of time: the state trie and, where asked for,
    /// the storage tries.
    PreCollect { storages: bool },
}

impl SubtrieWorker {
    /// What is to be done before the next message is looked for. The tries are only sent
    /// once every worker has said that it sends no more slots.
    pub fn before_poll(&mut self) -> (next: BeforePoll)
        requires
            old(self)@.wf(),
            old(self)@.collecting ==> old(self)@.routed,
        ensures
            polled(old(self)@) == (final(self)@, next),
            final(self)@.wf(),
    {
        if !self.collecting_storages {
            return BeforePoll::Nothing;
        }
        match self.storage_to_collect.pop() {
            Some(prefix) => {
                assert(self@.to_collect =~= old(self)@.to_collect.drop_last());
                assert(self@.waiting() =~= old(self)@.waiting());
                BeforePoll::SendShard { prefix, to: prefix.first_nibble() }
            },
            None => {
                self.collecting_storages = false;
                assert(self@.waiting() =~= old(self)@.waiting());
                if self.pending_storage_accounts == 0 && self.pending_collect {
                    self.pending_collect = false;
                    assert(self@.waiting() =~= old(self)@.waiting());
                    BeforePoll::StopSendingAndCollect
                } else {
                    BeforePoll::StopSending
                }
            },
        }
    }

    /// Whether the next message is only looked for, not waited for.
    pub fn polls(&self) -> (b: bool)
        ensures
            b == (self@.collecting || self@.dirty),
    {
        self.collecting_storages || self.dirty
    }

    /// What is to be done while no message waits.
    pub fn idle(&mut self) -> (next: Idle)
        requires
            old(self)@.wf(),
        ensures
            next == if old(self)@.dirty {
                Idle::PreCollect { storages: !old(self)@.collecting }
            } else {
                Idle::Nothing
            },
            final(self)@ == (WorkerView { dirty: false, ..old(self)@ }),
            final(self)@.wf(),
    {
        let next = if self.dirty {
            Idle::PreCollect { storages: !self.collecting_storages }
        } else {
            Idle::Nothing
        };
        self.dirty = false;
        assert(self@.waiting() =~= old(self)@.waiting());
        next
    }

    /// Takes a shard in. Says whether it was the last one of its account, whose storage
    /// root is then computed.
    pub fn storage_shard(&mut self, prefix: H256, from: u8) -> (complete: bool)
        requires
            old(self)@.wf(),
            old(self)@.resolving is None,
            old(self)@.awaits(prefix, from),
        ensures
            ({
                let received = with_worker(
                    if old(self)@.received.contains_key(prefix) {
                        old(self)@.received[prefix]
                    } else {
                        0
                    },
                    from,
                );
                &&& complete == (received == old(self)@.expected[prefix])
                &&& final(self)@ == (WorkerView {
                    received: old(self)@.received.insert(prefix, received),
                    resolving: if complete {
                        Some(prefix)
                    } else {
                        None
                    },
                    ..old(self)@
                })
            }),
            final(self)@.wf(),
            final(self)@.received.contains_key(prefix),
            forall|w: u8|
                w < WORKERS ==> #[trigger] has_worker(final(self)@.received[prefix], w) == (w
                    == from || (old(self)@.received.contains_key(prefix) && has_worker(
                    old(self)@.received[prefix],
                    w,
                ))),
            complete <==> forall|w: u8|
                w < WORKERS ==> (#[trigger] has_worker(final(self)@.received[prefix], w)
                    == has_worker(old(self)@.expected[prefix], w)),
    {
        let before: u16 = match self.received_shards.get(prefix) {
            Some(mask) => *mask,
            None => 0,
        };
        let received: u16 = add_worker(before, from);
        self.received_shards.insert(prefix, received);
        let expected: u16 = match self.expected_shards.get(prefix) {
            Some(mask) => *mask,
            None => 0,
        };
        let complete = received == expected;
        if complete {
            self.resolving = Some(prefix);
        }
        proof {
            lemma_waiting_finite(old(self)@);
            let waiting = old(self)@.waiting();
            assert(waiting.contains(prefix));
            if complete {
                assert(self@.waiting() =~= waiting.remove(prefix));
            } else {
                assert(self@.waiting() =~= waiting);
            }
            assert forall|w: u8| w < WORKERS implies #[trigger] has_worker(received, w) == (w
                == from || (old(self)@.received.contains_key(prefix) && has_worker(
                old(self)@.received[prefix],
                w,
            ))) by {
                law_worker_set(before, from, w);
            }
            if forall|w: u8|
                w < WORKERS ==> (#[trigger] has_worker(received, w) == has_worker(expected, w)) {
                law_worker_sets_equal(received, expected);
            }
        }
        complete
    }

    /// Takes the new storage root of an account in whose shards are all there. Says
    /// whether the state is handed over, which ends the work.
    pub fn storage_resolved(&mut self, new_storage_root: H256) -> (r: (Effect, bool))
        requires
            old(self)@.wf(),
            old(self)@.resolving is Some,
        ensures
            ({
                let prefix = old(self)@.resolving->0;
                let account = AccountState {
                    storage_root: new_storage_root,
                    ..old(self)@.accounts[prefix]
                };
                let resolved = WorkerView {
                    accounts: old(self)@.accounts.insert(prefix, account),
                    pending: (old(self)@.pending - 1) as nat,
                    resolving: None,
                    dirty: true,
                    ..old(self)@
                };
                &&& r.0 == write_account(prefix, account)
                &&& r.1 == (resolved.ready() && resolved.asked)
                &&& final(self)@ == (WorkerView { asked: resolved.asked && !r.1, ..resolved })
            }),
            final(self)@.wf(),
            ({
                let prefix = old(self)@.resolving->0;
                let was = old(self)@.accounts[prefix];
                let now = final(self)@.accounts[prefix];
                &&& now.nonce == was.nonce
                &&& now.balance == was.balance
                &&& now.code_hash == was.code_hash
                &&& now.storage_root == new_storage_root
                &&& match r.0 {
                    Effect::PutAccount { prefix: p, state } => p == prefix && state == now,
                    Effect::RemoveAccount { prefix: p } => p == prefix && now.nonce == 0
                        && now.balance@ == 0 && now.code_hash == crate::account::empty_keccak()
                        && new_storage_root == crate::account::empty_trie(),
                    _ => false,
                }
                &&& final(self)@.pending == old(self)@.pending - 1
                &&& r.1 ==> old(self)@.asked && !final(self)@.asked && final(self)@.pending == 0
            }),
    {
        let mut effect = Effect::RemoveAccount { prefix: H256::zero() };
        match self.resolving {
            Some(prefix) => {
                let mut account = AccountState::empty();
                match self.accounts.get(prefix) {
                    Some(held) => {
                        account = *held;
                    },
                    None => {},
                }
                account.storage_root = new_storage_root;
                self.accounts.insert(prefix, account);
                effect = if account != AccountState::empty() {
                    Effect::PutAccount { prefix, state: account }
                } else {
                    Effect::RemoveAccount { prefix }
                };
            },
            None => {},
        }
        self.resolving = None;
        self.dirty = true;
        self.pending_storage_accounts = self.pending_storage_accounts - 1;
        let mut collect = false;
        if self.pending_storage_accounts == 0 && !self.collecting_storages
            && self.routing_complete && self.pending_collect {
            self.pending_collect = false;
            collect = true;
        }
        assert(self@.waiting() =~= old(self)@.waiting());
        (effect, collect)
    }

    /// Is asked for the state. Says whether it is handed over at once, which ends the
    /// work; otherwise it is later.
    pub fn collect_state(&mut self) -> (collect: bool)
        requires
            old(self)@.wf(),
        ensures
            collect == old(self)@.ready(),
            final(self)@ == (WorkerView {
                asked: old(self)@.asked || !collect,
                ..old(self)@
            }),
            final(self)@.wf(),
    {
        let collect = self.pending_storage_accounts == 0 && !self.collecting_storages
            && self.routing_complete;
        if !collect {
            self.pending_collect = true;
        }
        assert(self@.waiting() =~= old(self)@.waiting());
        collect
    }
}

/// The workers that a sequence of effects tells about an account, `index` being the
/// worker itself.
pub open spec fn tells_worker(effects: Seq<Effect>, index: u8, prefix: H256, worker: u8) -> bool {
    exists|i: int| 0 <= i < effects.len() && #[trigger] tells_of(effects[i], index, prefix, worker)
}

/// Whether an effect opens the storage trie of an account with a worker.
pub open spec fn tells_of(effect: Effect, index: u8, prefix: H256, worker: u8) -> bool {
    match effect {
        Effect::ResetStorage { prefix: p } => p == prefix && worker == index,
        Effect::WriteSlot { prefix: p, .. } => p == prefix && worker == index,
        Effect::Send { to, message: Outgoing::MerklizeStorage { prefix: p, .. } } => p == prefix
            && worker == to,
        Effect::Send { to, message: Outgoing::DeleteStorage(p) } => p == prefix && worker == to,
        _ => false,
    }
}

proof fn lemma_deletions_tell(prefix: H256, index: u8, from: int, worker: u8)
    requires
        0 <= from <= 16,
        index < WORKERS,
        worker < WORKERS,
    ensures
        tells_worker(deletions(prefix, index, from), index, prefix, worker) == (from <= worker
            && worker != index),
        forall|i: int|
            0 <= i < deletions(prefix, index, from).len() ==> (#[trigger] deletions(
                prefix,
                index,
                from,
            )[i]) is Send,
    decreases 16 - from,
{
    let all = deletions(prefix, index, from);
    if from < 16 {
        lemma_deletions_tell(prefix, index, from + 1, worker);
        let rest = deletions(prefix, index, from + 1);
        if from == index {
            assert(all =~= rest);
        } else {
            let first = Effect::Send {
                to: from as u8,
                message: Outgoing::DeleteStorage(prefix),
            };
            assert(all =~= seq![first] + rest);
            if tells_worker(rest, index, prefix, worker) {
                let i = choose|i: int|
                    0 <= i < rest.len() && #[trigger] tells_of(rest[i], index, prefix, worker);
                assert(tells_of(all[i + 1], index, prefix, worker));
            }
            if from == worker {
                assert(tells_of(all[0], index, prefix, worker));
            }
            if tells_worker(all, index, prefix, worker) {
                let i = choose|i: int|
                    0 <= i < all.len() && #[trigger] tells_of(all[i], index, prefix, worker);
                if i > 0 {
                    assert(tells_of(rest[i - 1], index, prefix, worker));
                }
            }
        }
    }
}

proof fn lemma_tells_concat(a: Seq<Effect>, b: Seq<Effect>, index: u8, prefix: H256, worker: u8)
    ensures
        tells_worker(a + b, index, prefix, worker) == (tells_worker(a, index, prefix, worker)
            || tells_worker(b, index, prefix, worker)),
{
    let all = a + b;
    if tells_worker(a, index, prefix, worker) {
        let i = choose|i: int|
            0 <= i < a.len() && #[trigger] tells_of(a[i], index, prefix, worker);
        assert(tells_of(all[i], index, prefix, worker));
    }
    if tells_worker(b, index, prefix, worker) {
        let i = choose|i: int|
            0 <= i < b.len() && #[trigger] tells_of(b[i], index, prefix, worker);
        assert(tells_of(all[a.len() + i], index, prefix, worker));
    }
    if tells_worker(all, index, prefix, worker) {
        let i = choose|i: int|
            0 <= i < all.len() && #[trigger] tells_of(all[i], index, prefix, worker);
        if i < a.len() {
            assert(tells_of(a[i], index, prefix, worker));
        } else {
            assert(tells_of(b[i - a.len()], index, prefix, worker));
        }
    }
}

/// The holder of an account awaits shards from exactly those workers that it has told
/// about the account: with each request, the workers that it tells join those it
/// awaits.
pub proof fn law_told_workers_are_awaited(
    worker: WorkerView,
    request: ProcessAccount,
    loaded: Option<AccountState>,
    other: u8,
)
    requires
        worker.index < WORKERS,
        other < WORKERS,
    ensures
        ({
            let before = worker.expected.contains_key(request.prefix) && has_worker(
                worker.expected[request.prefix],
                other,
            );
            let after = expected_after(worker, request);
            (after.contains_key(request.prefix) && has_worker(after[request.prefix], other)) == (
            before || tells_worker(
                process_effects(worker, request, loaded),
                worker.index,
                request.prefix,
                other,
            ))
        }),
{
    let index = worker.index;
    let prefix = request.prefix;
    let slots = slots_of(request);
    let root = account_after(worker, request, loaded).storage_root;
    let gone = request.removed || request.removed_storage;
    let account = informed(held_account(worker, prefix, loaded), request.info);
    let touch: Seq<Effect> = if !worker.accounts.contains_key(prefix) && loaded is Some {
        seq![Effect::TouchAccount { prefix }]
    } else {
        Seq::empty()
    };
    let write: Seq<Effect> = if request.info is Some {
        seq![write_account(prefix, account)]
    } else {
        Seq::empty()
    };
    let reset: Seq<Effect> = if gone {
        seq![Effect::ResetStorage { prefix }] + deletions(prefix, index, 0)
    } else {
        Seq::empty()
    };
    let dealt = slot_effects(index, prefix, root, slots);
    let all = process_effects(worker, request, loaded);
    assert(all =~= touch + write + reset + dealt);
    lemma_tells_concat(touch, write, index, prefix, other);
    lemma_tells_concat(touch + write, reset, index, prefix, other);
    lemma_tells_concat(touch + write + reset, dealt, index, prefix, other);
    assert(!tells_worker(touch, index, prefix, other));
    assert(!tells_worker(write, index, prefix, other));
    assert(tells_worker(reset, index, prefix, other) == gone) by {
        if gone {
            lemma_deletions_tell(prefix, index, 0, other);
            let first = seq![Effect::ResetStorage { prefix }];
            lemma_tells_concat(first, deletions(prefix, index, 0), index, prefix, other);
            if other == index {
                assert(tells_of(first[0], index, prefix, other));
            }
        }
    }
    assert(tells_worker(dealt, index, prefix, other) == exists|i: int|
        0 <= i < slots.len() && (#[trigger] slots[i]).0.nibble() == other) by {
        if tells_worker(dealt, index, prefix, other) {
            let i = choose|i: int|
                0 <= i < dealt.len() && #[trigger] tells_of(dealt[i], index, prefix, other);
            assert(0 <= slots[i].0.nibble() < 16);
            assert(slots[i].0.nibble() == other);
        }
        if exists|i: int| 0 <= i < slots.len() && (#[trigger] slots[i]).0.nibble() == other {
            let i = choose|i: int| 0 <= i < slots.len() && (#[trigger] slots[i]).0.nibble() == other;
            assert(tells_of(dealt[i], index, prefix, other));
        }
    }
    let start: u16 = if gone {
        ALL_WORKERS
    } else if worker.expected.contains_key(prefix) {
        worker.expected[prefix]
    } else {
        0
    };
    lemma_holders(start, slots, other);
    law_worker_set(0, 0, other);
}

} // verus!
