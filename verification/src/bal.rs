//! Block access lists: per account, the values that it held after each transaction of
//! a block that changed it, and the recorder that gathers them.

use crate::account::{empty_keccak, empty_keccak_hash, AccountInfo, Code, CodeView};
use crate::table::{Duplicate, Table};
use crate::word::{Address, H256, U256};
use vstd::prelude::*;

verus! {

/// A value together with the index of the transaction that left it behind.
/// Index zero stands for the system calls before the first transaction.
pub struct IndexedChange<T> {
    pub block_access_index: u32,
    pub post: T,
}

pub type BalanceChange = IndexedChange<U256>;

pub type NonceChange = IndexedChange<u64>;

pub type CodeChange = IndexedChange<Code>;

pub type StorageChange = IndexedChange<U256>;

/// The position behind the last change of the list that belongs to an index up to
/// `max_idx`, zero where there is none.
pub open spec fn changes_up_to<T>(changes: Seq<IndexedChange<T>>, max_idx: u32) -> nat
    decreases changes.len(),
{
    if changes.len() == 0 || changes.last().block_access_index <= max_idx {
        changes.len()
    } else {
        changes_up_to(changes.drop_last(), max_idx)
    }
}

/// The indices ascend.
pub open spec fn ascending<T>(changes: Seq<IndexedChange<T>>) -> bool {
    forall|i: int, j: int|
        0 <= i <= j < changes.len() ==> (#[trigger] changes[i]).block_access_index <= (
        #[trigger] changes[j]).block_access_index
}

proof fn lemma_changes_up_to<T>(changes: Seq<IndexedChange<T>>, max_idx: u32)
    ensures
        changes_up_to(changes, max_idx) <= changes.len(),
        changes_up_to(changes, max_idx) > 0 ==> changes[changes_up_to(changes, max_idx)
            - 1].block_access_index <= max_idx,
        forall|i: int|
            changes_up_to(changes, max_idx) <= i < changes.len() ==> (
            #[trigger] changes[i]).block_access_index > max_idx,
    decreases changes.len(),
{
    if changes.len() > 0 && changes.last().block_access_index > max_idx {
        let rest = changes.drop_last();
        lemma_changes_up_to(rest, max_idx);
        assert forall|i: int| changes_up_to(changes, max_idx) <= i < changes.len() implies (
        #[trigger] changes[i]).block_access_index > max_idx by {
            if i < rest.len() {
                assert(changes[i] == rest[i]);
            }
        }
    }
}

/// In a list whose indices ascend, the changes up to an index are exactly those in
/// front of the position that [`changes_up_to`] gives.
pub proof fn law_changes_up_to_partitions<T>(changes: Seq<IndexedChange<T>>, max_idx: u32)
    requires
        ascending(changes),
    ensures
        forall|i: int|
            0 <= i < changes.len() ==> ((#[trigger] changes[i]).block_access_index <= max_idx
                <==> i < changes_up_to(changes, max_idx)),
{
    lemma_changes_up_to(changes, max_idx);
    let n = changes_up_to(changes, max_idx);
    assert forall|i: int| 0 <= i < changes.len() implies ((
    #[trigger] changes[i]).block_access_index <= max_idx <==> i < n) by {
        if i < n {
            assert(changes[i].block_access_index <= changes[n - 1].block_access_index);
        }
    }
}

/// A value is told exactly where any change belongs to an index up to the given one, and it
/// is that of such a change.
pub proof fn law_value_is_told_where_any_change_is<T>(
    changes: Seq<IndexedChange<T>>,
    max_idx: u32,
)
    ensures
        post_value(changes, max_idx) is Some <==> exists|i: int|
            0 <= i < changes.len() && (#[trigger] changes[i]).block_access_index <= max_idx,
        post_value(changes, max_idx) matches Some(post) ==> exists|i: int|
            0 <= i < changes.len() && (#[trigger] changes[i]).block_access_index <= max_idx
                && changes[i].post == post,
{
    lemma_changes_up_to(changes, max_idx);
    let n = changes_up_to(changes, max_idx);
    if n > 0 {
        assert(changes[n - 1].block_access_index <= max_idx);
    }
}

/// The changes of one slot.
pub struct SlotChange {
    pub slot: H256,
    pub slot_changes: Vec<StorageChange>,
}

/// The changes of one account.
pub struct AccountChanges {
    pub address: Address,
    pub storage_changes: Vec<SlotChange>,
    pub balance_changes: Vec<BalanceChange>,
    pub nonce_changes: Vec<NonceChange>,
    pub code_changes: Vec<CodeChange>,
}

/// The changes of a block.
pub struct BlockAccessList {
    pub accounts: Vec<AccountChanges>,
}

/// Where the accounts of a list and their slots stand in it.
pub struct BalAddressIndex {
    pub addr_to_idx: Table<Address, usize>,
    pub slot_idx_by_account: Vec<Table<H256, usize>>,
}

/// The position behind the last change of the list that belongs to an index up to
/// `max_idx`. Where the indices ascend, it parts these changes from the others.
pub fn partition_point<T>(changes: &Vec<IndexedChange<T>>, max_idx: u32) -> (pos: usize)
    ensures
        pos == changes_up_to(changes@, max_idx),
        pos <= changes@.len(),
{
    let mut pos: usize = changes.len();
    assert(changes@.take(pos as int) =~= changes@);
    while pos > 0 && changes[pos - 1].block_access_index > max_idx
        invariant
            pos <= changes@.len(),
            changes_up_to(changes@.take(pos as int), max_idx) == changes_up_to(changes@, max_idx),
        decreases pos,
    {
        let ghost before = changes@.take(pos as int);
        assert(before.last() == changes@[pos - 1]);
        assert(before.drop_last() =~= changes@.take(pos - 1));
        pos -= 1;
    }
    proof {
        let left = changes@.take(pos as int);
        if pos > 0 {
            assert(left.last() == changes@[pos - 1]);
        }
    }
    pos
}

/// The value that the last change up to `max_idx` left behind.
pub open spec fn post_value<T>(changes: Seq<IndexedChange<T>>, max_idx: u32) -> Option<T> {
    let pos = changes_up_to(changes, max_idx);
    if pos > 0 {
        Some(changes[pos - 1].post)
    } else {
        None
    }
}

/// The value of a slot after the transactions up to `max_idx`, where one of them
/// changed it.
pub fn post_value_at_or_before(sc: &SlotChange, max_idx: u32) -> (value: Option<U256>)
    ensures
        value == post_value(sc.slot_changes@, max_idx),
{
    let pos: usize = partition_point(&sc.slot_changes, max_idx);
    if pos > 0 {
        Some(sc.slot_changes[pos - 1].post)
    } else {
        None
    }
}

/// The value of the slot `key` of the account at `acct_idx`, by the positions that
/// `index` gives; nothing where a position is missing or out of range.
pub open spec fn slot_value(
    bal: BlockAccessList,
    index: BalAddressIndex,
    acct_idx: int,
    key: H256,
    max_idx: u32,
) -> Option<U256> {
    if acct_idx >= bal.accounts@.len() || acct_idx >= index.slot_idx_by_account@.len()
        || !index.slot_idx_by_account@[acct_idx]@.contains_key(key) {
        None
    } else {
        let slots = bal.accounts@[acct_idx].storage_changes@;
        let at = index.slot_idx_by_account@[acct_idx]@[key] as int;
        if at >= slots.len() {
            None
        } else {
            post_value(slots[at].slot_changes@, max_idx)
        }
    }
}

/// Reads the value of one slot after the transactions up to `max_idx`.
pub fn seed_one_storage_slot_from_bal(
    bal: &BlockAccessList,
    index: &BalAddressIndex,
    acct_idx: usize,
    key: H256,
    max_idx: u32,
) -> (value: Option<U256>)
    ensures
        value == slot_value(*bal, *index, acct_idx as int, key, max_idx),
{
    if acct_idx >= bal.accounts.len() || acct_idx >= index.slot_idx_by_account.len() {
        return None;
    }
    match index.slot_idx_by_account[acct_idx].get(key) {
        Some(at) => {
            let at: usize = *at;
            let slots = &bal.accounts[acct_idx].storage_changes;
            if at < slots.len() {
                post_value_at_or_before(&slots[at], max_idx)
            } else {
                None
            }
        },
        None => None,
    }
}

/// The code hash that a code change leaves behind, and the code where there is any.
pub open spec fn code_after(code: CodeView) -> (H256, Option<CodeView>) {
    if code.bytecode.len() == 0 {
        (empty_keccak(), None)
    } else {
        (code.hash, Some(code))
    }
}

/// The code hash that a code change leaves behind, and the code where there is any:
/// a change to no code leaves the hash of the empty byte string.
pub fn code_from_bal(new_code: &Code) -> (r: (H256, Option<Code>))
    ensures
        r.0 == code_after(new_code@).0,
        match r.1 {
            Some(code) => code_after(new_code@).1 == Some(code@),
            None => code_after(new_code@).1 is None,
        },
{
    if new_code.len() == 0 {
        (empty_keccak_hash(), None)
    } else {
        (new_code.hash, Some(new_code.duplicate()))
    }
}

impl AccountChanges {
    /// Whether any of balance, nonce and code changed up to `max_idx`.
    pub open spec fn covers_some(&self, max_idx: u32) -> bool {
        ||| post_value(self.balance_changes@, max_idx) is Some
        ||| post_value(self.nonce_changes@, max_idx) is Some
        ||| post_value(self.code_changes@, max_idx) is Some
    }

    /// Whether all of balance, nonce and code changed up to `max_idx`.
    pub open spec fn covers_all(&self, max_idx: u32) -> bool {
        &&& post_value(self.balance_changes@, max_idx) is Some
        &&& post_value(self.nonce_changes@, max_idx) is Some
        &&& post_value(self.code_changes@, max_idx) is Some
    }

    /// `info` with the fields that changed up to `max_idx` replaced.
    pub open spec fn overlay(&self, info: AccountInfo, max_idx: u32) -> AccountInfo {
        AccountInfo {
            balance: match post_value(self.balance_changes@, max_idx) {
                Some(balance) => balance,
                None => info.balance,
            },
            nonce: match post_value(self.nonce_changes@, max_idx) {
                Some(nonce) => nonce,
                None => info.nonce,
            },
            code_hash: match post_value(self.code_changes@, max_idx) {
                Some(code) => code_after(code@).0,
                None => info.code_hash,
            },
        }
    }

    /// `codes` with the code of the last change up to `max_idx`, where there is one
    /// and its hash is not known yet.
    pub open spec fn overlay_codes(
        &self,
        codes: Map<H256, CodeView>,
        max_idx: u32,
    ) -> Map<H256, CodeView> {
        match post_value(self.code_changes@, max_idx) {
            Some(code) => match code_after(code@).1 {
                Some(view) => if codes.contains_key(view.hash) {
                    codes
                } else {
                    codes.insert(view.hash, view)
                },
                None => codes,
            },
            None => codes,
        }
    }
}

/// The positions of `index` are right for `bal`: an address is mapped to a position
/// where it stands, a slot of the account there to a position where it stands, and
/// nothing that stands in the list is missing.
pub open spec fn index_of(bal: BlockAccessList, index: BalAddressIndex) -> bool {
    &&& index.slot_idx_by_account@.len() == bal.accounts@.len()
    &&& forall|a: Address| #[trigger]
        index.addr_to_idx@.contains_key(a) ==> index.addr_to_idx@[a] < bal.accounts@.len()
            && bal.accounts@[index.addr_to_idx@[a] as int].address == a
    &&& forall|i: int|
        0 <= i < bal.accounts@.len() ==> index.addr_to_idx@.contains_key(
            (#[trigger] bal.accounts@[i]).address,
        )
    &&& forall|i: int|
        0 <= i < bal.accounts@.len() ==> #[trigger] slots_indexed(
            bal.accounts@[i].storage_changes@,
            index.slot_idx_by_account@[i]@,
        )
}

/// The slots of one account are mapped to where they stand.
pub open spec fn slots_indexed(slots: Seq<SlotChange>, index: Map<H256, usize>) -> bool {
    &&& forall|k: H256| #[trigger]
        index.contains_key(k) ==> index[k] < slots.len() && slots[index[k] as int].slot == k
    &&& forall|j: int|
        0 <= j < slots.len() ==> index.contains_key((#[trigger] slots[j]).slot)
}

impl BlockAccessList {
    fn build_slot_index(slots: &Vec<SlotChange>) -> (index: Table<H256, usize>)
        ensures
            slots_indexed(slots@, index@),
    {
        let mut index: Table<H256, usize> = Table::new();
        let mut j: usize = 0;
        while j < slots.len()
            invariant
                j <= slots@.len(),
                forall|k: H256| #[trigger]
                    index@.contains_key(k) ==> index@[k] < slots@.len()
                        && slots@[index@[k] as int].slot == k,
                forall|i: int| 0 <= i < j ==> index@.contains_key((#[trigger] slots@[i]).slot),
            decreases slots@.len() - j,
        {
            index.insert(slots[j].slot, j);
            j += 1;
        }
        index
    }

    /// The positions of the accounts of the list and of their slots.
    pub fn build_validation_index(&self) -> (index: BalAddressIndex)
        ensures
            index_of(*self, index),
    {
        let mut addr_to_idx: Table<Address, usize> = Table::new();
        let mut slot_idx_by_account: Vec<Table<H256, usize>> = Vec::new();
        let mut i: usize = 0;
        while i < self.accounts.len()
            invariant
                i <= self.accounts@.len(),
                slot_idx_by_account@.len() == i,
                forall|a: Address| #[trigger]
                    addr_to_idx@.contains_key(a) ==> addr_to_idx@[a] < self.accounts@.len()
                        && self.accounts@[addr_to_idx@[a] as int].address == a,
                forall|j: int|
                    0 <= j < i ==> addr_to_idx@.contains_key(
                        (#[trigger] self.accounts@[j]).address,
                    ),
                forall|j: int|
                    0 <= j < i ==> #[trigger] slots_indexed(
                        self.accounts@[j].storage_changes@,
                        slot_idx_by_account@[j]@,
                    ),
            decreases self.accounts@.len() - i,
        {
            addr_to_idx.insert(self.accounts[i].address, i);
            let slots = Self::build_slot_index(&self.accounts[i].storage_changes);
            slot_idx_by_account.push(slots);
            i += 1;
        }
        BalAddressIndex { addr_to_idx, slot_idx_by_account }
    }
}

/// What a recorder was told.
pub enum BalEvent {
    TouchedAddress(Address),
    InitialBalance(Address, U256),
    BalanceChange(Address, U256),
    NonceChange(Address, u64),
    InitialCodePresence(Address, bool),
    InitialCode(Address, Vec<u8>),
    CodeChange(Address, Vec<u8>),
    StorageRead(Address, U256),
    PreStorage(Address, U256, U256),
    StorageWrite(Address, U256, U256),
}

/// What a [`BalEvent`] says.
#[verifier::ext_equal]
pub enum EventView {
    TouchedAddress(Address),
    InitialBalance(Address, U256),
    BalanceChange(Address, U256),
    NonceChange(Address, u64),
    InitialCodePresence(Address, bool),
    InitialCode(Address, Seq<u8>),
    CodeChange(Address, Seq<u8>),
    StorageRead(Address, U256),
    PreStorage(Address, U256, U256),
    StorageWrite(Address, U256, U256),
}

impl View for BalEvent {
    type V = EventView;

    open spec fn view(&self) -> EventView {
        match self {
            BalEvent::TouchedAddress(a) => EventView::TouchedAddress(*a),
            BalEvent::InitialBalance(a, b) => EventView::InitialBalance(*a, *b),
            BalEvent::BalanceChange(a, b) => EventView::BalanceChange(*a, *b),
            BalEvent::NonceChange(a, n) => EventView::NonceChange(*a, *n),
            BalEvent::InitialCodePresence(a, p) => EventView::InitialCodePresence(*a, *p),
            BalEvent::InitialCode(a, c) => EventView::InitialCode(*a, c@),
            BalEvent::CodeChange(a, c) => EventView::CodeChange(*a, c@),
            BalEvent::StorageRead(a, k) => EventView::StorageRead(*a, *k),
            BalEvent::PreStorage(a, k, v) => EventView::PreStorage(*a, *k, *v),
            BalEvent::StorageWrite(a, k, v) => EventView::StorageWrite(*a, *k, *v),
        }
    }
}

/// Gathers what a block access list is built from: what happened, in the order in
/// which it happened, each with the index that was current.
pub struct BlockAccessListRecorder {
    pub block_access_index: u32,
    pub events: Vec<(u32, BalEvent)>,
}

/// What a recorder holds.
#[verifier::ext_equal]
pub struct RecorderView {
    pub block_access_index: u32,
    pub events: Seq<(u32, EventView)>,
}

impl View for BlockAccessListRecorder {
    type V = RecorderView;

    open spec fn view(&self) -> RecorderView {
        RecorderView {
            block_access_index: self.block_access_index,
            events: Seq::new(
                self.events@.len(),
                |i: int| (self.events@[i].0, self.events@[i].1@),
            ),
        }
    }
}

impl RecorderView {
    /// The recorder after it was told `event`.
    pub open spec fn told(self, event: EventView) -> RecorderView {
        RecorderView { events: self.events.push((self.block_access_index, event)), ..self }
    }
}

/// A recorder, where there is one, after it was told `event`.
pub open spec fn told(recorder: Option<RecorderView>, event: EventView) -> Option<RecorderView> {
    match recorder {
        Some(r) => Some(r.told(event)),
        None => None,
    }
}

impl BlockAccessListRecorder {
    pub fn new() -> (r: BlockAccessListRecorder)
        ensures
            r@ == (RecorderView { block_access_index: 0, events: Seq::empty() }),
    {
        BlockAccessListRecorder { block_access_index: 0, events: Vec::new() }
    }

    pub fn set_block_access_index(&mut self, index: u32)
        ensures
            final(self)@ == (RecorderView { block_access_index: index, ..old(self)@ }),
    {
        self.block_access_index = index;
    }

    /// Adds an event under the current index.
    pub fn tell(&mut self, event: BalEvent)
        ensures
            final(self)@ == old(self)@.told(event@),
    {
        self.events.push((self.block_access_index, event));
        assert(self@.events =~= old(self)@.told(event@).events);
    }

    /// A mark to which [`tx_restore`](Self::tx_restore) can go back.
    pub fn tx_checkpoint(&self) -> (mark: usize)
        ensures
            mark == self@.events.len(),
    {
        self.events.len()
    }

    /// Forgets everything told since the mark.
    pub fn tx_restore(&mut self, mark: usize)
        requires
            mark <= old(self)@.events.len(),
        ensures
            final(self)@ == (RecorderView {
                events: old(self)@.events.take(mark as int),
                ..old(self)@
            }),
    {
        self.events.truncate(mark);
        assert(self@.events =~= old(self)@.events.take(mark as int));
    }
}

} // verus!
