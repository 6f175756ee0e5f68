//! Putting the parts that sixteen workers computed together: one root, and the nodes that
//! changed.

use crate::account::empty_trie_hash;
use crate::blockchain::bal_merkle::BalSynthesisItem;
use crate::blockchain::sorting::{
    law_ordered_list_is_sorted, law_sorted_is_an_ordered_permutation,
    law_sorting_forgets_the_order, ordered, sort, sorted, Ranked,
};
use crate::blockchain::trie_node::{
    find, law_slot_falls_to_its_worker, shard_of, BranchNode, Node, NodeRef,
};
use crate::word::{lemma_word_ext, H256, U256};
use vstd::prelude::*;

verus! {

/// A node that changed: its path and its encoding.
pub struct TrieNode {
    pub path: Vec<u8>,
    pub encoded: Vec<u8>,
}

/// The encoding of no node.
pub const RLP_NULL: u8 = 0x80;

/// The root of an empty trie, written as no node.
fn no_node() -> (node: TrieNode)
    ensures
        node.path@ == Seq::<u8>::empty(),
        node.encoded@ == seq![RLP_NULL],
{
    let mut encoded: Vec<u8> = Vec::new();
    encoded.push(RLP_NULL);
    assert(encoded@ =~= seq![RLP_NULL]);
    TrieNode { path: Vec::new(), encoded }
}

/// A root without children.
pub fn empty_root() -> (root: BranchNode)
    ensures
        root.choices@.len() == 16,
        root.value@.len() == 0,
        forall|i: int| 0 <= i < 16 ==> (#[trigger] root.choices@[i]) == NodeRef::Empty,
{
    let mut choices: Vec<NodeRef> = Vec::new();
    let mut n: usize = 0;
    while n < 16
        invariant
            n <= 16,
            choices@.len() == n,
            forall|i: int| 0 <= i < n ==> (#[trigger] choices@[i]) == NodeRef::Empty,
        decreases 16 - n,
    {
        choices.push(NodeRef::Empty);
        n += 1;
    }
    BranchNode { choices, value: Vec::new() }
}

/// Puts what a worker computed into the root: the child at the worker's own nibble.
pub fn take_choice(root: &mut BranchNode, subroot: BranchNode, index: u8)
    requires
        index < 16,
        old(root).choices@.len() == 16,
        subroot.choices@.len() == 16,
    ensures
        final(root).choices@ == old(root).choices@.update(
            index as int,
            subroot.choices@[index as int],
        ),
        final(root).value == old(root).value,
{
    let mut choices = subroot.choices;
    let child = choices.swap_remove(index as usize);
    root.choices[index as usize] = child;
}

/// What was gathered from the workers.
pub struct Gathered {
    pub root: BranchNode,
    /// The nodes of the state trie that changed.
    pub state_updates: Vec<TrieNode>,
    /// Those of the storage tries, by the hashed address of the account.
    pub storage_updates: Vec<(H256, Vec<TrieNode>)>,
}

impl Gathered {
    pub open spec fn wf(self) -> bool {
        self.root.choices@.len() == 16 && self.root.value@.len() == 0
    }

    pub fn new() -> (g: Gathered)
        ensures
            g.wf(),
            forall|i: int| 0 <= i < 16 ==> (#[trigger] g.root.choices@[i]) == NodeRef::Empty,
            g.state_updates@ == Seq::<TrieNode>::empty(),
            g.storage_updates@ == Seq::<(H256, Vec<TrieNode>)>::empty(),
    {
        Gathered { root: empty_root(), state_updates: Vec::new(), storage_updates: Vec::new() }
    }

    /// Takes in what a worker computed.
    pub fn take(
        &mut self,
        index: u8,
        subroot: BranchNode,
        state_nodes: Vec<TrieNode>,
        storage_nodes: Vec<(H256, Vec<TrieNode>)>,
    )
        requires
            old(self).wf(),
            index < 16,
            subroot.choices@.len() == 16,
        ensures
            final(self).wf(),
            final(self).root.choices@ == old(self).root.choices@.update(
                index as int,
                subroot.choices@[index as int],
            ),
            final(self).state_updates@ == old(self).state_updates@ + state_nodes@,
            final(self).storage_updates@ == old(self).storage_updates@ + storage_nodes@,
    {
        let mut state_nodes = state_nodes;
        let mut storage_nodes = storage_nodes;
        self.storage_updates.append(&mut storage_nodes);
        self.state_updates.append(&mut state_nodes);
        take_choice(&mut self.root, subroot, index);
    }

    /// The hash of a state trie without paths, whose root node is written as no node.
    pub fn finish_empty(&mut self) -> (state_root: H256)
        ensures
            state_root == crate::account::empty_trie(),
            final(self).root == old(self).root,
            final(self).storage_updates == old(self).storage_updates,
            final(self).state_updates@.len() == old(self).state_updates@.len() + 1,
            final(self).state_updates@.drop_last() == old(self).state_updates@,
            final(self).state_updates@.last().path@ == Seq::<u8>::empty(),
            final(self).state_updates@.last().encoded@ == seq![RLP_NULL],
    {
        self.state_updates.push(no_node());
        assert(self.state_updates@.drop_last() =~= old(self).state_updates@);
        empty_trie_hash()
    }
}

/// At a path that starts with a worker's nibble the root has what the worker computed.
pub proof fn law_root_holds_what_its_worker_computed(
    root: BranchNode,
    subroot: BranchNode,
    index: u8,
    path: Seq<u8>,
)
    requires
        index < 16,
        root.choices@.len() == 16,
        subroot.choices@.len() == 16,
        root.choices@[index as int] == subroot.choices@[index as int],
        path.len() > 0,
        path[0] == index,
    ensures
        find(Node::Branch(root), path) == find(Node::Branch(subroot), path),
{
}

/// The choices of a root after one worker after another was taken in.
pub open spec fn taken(choices: Seq<NodeRef>, parts: Seq<(u8, NodeRef)>) -> Seq<NodeRef>
    decreases parts.len(),
{
    if parts.len() == 0 {
        choices
    } else {
        taken(choices, parts.drop_last()).update(parts.last().0 as int, parts.last().1)
    }
}

/// The order in which the workers are taken in makes no difference: each child of the
/// root is the one that its own worker computed.
pub proof fn law_order_of_workers_does_not_matter(
    choices: Seq<NodeRef>,
    parts: Seq<(u8, NodeRef)>,
    i: int,
)
    requires
        choices.len() == 16,
        forall|k: int| 0 <= k < parts.len() ==> (#[trigger] parts[k]).0 < 16,
        forall|k: int, m: int|
            0 <= k < m < parts.len() ==> (#[trigger] parts[k]).0 != (#[trigger] parts[m]).0,
        0 <= i < parts.len(),
    ensures
        taken(choices, parts).len() == 16,
        taken(choices, parts)[parts[i].0 as int] == parts[i].1,
    decreases parts.len(),
{
    let rest = parts.drop_last();
    assert forall|k: int| 0 <= k < rest.len() implies (#[trigger] rest[k]).0 < 16 by {
        assert(rest[k] == parts[k]);
    }
    lemma_taken_len(choices, rest);
    if i < parts.len() - 1 {
        assert forall|k: int, m: int| 0 <= k < m < rest.len() implies (#[trigger] rest[k]).0 != (
        #[trigger] rest[m]).0 by {
            assert(rest[k] == parts[k] && rest[m] == parts[m]);
        }
        law_order_of_workers_does_not_matter(choices, rest, i);
        assert(rest[i] == parts[i]);
        assert(parts[i].0 != parts[parts.len() - 1].0);
    } else {
        assert(parts.last() == parts[i]);
    }
}

proof fn lemma_taken_len(choices: Seq<NodeRef>, parts: Seq<(u8, NodeRef)>)
    requires
        choices.len() == 16,
        forall|k: int| 0 <= k < parts.len() ==> (#[trigger] parts[k]).0 < 16,
    ensures
        taken(choices, parts).len() == 16,
    decreases parts.len(),
{
    if parts.len() > 0 {
        let rest = parts.drop_last();
        assert forall|k: int| 0 <= k < rest.len() implies (#[trigger] rest[k]).0 < 16 by {
            assert(rest[k] == parts[k]);
        }
        lemma_taken_len(choices, rest);
        assert(parts.last() == parts[parts.len() - 1]);
    }
}

/// A storage trie of which the parts are coming in.
pub struct PreMerkelizedAccountState {
    pub storage_root: Option<BranchNode>,
    /// The nodes that changed.
    pub nodes: Vec<TrieNode>,
}

impl PreMerkelizedAccountState {
    pub open spec fn wf(self) -> bool {
        self.storage_root matches Some(root) ==> root.choices@.len() == 16
    }

    pub fn new() -> (s: PreMerkelizedAccountState)
        ensures
            s.wf(),
            s.storage_root is None,
            s.nodes@ == Seq::<TrieNode>::empty(),
    {
        PreMerkelizedAccountState { storage_root: None, nodes: Vec::new() }
    }

    /// The hash of a storage trie without paths, whose root node is written as no node.
    pub fn finish_empty(&mut self) -> (storage_root: H256)
        ensures
            storage_root == crate::account::empty_trie(),
            final(self).storage_root == old(self).storage_root,
            final(self).nodes@.len() == old(self).nodes@.len() + 1,
            final(self).nodes@.drop_last() == old(self).nodes@,
            final(self).nodes@.last().path@ == Seq::<u8>::empty(),
            final(self).nodes@.last().encoded@ == seq![RLP_NULL],
    {
        self.nodes.push(no_node());
        assert(self.nodes@.drop_last() =~= old(self).nodes@);
        empty_trie_hash()
    }

    /// Takes in the part that a worker computed. The first one brings the children that
    /// nobody changed along.
    pub fn take_shard(&mut self, index: u8, subroot: BranchNode, nodes: Vec<TrieNode>)
        requires
            old(self).wf(),
            index < 16,
            subroot.choices@.len() == 16,
        ensures
            final(self).wf(),
            final(self).nodes@ == old(self).nodes@ + nodes@,
            match old(self).storage_root {
                None => final(self).storage_root == Some(subroot),
                Some(root) => final(self).storage_root matches Some(whole) && whole.choices@
                    == root.choices@.update(index as int, subroot.choices@[index as int])
                    && whole.value == root.value,
            },
    {
        let mut nodes = nodes;
        self.nodes.append(&mut nodes);
        match self.storage_root.take() {
            None => {
                self.storage_root = Some(subroot);
            },
            Some(root) => {
                let mut root = root;
                take_choice(&mut root, subroot, index);
                self.storage_root = Some(root);
            },
        }
    }
}

/// What is done to a slot of a storage trie.
#[derive(Copy, Clone, PartialEq, Eq, Structural, Debug)]
pub enum SlotWrite {
    Put { key: H256, value: U256 },
    /// A slot of value zero is not kept.
    Remove { key: H256 },
}

/// What is done to a slot of a storage trie.
pub open spec fn write_of(slot: (H256, U256)) -> SlotWrite {
    if slot.1@ == 0 {
        SlotWrite::Remove { key: slot.0 }
    } else {
        SlotWrite::Put { key: slot.0, value: slot.1 }
    }
}

/// What is done to the storage trie of an account, in the order of the hashed keys.
pub open spec fn writes_of(slots: Seq<(H256, U256)>) -> Seq<SlotWrite> {
    sorted(slots).map_values(|slot: (H256, U256)| write_of(slot))
}

/// What is done to a slot: one of value zero is removed.
pub fn slot_write(key: H256, value: U256) -> (w: SlotWrite)
    ensures
        w == write_of((key, value)),
{
    if value.is_zero() {
        SlotWrite::Remove { key }
    } else {
        SlotWrite::Put { key, value }
    }
}

/// What is done to the storage trie of an account, in the order of the hashed keys.
pub fn slot_writes(hashed_storage: &Vec<(H256, U256)>) -> (writes: Vec<SlotWrite>)
    ensures
        writes@ == writes_of(hashed_storage@),
{
    let slots = sort(hashed_storage);
    let mut writes: Vec<SlotWrite> = Vec::new();
    let mut i: usize = 0;
    while i < slots.len()
        invariant
            i <= slots@.len(),
            writes@.len() == i,
            forall|j: int| 0 <= j < i ==> (#[trigger] writes@[j]) == write_of(slots@[j]),
        decreases slots@.len() - i,
    {
        let (key, value) = slots[i];
        writes.push(slot_write(key, value));
        i += 1;
    }
    assert(writes@ =~= slots@.map_values(|slot: (H256, U256)| write_of(slot)));
    writes
}

/// Whether no two slots have the same key.
pub open spec fn distinct_keys(slots: Seq<(H256, U256)>) -> bool {
    forall|i: int, j: int|
        0 <= i < j < slots.len() ==> (#[trigger] slots[i]).0 != (#[trigger] slots[j]).0
}

/// The order in which the slots of an account are given does not matter: the same is
/// written in the same order, and by the same workers, where no two slots have the same
/// key.
pub proof fn law_order_of_slots_does_not_matter(a: Seq<(H256, U256)>, b: Seq<(H256, U256)>)
    requires
        distinct_keys(a),
        a.to_multiset() == b.to_multiset(),
    ensures
        sorted(a) == sorted(b),
        writes_of(a) == writes_of(b),
        forall|nibble: int| #[trigger]
            shard_of(sorted(a), nibble) == shard_of(sorted(b), nibble),
{
    assert forall|x: (H256, U256), y: (H256, U256)|
        #![trigger a.contains(x), a.contains(y)]
        a.contains(x) && a.contains(y) && x.rank() == y.rank() implies x == y by {
        let i = a.index_of(x);
        let j = a.index_of(y);
        lemma_word_ext(U256 { hi: x.0.hi, lo: x.0.lo }, U256 { hi: y.0.hi, lo: y.0.lo });
        assert(a[i].0 == a[j].0);
    }
    law_sorting_forgets_the_order(a, b);
}

/// The key of a slot that something is done to.
pub open spec fn key_written(write: SlotWrite) -> H256 {
    match write {
        SlotWrite::Put { key, .. } => key,
        SlotWrite::Remove { key } => key,
    }
}

/// What is done to the slots of one worker, in its order.
pub open spec fn writes_below(writes: Seq<SlotWrite>, nibble: int) -> Seq<SlotWrite>
    decreases writes.len(),
{
    if writes.len() == 0 {
        Seq::empty()
    } else if key_written(writes.last()).nibble() == nibble {
        writes_below(writes.drop_last(), nibble).push(writes.last())
    } else {
        writes_below(writes.drop_last(), nibble)
    }
}

proof fn lemma_shard_is_ordered(slots: Seq<(H256, U256)>, nibble: int)
    requires
        ordered(slots),
    ensures
        ordered(shard_of(slots, nibble)),
    decreases slots.len(),
{
    if slots.len() > 0 {
        let rest = slots.drop_last();
        let shard = shard_of(slots, nibble);
        let before = shard_of(rest, nibble);
        lemma_shard_is_ordered(rest, nibble);
        if slots.last().0.nibble() == nibble {
            assert forall|i: int, j: int| 0 <= i <= j < shard.len() implies (
            #[trigger] shard[i]).rank() <= (#[trigger] shard[j]).rank() by {
                if j == before.len() && i < j {
                    assert(before.contains(before[i]));
                    law_slot_falls_to_its_worker(rest, nibble, before[i]);
                    let k = rest.index_of(before[i]);
                    assert(slots[k].rank() <= slots[slots.len() - 1].rank());
                } else if j < before.len() {
                    assert(before[i].rank() <= before[j].rank());
                }
            }
        }
    }
}

proof fn lemma_writes_below(slots: Seq<(H256, U256)>, nibble: int)
    ensures
        shard_of(slots, nibble).map_values(|slot: (H256, U256)| write_of(slot)) == writes_below(
            slots.map_values(|slot: (H256, U256)| write_of(slot)),
            nibble,
        ),
    decreases slots.len(),
{
    let f = |slot: (H256, U256)| write_of(slot);
    if slots.len() > 0 {
        let rest = slots.drop_last();
        lemma_writes_below(rest, nibble);
        assert(slots.map_values(f).drop_last() =~= rest.map_values(f));
        assert(key_written(write_of(slots.last())) == slots.last().0);
        if slots.last().0.nibble() == nibble {
            assert(shard_of(slots, nibble).map_values(f) =~= shard_of(rest, nibble).map_values(
                f,
            ).push(write_of(slots.last())));
        }
    } else {
        assert(shard_of(slots, nibble).map_values(f) =~= Seq::empty());
    }
}

/// Each of the sixteen workers does, in the same order, what is done below its nibble where
/// the slots are written in one go.
pub proof fn law_workers_write_what_one_would(slots: Seq<(H256, U256)>, nibble: int)
    ensures
        writes_of(shard_of(sorted(slots), nibble)) == writes_below(writes_of(slots), nibble),
{
    law_sorted_is_an_ordered_permutation(slots);
    lemma_shard_is_ordered(sorted(slots), nibble);
    law_ordered_list_is_sorted(shard_of(sorted(slots), nibble));
    lemma_writes_below(sorted(slots), nibble);
}

/// What the slots of a storage trie hold once something was done to them.
pub open spec fn contents_after(trie: Map<H256, U256>, writes: Seq<SlotWrite>) -> Map<H256, U256>
    decreases writes.len(),
{
    if writes.len() == 0 {
        trie
    } else {
        let before = contents_after(trie, writes.drop_last());
        match writes.last() {
            SlotWrite::Put { key, value } => before.insert(key, value),
            SlotWrite::Remove { key } => before.remove(key),
        }
    }
}

/// What a storage trie holds that is put together from the parts of sixteen workers. Each
/// starts from the whole trie, does what falls to it, and gives the part below its nibble.
pub open spec fn contents_of_shards(trie: Map<H256, U256>, slots: Seq<(H256, U256)>) -> Map<
    H256,
    U256,
> {
    Map::new(
        |key: H256|
            contents_after(trie, writes_of(shard_of(sorted(slots), key.nibble()))).contains_key(
                key,
            ),
        |key: H256| contents_after(trie, writes_of(shard_of(sorted(slots), key.nibble())))[key],
    )
}

proof fn lemma_contents_below(trie: Map<H256, U256>, writes: Seq<SlotWrite>, key: H256)
    ensures
        contents_after(trie, writes_below(writes, key.nibble())).contains_key(key)
            == contents_after(trie, writes).contains_key(key),
        contents_after(trie, writes).contains_key(key) ==> contents_after(
            trie,
            writes_below(writes, key.nibble()),
        )[key] == contents_after(trie, writes)[key],
    decreases writes.len(),
{
    if writes.len() > 0 {
        let rest = writes.drop_last();
        lemma_contents_below(trie, rest, key);
        if key_written(writes.last()).nibble() == key.nibble() {
            assert(writes_below(writes, key.nibble()).drop_last() =~= writes_below(
                rest,
                key.nibble(),
            ));
        }
    }
}

/// Sixteen workers leave the same storage trie as one: it holds the same slots. So whatever
/// depends on what a trie holds, as its root does, is the same.
pub proof fn law_sharded_trie_is_the_serial_one<R>(
    trie: Map<H256, U256>,
    slots: Seq<(H256, U256)>,
    root: spec_fn(Map<H256, U256>) -> R,
)
    ensures
        contents_of_shards(trie, slots) == contents_after(trie, writes_of(slots)),
        root(contents_of_shards(trie, slots)) == root(contents_after(trie, writes_of(slots))),
{
    let sharded = contents_of_shards(trie, slots);
    let serial = contents_after(trie, writes_of(slots));
    assert forall|key: H256| #[trigger]
        sharded.contains_key(key) == serial.contains_key(key) && (serial.contains_key(key)
            ==> sharded[key] == serial[key]) by {
        law_workers_write_what_one_would(slots, key.nibble());
        lemma_contents_below(trie, writes_of(slots), key);
    }
    assert(sharded =~= serial);
}

/// The storage trie does not depend on the order in which its slots are given, whether
/// sixteen workers write them or one, where no two slots have the same key.
pub proof fn law_storage_trie_forgets_the_order<R>(
    trie: Map<H256, U256>,
    a: Seq<(H256, U256)>,
    b: Seq<(H256, U256)>,
    root: spec_fn(Map<H256, U256>) -> R,
)
    requires
        distinct_keys(a),
        a.to_multiset() == b.to_multiset(),
    ensures
        contents_after(trie, writes_of(a)) == contents_after(trie, writes_of(b)),
        contents_of_shards(trie, a) == contents_of_shards(trie, b),
        root(contents_of_shards(trie, a)) == root(contents_of_shards(trie, b)),
{
    law_order_of_slots_does_not_matter(a, b);
    law_sharded_trie_is_the_serial_one(trie, a, root);
    law_sharded_trie_is_the_serial_one(trie, b, root);
}

/// The storage roots that were computed, by the position of the account.
pub struct StorageResults {
    pub roots: Vec<Option<H256>>,
    /// The nodes that changed, by the hashed address of the account.
    pub updates: Vec<(H256, Vec<TrieNode>)>,
}

impl StorageResults {
    /// No root has been computed of so many accounts.
    pub fn new(accounts: usize) -> (s: StorageResults)
        ensures
            s.roots@ == Seq::new(accounts as nat, |i: int| None::<H256>),
            s.updates@ == Seq::<(H256, Vec<TrieNode>)>::empty(),
    {
        let mut roots: Vec<Option<H256>> = Vec::new();
        while roots.len() < accounts
            invariant
                roots@.len() <= accounts,
                forall|i: int| 0 <= i < roots@.len() ==> (#[trigger] roots@[i]) == None::<H256>,
            decreases accounts - roots@.len(),
        {
            roots.push(None);
        }
        assert(roots@ =~= Seq::new(accounts as nat, |i: int| None::<H256>));
        StorageResults { roots, updates: Vec::new() }
    }

    /// Takes the storage root of the account at a position in.
    pub fn record(
        &mut self,
        accounts: &Vec<(H256, BalSynthesisItem)>,
        at: usize,
        root: H256,
        nodes: Vec<TrieNode>,
    )
        requires
            at < accounts@.len(),
            accounts@.len() == old(self).roots@.len(),
        ensures
            final(self).roots@ == old(self).roots@.update(at as int, Some(root)),
            final(self).updates@ == old(self).updates@.push((accounts@[at as int].0, nodes)),
    {
        self.roots[at] = Some(root);
        self.updates.push((accounts[at].0, nodes));
    }
}

/// Whether the storage root of an account has to be computed.
pub fn needs_storage_root(item: &BalSynthesisItem) -> (b: bool)
    ensures
        b == (item.slots() > 0),
{
    item.added_storage.len() > 0
}

} // verus!
