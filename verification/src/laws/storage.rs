//! What a storage trie holds once slots were written to it, and how a root is collapsed.

use crate::blockchain::assembly::{contents_after, write_of, writes_of, SlotWrite};
use crate::blockchain::sorting::{law_sorted_is_an_ordered_permutation, sorted};
use crate::blockchain::trie_node::{
    collapse_root_node, compute_sharded_storage_root, find, law_collapse_keeps_paths,
    law_empty_root_has_no_paths, law_slot_falls_to_its_worker, lengthened, occupied, shard_of,
    BranchNode, Collapsed, Found, Node, NodeRef, StoragePlan,
};
use crate::laws::worker::law_worker_of_a_hash;
use crate::word::{H256, U256};
use vstd::prelude::*;

verus! {

/// No slot of a list has the key.
pub open spec fn not_among(slots: Seq<(H256, U256)>, key: H256) -> bool {
    forall|i: int| 0 <= i < slots.len() ==> (#[trigger] slots[i]).0 != key
}

spec fn all_writes(slots: Seq<(H256, U256)>) -> Seq<SlotWrite> {
    slots.map_values(|slot: (H256, U256)| write_of(slot))
}

proof fn lemma_untouched(trie: Map<H256, U256>, slots: Seq<(H256, U256)>, key: H256)
    requires
        not_among(slots, key),
    ensures
        contents_after(trie, all_writes(slots)).contains_key(key) == trie.contains_key(key),
        contents_after(trie, all_writes(slots))[key] == trie[key],
    decreases slots.len(),
{
    if slots.len() > 0 {
        let rest = slots.drop_last();
        assert(all_writes(slots).drop_last() =~= all_writes(rest));
        assert(all_writes(slots).last() == write_of(slots[slots.len() - 1]));
        assert(not_among(rest, key)) by {
            assert forall|i: int| 0 <= i < rest.len() implies (#[trigger] rest[i]).0 != key by {
                assert(slots[i].0 != key);
            }
        }
        lemma_untouched(trie, rest, key);
        assert(slots[slots.len() - 1].0 != key);
    } else {
        assert(all_writes(slots) =~= Seq::empty());
    }
}

proof fn lemma_written(trie: Map<H256, U256>, slots: Seq<(H256, U256)>, i: int)
    requires
        0 <= i < slots.len(),
        forall|j: int| i < j < slots.len() ==> (#[trigger] slots[j]).0 != slots[i].0,
    ensures
        slots[i].1@ == 0 ==> !contents_after(trie, all_writes(slots)).contains_key(slots[i].0),
        slots[i].1@ != 0 ==> contents_after(trie, all_writes(slots)).contains_key(slots[i].0)
            && contents_after(trie, all_writes(slots))[slots[i].0] == slots[i].1,
    decreases slots.len(),
{
    let rest = slots.drop_last();
    assert(all_writes(slots).drop_last() =~= all_writes(rest));
    assert(all_writes(slots).last() == write_of(slots[slots.len() - 1]));
    if i < rest.len() {
        assert(slots[slots.len() - 1].0 != slots[i].0);
        assert forall|j: int| i < j < rest.len() implies (#[trigger] rest[j]).0 != rest[i].0 by {
            assert(slots[j].0 != slots[i].0);
        }
        lemma_written(trie, rest, i);
    }
}

proof fn lemma_member(a: Seq<(H256, U256)>, b: Seq<(H256, U256)>, i: int) -> (j: int)
    requires
        a.to_multiset() == b.to_multiset(),
        0 <= i < a.len(),
    ensures
        0 <= j < b.len(),
        b[j] == a[i],
{
    a.to_multiset_ensures();
    b.to_multiset_ensures();
    assert(a.contains(a[i]));
    assert(a.to_multiset().count(a[i]) > 0);
    assert(b.contains(a[i]));
    b.index_of(a[i])
}

/// After the slots of an account were written, its storage trie holds what it held under
/// every key that none of them has.
pub proof fn law_other_slots_stay(trie: Map<H256, U256>, slots: Seq<(H256, U256)>, key: H256)
    requires
        not_among(slots, key),
    ensures
        contents_after(trie, writes_of(slots)).contains_key(key) <==> trie.contains_key(key),
        contents_after(trie, writes_of(slots))[key] == trie[key],
{
    let order = sorted(slots);
    law_sorted_is_an_ordered_permutation(slots);
    assert(not_among(order, key)) by {
        assert forall|j: int| 0 <= j < order.len() implies (#[trigger] order[j]).0 != key by {
            let i = lemma_member(order, slots, j);
            assert(slots[i].0 != key);
        }
    }
    lemma_untouched(trie, order, key);
    assert(writes_of(slots) =~= all_writes(order));
}

/// After the slots of an account were written, its storage trie holds exactly the value of
/// a slot under its key, and nothing where that value is zero. No other slot is to have the
/// key.
pub proof fn law_storage_trie_holds_the_slot(
    trie: Map<H256, U256>,
    slots: Seq<(H256, U256)>,
    i: int,
)
    requires
        0 <= i < slots.len(),
        forall|j: int| 0 <= j < slots.len() && j != i ==> (#[trigger] slots[j]).0 != slots[i].0,
    ensures
        slots[i].1@ == 0 ==> !contents_after(trie, writes_of(slots)).contains_key(slots[i].0),
        slots[i].1@ != 0 ==> contents_after(trie, writes_of(slots)).contains_key(slots[i].0)
            && contents_after(trie, writes_of(slots))[slots[i].0] == slots[i].1,
{
    let order = sorted(slots);
    law_sorted_is_an_ordered_permutation(slots);
    let at = lemma_member(slots, order, i);
    lemma_single(slots, i);
    assert forall|j: int| at < j < order.len() implies (#[trigger] order[j]).0
        != order[at].0 by {
        if order[j].0 == order[at].0 {
            let k = lemma_member(order, slots, j);
            assert(k == i);
            lemma_double(order, at, j);
        }
    }
    lemma_written(trie, order, at);
    assert(writes_of(slots) =~= all_writes(order));
}

proof fn lemma_double(s: Seq<(H256, U256)>, i: int, j: int)
    requires
        0 <= i < j < s.len(),
        s[i] == s[j],
    ensures
        s.to_multiset().count(s[i]) >= 2,
{
    let rest = s.remove(j);
    s.to_multiset_ensures();
    rest.to_multiset_ensures();
    assert(rest.to_multiset() =~= s.to_multiset().remove(s[j]));
    assert(rest[i] == s[i]);
    assert(rest.contains(s[i]));
    assert(rest.to_multiset().count(s[i]) >= 1);
}

proof fn lemma_single(s: Seq<(H256, U256)>, i: int)
    requires
        0 <= i < s.len(),
        forall|j: int| 0 <= j < s.len() && j != i ==> (#[trigger] s[j]).0 != s[i].0,
    ensures
        s.to_multiset().count(s[i]) == 1,
{
    let rest = s.remove(i);
    s.to_multiset_ensures();
    rest.to_multiset_ensures();
    assert(rest.to_multiset() =~= s.to_multiset().remove(s[i]));
    if rest.contains(s[i]) {
        let k = rest.index_of(s[i]);
        if k < i {
            assert(s[k].0 != s[i].0);
        } else {
            assert(rest[k] == s[k + 1]);
            assert(s[k + 1].0 != s[i].0);
        }
    }
    assert(rest.to_multiset().count(s[i]) == 0);
    assert(s.contains(s[i]));
}

/// A root that is collapsed reads as before at every path, unless its only child has to be
/// loaded first.
pub proof fn law_collapsed_root_reads_the_same(root: BranchNode, r: Collapsed, path: Seq<u8>)
    requires
        root.choices@.len() == 16,
        root.value@.len() == 0,
        call_ensures(collapse_root_node, (root,), r),
    ensures
        match r {
            Collapsed::Nothing => find(Node::Branch(root), path) == Found::Nothing,
            Collapsed::Root(node) => find(node, path) == find(Node::Branch(root), path),
            Collapsed::Load { choice, hash } => find(Node::Branch(root), path) == (if path.len()
                > 0 && path[0] == choice {
                Found::Below(hash, path.skip(1))
            } else {
                Found::Nothing
            }),
        },
{
    match r {
        Collapsed::Nothing => {
            law_empty_root_has_no_paths(root, path);
        },
        Collapsed::Root(node) => {
            if crate::blockchain::trie_node::child_count(root.choices@) == 1 {
                let (choice, child) = choose|choice: u8, child: Node|
                    choice < 16 && root.choices@[choice as int] == NodeRef::Node(Box::new(child))
                        && #[trigger] lengthened(choice, child, node);
                law_collapse_keeps_paths(root, choice, child, node, path);
            }
        },
        Collapsed::Load { choice, hash } => {
            crate::blockchain::trie_node::lemma_child_count(root.choices@, choice as int);
            if path.len() > 0 && path[0] < 16 && path[0] != choice {
                assert(root.choices@[path[0] as int] is Empty);
            }
        },
    }
}

proof fn lemma_occupied_pair(slots: Seq<(H256, U256)>, n: int, a: int, b: int)
    requires
        0 <= a < b,
    ensures
        b < n && shard_of(slots, a).len() > 0 && shard_of(slots, b).len() > 0 ==> occupied(slots, n)
            >= 2,
        a < n && shard_of(slots, a).len() > 0 ==> occupied(slots, n) >= 1,
    decreases n,
{
    if n > 0 {
        lemma_occupied_pair(slots, n - 1, a, b);
    }
}

proof fn lemma_occupied_one(slots: Seq<(H256, U256)>, n: int, only: int)
    requires
        forall|m: int|
            0 <= m < n && m != only ==> (#[trigger] shard_of(slots, m)).len() == 0,
    ensures
        occupied(slots, n) <= 1,
        n <= only ==> occupied(slots, n) == 0,
    decreases n,
{
    if n > 0 {
        lemma_occupied_one(slots, n - 1, only);
    }
}

proof fn lemma_shard_has(slots: Seq<(H256, U256)>, i: int)
    requires
        0 <= i < slots.len(),
    ensures
        shard_of(slots, slots[i].0.nibble()).contains(slots[i]),
        shard_of(slots, slots[i].0.nibble()).len() > 0,
{
    assert(slots.contains(slots[i]));
    law_slot_falls_to_its_worker(slots, slots[i].0.nibble(), slots[i]);
}

/// Where the slots of an account belong to one worker they are written in one go, in the
/// order of their keys, and none is lost. Where they belong to more, each of sixteen
/// workers is given exactly those that the upper half of the first byte of their keys names
/// it for.
pub proof fn law_storage_plan_covers_the_slots(
    slots: Vec<(H256, U256)>,
    plan: StoragePlan,
    i: int,
    j: int,
    worker: int,
)
    requires
        call_ensures(compute_sharded_storage_root, (&slots,), plan),
        0 <= i < slots@.len(),
        0 <= j < slots@.len(),
        0 <= worker < 16,
    ensures
        match plan {
            StoragePlan::Serial(same) => {
                &&& same@.to_multiset() == slots@.to_multiset()
                &&& slots@[i].0.bytes()[0] / 16 == slots@[j].0.bytes()[0] / 16
            },
            StoragePlan::Sharded(shards) => {
                &&& shards@.len() == 16
                &&& shards@[worker]@.contains(slots@[i]) <==> slots@[i].0.bytes()[0] / 16 == worker
                &&& !(forall|k: int|
                    0 <= k < slots@.len() ==> (#[trigger] slots@[k]).0.bytes()[0] / 16 == worker)
            },
        },
{
    let order = sorted(slots@);
    law_sorted_is_an_ordered_permutation(slots@);
    let x = lemma_member(slots@, order, i);
    let y = lemma_member(slots@, order, j);
    law_worker_of_a_hash(slots@[i].0);
    law_worker_of_a_hash(slots@[j].0);
    lemma_shard_has(order, x);
    lemma_shard_has(order, y);
    let a = order[x].0.nibble();
    let b = order[y].0.nibble();
    if a < b {
        lemma_occupied_pair(order, 16, a, b);
    } else if b < a {
        lemma_occupied_pair(order, 16, b, a);
    }
    assert(order.contains(order[x]));
    law_slot_falls_to_its_worker(order, worker, slots@[i]);
    if forall|k: int|
        0 <= k < slots@.len() ==> (#[trigger] slots@[k]).0.bytes()[0] / 16 == worker {
        assert forall|m: int| 0 <= m < 16 && m != worker implies (#[trigger] shard_of(
            order,
            m,
        )).len() == 0 by {
            let shard = shard_of(order, m);
            if shard.len() > 0 {
                assert(shard.contains(shard[0]));
                law_slot_falls_to_its_worker(order, m, shard[0]);
                let at = order.index_of(shard[0]);
                let k = lemma_member(order, slots@, at);
                law_worker_of_a_hash(slots@[k].0);
                assert(slots@[k].0.bytes()[0] / 16 == worker);
            }
        }
        lemma_occupied_one(order, 16, worker);
    }
}

} // verus!
