//! Nodes of a Merkle Patricia trie, as far as the root of a trie is put together from
//! the parts that sixteen workers computed.

use crate::blockchain::sorting::{sort, sorted, Ranked};
use crate::word::{H256, U256};
use vstd::prelude::*;

verus! {

/// A child of a node.
pub enum NodeRef {
    /// No child.
    Empty,
    /// A child of which only the hash is in memory.
    Hash(H256),
    Node(Box<Node>),
}

/// A node with a child for each nibble.
pub struct BranchNode {
    pub choices: Vec<NodeRef>,
    /// The value of the path that ends here, empty where there is none.
    pub value: Vec<u8>,
}

/// A stretch of path that all paths below share.
pub struct ExtensionNode {
    pub prefix: Vec<u8>,
    pub child: NodeRef,
}

/// The end of a path, with its value.
pub struct LeafNode {
    pub partial: Vec<u8>,
    pub value: Vec<u8>,
}

pub enum Node {
    Branch(BranchNode),
    Extension(ExtensionNode),
    Leaf(LeafNode),
}

/// What stands at a path.
#[verifier::ext_equal]
pub enum Found {
    Nothing,
    Value(Seq<u8>),
    /// The rest of the path is below a node that is not in memory.
    Below(H256, Seq<u8>),
}

/// What stands at a path below a child.
pub open spec fn find_below(child: NodeRef, path: Seq<u8>) -> Found
    decreases child,
{
    match child {
        NodeRef::Empty => Found::Nothing,
        NodeRef::Hash(hash) => Found::Below(hash, path),
        NodeRef::Node(node) => find(*node, path),
    }
}

/// Whether a path starts with `prefix`.
pub open spec fn starts_with(path: Seq<u8>, prefix: Seq<u8>) -> bool {
    path.len() >= prefix.len() && path.take(prefix.len() as int) == prefix
}

/// What stands at a path below a node.
pub open spec fn find(node: Node, path: Seq<u8>) -> Found
    decreases node,
{
    match node {
        Node::Branch(branch) => if path.len() == 0 {
            if branch.value@.len() == 0 {
                Found::Nothing
            } else {
                Found::Value(branch.value@)
            }
        } else if path[0] < branch.choices@.len() {
            find_below(branch.choices@[path[0] as int], path.skip(1))
        } else {
            Found::Nothing
        },
        Node::Extension(extension) => if starts_with(path, extension.prefix@) {
            find_below(extension.child, path.skip(extension.prefix@.len() as int))
        } else {
            Found::Nothing
        },
        Node::Leaf(leaf) => if path == leaf.partial@ {
            Found::Value(leaf.value@)
        } else {
            Found::Nothing
        },
    }
}

/// A branch with at most one child.
pub open spec fn single_child(branch: BranchNode, at: int, child: NodeRef) -> bool {
    &&& branch.choices@.len() == 16
    &&& branch.value@.len() == 0
    &&& forall|i: int|
        0 <= i < 16 ==> (#[trigger] branch.choices@[i]) == if i == at {
            child
        } else {
            NodeRef::Empty
        }
}

/// `child` is `node` without the first nibble of its path.
pub open spec fn shortened(node: Node, child: NodeRef) -> bool {
    match node {
        Node::Branch(_) => false,
        Node::Extension(extension) => if extension.prefix@.len() == 1 {
            child == extension.child
        } else {
            child matches NodeRef::Node(inner) && (*inner matches Node::Extension(shorter)
                && shorter.prefix@ == extension.prefix@.skip(1) && shorter.child
                == extension.child)
        },
        Node::Leaf(leaf) => child matches NodeRef::Node(inner) && (*inner matches Node::Leaf(
            shorter,
        ) && shorter.partial@ == leaf.partial@.skip(1) && shorter.value@ == leaf.value@),
    }
}

/// The first nibble of the path of an extension or a leaf.
pub open spec fn first_of_path(node: Node) -> u8 {
    match node {
        Node::Branch(_) => 0,
        Node::Extension(extension) => extension.prefix@[0],
        Node::Leaf(leaf) => leaf.partial@[0],
    }
}

/// A node that can be the root of a trie with more than one path: the path of an
/// extension or a leaf is not empty and starts with a nibble.
pub open spec fn can_branch(node: Node) -> bool {
    match node {
        Node::Branch(_) => true,
        Node::Extension(extension) => extension.prefix@.len() > 0 && extension.prefix@[0] < 16,
        Node::Leaf(leaf) => leaf.partial@.len() > 0 && leaf.partial@[0] < 16,
    }
}

/// `branch` is `node` turned into a branch.
pub open spec fn branched(node: Node, branch: BranchNode) -> bool {
    match node {
        Node::Branch(same) => branch == same,
        _ => exists|child: NodeRef| #[trigger]
            shortened(node, child) && single_child(branch, first_of_path(node) as int, child),
    }
}

fn skip_first(path: &Vec<u8>) -> (rest: Vec<u8>)
    requires
        path@.len() > 0,
    ensures
        rest@ == path@.skip(1),
{
    let mut rest: Vec<u8> = Vec::new();
    let mut i: usize = 1;
    while i < path.len()
        invariant
            1 <= i <= path@.len(),
            rest@ =~= path@.subrange(1, i as int),
        decreases path@.len() - i,
    {
        rest.push(path[i]);
        i += 1;
    }
    assert(rest@ =~= path@.skip(1));
    rest
}

fn prepend(first: u8, path: &Vec<u8>) -> (whole: Vec<u8>)
    ensures
        whole@ == seq![first] + path@,
{
    let mut whole: Vec<u8> = Vec::new();
    whole.push(first);
    let mut i: usize = 0;
    while i < path.len()
        invariant
            i <= path@.len(),
            whole@ =~= seq![first] + path@.take(i as int),
        decreases path@.len() - i,
    {
        whole.push(path[i]);
        i += 1;
    }
    assert(path@.take(i as int) =~= path@);
    whole
}

/// A branch without children but for the given one.
fn branch_with(at: u8, child: NodeRef) -> (branch: BranchNode)
    requires
        at < 16,
    ensures
        single_child(branch, at as int, child),
{
    let mut choices: Vec<NodeRef> = Vec::new();
    let mut i: u8 = 0;
    while i < 16
        invariant
            i <= 16,
            choices@.len() == i,
            forall|j: int| 0 <= j < i ==> (#[trigger] choices@[j]) == NodeRef::Empty,
        decreases 16 - i,
    {
        choices.push(NodeRef::Empty);
        i += 1;
    }
    choices[at as usize] = child;
    BranchNode { choices, value: Vec::new() }
}

/// Turns the root of a trie into a branch, so that each worker has its own child of it.
pub fn branchify(node: Node) -> (branch: BranchNode)
    requires
        can_branch(node),
    ensures
        branched(node, branch),
{
    let ghost whole = node;
    match node {
        Node::Branch(branch) => branch,
        Node::Extension(extension) => {
            let index: u8 = extension.prefix[0];
            let child = if extension.prefix.len() == 1 {
                extension.child
            } else {
                NodeRef::Node(
                    Box::new(
                        Node::Extension(
                            ExtensionNode {
                                prefix: skip_first(&extension.prefix),
                                child: extension.child,
                            },
                        ),
                    ),
                )
            };
            assert(shortened(whole, child));
            branch_with(index, child)
        },
        Node::Leaf(leaf) => {
            let index: u8 = leaf.partial[0];
            let child = NodeRef::Node(
                Box::new(
                    Node::Leaf(
                        LeafNode { partial: skip_first(&leaf.partial), value: leaf.value },
                    ),
                ),
            );
            assert(shortened(whole, child));
            branch_with(index, child)
        },
    }
}

/// Nothing moves when a root is turned into a branch: at every path stands what stood
/// there.
pub proof fn law_branchify_keeps_paths(node: Node, branch: BranchNode, path: Seq<u8>)
    requires
        can_branch(node),
        branched(node, branch),
    ensures
        find(Node::Branch(branch), path) == find(node, path),
{
    match node {
        Node::Branch(_) => {},
        _ => {
            let child = choose|child: NodeRef| #[trigger]
                shortened(node, child) && single_child(branch, first_of_path(node) as int, child);
            let first = first_of_path(node);
            if path.len() > 0 && path[0] == first {
                lemma_shortened(node, child, path);
            } else if path.len() > 0 {
                match node {
                    Node::Extension(extension) => {
                        if starts_with(path, extension.prefix@) {
                            assert(path.take(extension.prefix@.len() as int)[0] == path[0]);
                        }
                    },
                    _ => {},
                }
                if path[0] < 16 {
                    assert(branch.choices@[path[0] as int] == NodeRef::Empty);
                }
            }
        },
    }
}

/// Below its first nibble a node reads as the same node without it.
proof fn lemma_shortened(node: Node, child: NodeRef, path: Seq<u8>)
    requires
        can_branch(node),
        !(node is Branch),
        shortened(node, child),
        path.len() > 0,
        path[0] == first_of_path(node),
    ensures
        find_below(child, path.skip(1)) == find(node, path),
{
    let rest = path.skip(1);
    match node {
        Node::Branch(_) => {},
        Node::Extension(extension) => {
            let n = extension.prefix@.len() as int;
            if n == 1 {
                assert(path.take(1) =~= extension.prefix@);
            } else {
                let shorter = extension.prefix@.skip(1);
                if starts_with(rest, shorter) {
                    assert(path.take(n) =~= extension.prefix@) by {
                        assert forall|i: int| 0 <= i < n implies path[i] == extension.prefix@[i] by {
                            if i > 0 {
                                assert(rest.take(shorter.len() as int)[i - 1] == shorter[i - 1]);
                            }
                        }
                    }
                }
                if starts_with(path, extension.prefix@) {
                    assert(rest.take(shorter.len() as int) =~= shorter) by {
                        assert forall|i: int| 0 <= i < n - 1 implies rest[i] == shorter[i] by {
                            assert(path.take(n)[i + 1] == extension.prefix@[i + 1]);
                        }
                    }
                    assert(rest.skip(n - 1) =~= path.skip(n));
                }
                match child {
                    NodeRef::Node(inner) => {
                        assert(find_below(child, rest) == find(*inner, rest));
                        match *inner {
                            Node::Extension(short) => {
                                assert(short.prefix@ == shorter);
                                if starts_with(rest, shorter) {
                                    assert(rest.skip(n - 1) =~= path.skip(n));
                                }
                            },
                            _ => {},
                        }
                    },
                    _ => {},
                }
            }
        },
        Node::Leaf(leaf) => {
            if rest == leaf.partial@.skip(1) {
                assert(path =~= leaf.partial@) by {
                    assert forall|i: int| 0 <= i < path.len() implies path[i] == leaf.partial@[i] by {
                        if i > 0 {
                            assert(rest[i - 1] == leaf.partial@.skip(1)[i - 1]);
                        }
                    }
                }
            }
        },
    }
}

/// `whole` is `node` with one more nibble in front of its path.
pub open spec fn lengthened(first: u8, node: Node, whole: Node) -> bool {
    match node {
        Node::Branch(_) => whole matches Node::Extension(extension) && extension.prefix@
            == seq![first] && extension.child == NodeRef::Node(Box::new(node)),
        Node::Extension(short) => whole matches Node::Extension(extension) && extension.prefix@
            == seq![first] + short.prefix@ && extension.child == short.child,
        Node::Leaf(short) => whole matches Node::Leaf(leaf) && leaf.partial@ == seq![first]
            + short.partial@ && leaf.value@ == short.value@,
    }
}

/// Puts one more nibble in front of the path of a node.
pub fn attach(first: u8, node: Node) -> (whole: Node)
    ensures
        lengthened(first, node, whole),
{
    match node {
        Node::Branch(branch) => {
            let mut prefix: Vec<u8> = Vec::new();
            prefix.push(first);
            assert(prefix@ =~= seq![first]);
            Node::Extension(
                ExtensionNode { prefix, child: NodeRef::Node(Box::new(Node::Branch(branch))) },
            )
        },
        Node::Extension(extension) => Node::Extension(
            ExtensionNode {
                prefix: prepend(first, &extension.prefix),
                child: extension.child,
            },
        ),
        Node::Leaf(leaf) => Node::Leaf(
            LeafNode { partial: prepend(first, &leaf.partial), value: leaf.value },
        ),
    }
}

/// A longer path reads below its first nibble as the shorter one.
pub proof fn law_attach_keeps_paths(first: u8, node: Node, whole: Node, path: Seq<u8>)
    requires
        lengthened(first, node, whole),
    ensures
        find(whole, path) == if path.len() > 0 && path[0] == first {
            find(node, path.skip(1))
        } else {
            Found::Nothing
        },
{
    match node {
        Node::Branch(_) => {
            if path.len() > 0 && path[0] == first {
                assert(path.take(1) =~= seq![first]);
            } else if path.len() > 0 {
                assert(path.take(1)[0] != seq![first][0]);
            }
        },
        Node::Extension(short) => {
            let n = short.prefix@.len() as int;
            let prefix = seq![first] + short.prefix@;
            if starts_with(path, prefix) {
                assert(path.take(n + 1)[0] == path[0]);
                assert(path.skip(1).take(n) =~= short.prefix@) by {
                    assert forall|i: int| 0 <= i < n implies path.skip(1)[i] == short.prefix@[i] by {
                        assert(path.take(n + 1)[i + 1] == prefix[i + 1]);
                    }
                }
                assert(path.skip(1).skip(n) =~= path.skip(n + 1));
            } else if path.len() > 0 && path[0] == first && starts_with(
                path.skip(1),
                short.prefix@,
            ) {
                assert(path.take(n + 1) =~= prefix) by {
                    assert forall|i: int| 0 <= i < n + 1 implies path[i] == prefix[i] by {
                        if i > 0 {
                            assert(path.skip(1).take(n)[i - 1] == short.prefix@[i - 1]);
                        }
                    }
                }
            }
        },
        Node::Leaf(short) => {
            let partial = seq![first] + short.partial@;
            if path.len() > 0 && path[0] == first && path.skip(1) == short.partial@ {
                assert(path =~= partial) by {
                    assert forall|i: int| 0 <= i < path.len() implies path[i] == partial[i] by {
                        if i > 0 {
                            assert(path.skip(1)[i - 1] == short.partial@[i - 1]);
                        }
                    }
                }
            }
            if path == partial {
                assert(path.skip(1) =~= short.partial@);
            }
        },
    }
}

/// The root that a branch stands for.
pub enum Collapsed {
    /// A trie without paths.
    Nothing,
    Root(Node),
    /// The only child has to be loaded, and is then attached to its nibble.
    Load { choice: u8, hash: H256 },
}

/// How many children a branch has, from the first `n` on.
pub open spec fn child_count(choices: Seq<NodeRef>) -> nat
    decreases choices.len(),
{
    if choices.len() == 0 {
        0
    } else {
        child_count(choices.drop_last()) + if choices.last() is Empty {
            0nat
        } else {
            1
        }
    }
}

/// A branch with a child has one, and with one child no other.
pub proof fn lemma_child_count(choices: Seq<NodeRef>, at: int)
    requires
        0 <= at < choices.len(),
        !(choices[at] is Empty),
    ensures
        child_count(choices) >= 1,
        child_count(choices) == 1 ==> forall|i: int|
            0 <= i < choices.len() && i != at ==> (#[trigger] choices[i]) is Empty,
    decreases choices.len(),
{
    let rest = choices.drop_last();
    if at == choices.len() - 1 {
        if child_count(choices) == 1 {
            lemma_no_children(rest);
            assert forall|i: int| 0 <= i < choices.len() && i != at implies (
            #[trigger] choices[i]) is Empty by {
                assert(rest[i] is Empty);
            }
        }
    } else {
        lemma_child_count(rest, at);
        if child_count(choices) == 1 {
            assert forall|i: int| 0 <= i < choices.len() && i != at implies (
            #[trigger] choices[i]) is Empty by {
                if i < rest.len() {
                    assert(rest[i] is Empty);
                }
            }
        }
    }
}

proof fn lemma_no_children(choices: Seq<NodeRef>)
    requires
        child_count(choices) == 0,
    ensures
        forall|i: int| 0 <= i < choices.len() ==> (#[trigger] choices[i]) is Empty,
    decreases choices.len(),
{
    if choices.len() > 0 {
        let rest = choices.drop_last();
        lemma_no_children(rest);
        assert forall|i: int| 0 <= i < choices.len() implies (#[trigger] choices[i]) is Empty by {
            if i < rest.len() {
                assert(rest[i] is Empty);
            }
        }
    }
}

/// A branch with a child has one, and with one child no other.
pub proof fn lemma_child_count_take(choices: Seq<NodeRef>, n: int)
    requires
        0 <= n <= choices.len(),
    ensures
        child_count(choices.take(n)) <= child_count(choices),
    decreases choices.len(),
{
    if n < choices.len() {
        assert(choices.drop_last().take(n) =~= choices.take(n));
        lemma_child_count_take(choices.drop_last(), n);
    } else {
        assert(choices.take(n) =~= choices);
    }
}

/// What becomes of the root that was put together from sixteen parts: a branch with one
/// child is no node of a trie, and one with none stands for an empty trie.
pub fn collapse_root_node(root: BranchNode) -> (r: Collapsed)
    requires
        root.choices@.len() == 16,
    ensures
        match r {
            Collapsed::Nothing => child_count(root.choices@) == 0,
            Collapsed::Load { choice, hash } => child_count(root.choices@) == 1 && choice < 16
                && root.choices@[choice as int] == NodeRef::Hash(hash),
            Collapsed::Root(node) => {
                ||| child_count(root.choices@) >= 2 && node == Node::Branch(root)
                ||| child_count(root.choices@) == 1 && exists|choice: u8, child: Node|
                    choice < 16 && root.choices@[choice as int] == NodeRef::Node(Box::new(child))
                        && #[trigger] lengthened(choice, child, node)
            },
        },
{
    let mut count: usize = 0;
    let mut at: u8 = 0;
    let mut i: u8 = 0;
    proof {
        assert(root.choices@.take(0) =~= Seq::empty());
    }
    while i < 16 && count < 2
        invariant
            i <= 16,
            root.choices@.len() == 16,
            count <= 2,
            count == child_count(root.choices@.take(i as int)),
            count > 0 ==> at < 16 && !(root.choices@[at as int] is Empty),
        decreases 16 - i,
    {
        match &root.choices[i as usize] {
            NodeRef::Empty => {},
            _ => {
                count += 1;
                at = i;
            },
        }
        i += 1;
        proof {
            let done = root.choices@.take(i as int);
            assert(done.drop_last() =~= root.choices@.take(i - 1));
            assert(done.last() == root.choices@[i - 1]);
        }
    }
    proof {
        lemma_child_count_take(root.choices@, i as int);
        if i == 16 {
            assert(root.choices@.take(16) =~= root.choices@);
        }
    }
    if count > 1 {
        return Collapsed::Root(Node::Branch(root));
    }
    if count == 0 {
        return Collapsed::Nothing;
    }
    let mut choices = root.choices;
    let ghost before = choices@;
    let child = choices.swap_remove(at as usize);
    assert(child == before[at as int]);
    match child {
        NodeRef::Empty => Collapsed::Nothing,
        NodeRef::Hash(hash) => Collapsed::Load { choice: at, hash },
        NodeRef::Node(node) => {
            let whole = attach(at, *node);
            assert(lengthened(at, *node, whole));
            Collapsed::Root(whole)
        },
    }
}

/// Nothing moves when a root is collapsed: at every path stands what stood there.
pub proof fn law_collapse_keeps_paths(
    root: BranchNode,
    choice: u8,
    child: Node,
    collapsed: Node,
    path: Seq<u8>,
)
    requires
        root.choices@.len() == 16,
        root.value@.len() == 0,
        child_count(root.choices@) == 1,
        choice < 16,
        root.choices@[choice as int] == NodeRef::Node(Box::new(child)),
        lengthened(choice, child, collapsed),
    ensures
        find(collapsed, path) == find(Node::Branch(root), path),
{
    law_attach_keeps_paths(choice, child, collapsed, path);
    lemma_child_count(root.choices@, choice as int);
    if path.len() > 0 && path[0] < 16 && path[0] != choice {
        assert(root.choices@[path[0] as int] is Empty);
    }
}

/// An empty root has nothing at any path.
pub proof fn law_empty_root_has_no_paths(root: BranchNode, path: Seq<u8>)
    requires
        root.choices@.len() == 16,
        root.value@.len() == 0,
        child_count(root.choices@) == 0,
    ensures
        find(Node::Branch(root), path) == Found::Nothing,
{
    lemma_no_children(root.choices@);
    if path.len() > 0 && path[0] < 16 {
        assert(root.choices@[path[0] as int] is Empty);
    }
}

/// Whether a node that a worker collected belongs to its part of the trie.
pub fn in_shard(path: &Vec<u8>, index: u8) -> (b: bool)
    ensures
        b == (path@.len() > 0 && path@[0] == index),
{
    path.len() > 0 && path[0] == index
}

/// The slots that each of sixteen workers holds, in their order.
pub open spec fn shard_of(slots: Seq<(H256, U256)>, nibble: int) -> Seq<(H256, U256)>
    decreases slots.len(),
{
    if slots.len() == 0 {
        Seq::empty()
    } else if slots.last().0.nibble() == nibble {
        shard_of(slots.drop_last(), nibble).push(slots.last())
    } else {
        shard_of(slots.drop_last(), nibble)
    }
}

/// How many of sixteen buckets hold anything, from the front.
pub open spec fn occupied(slots: Seq<(H256, U256)>, n: int) -> nat
    decreases n,
{
    if n <= 0 {
        0
    } else {
        occupied(slots, n - 1) + if shard_of(slots, n - 1).len() > 0 {
            1nat
        } else {
            0
        }
    }
}

/// How the storage root of one account is computed.
pub enum StoragePlan {
    /// In one go: the slots fall to one worker at most.
    Serial(Vec<(H256, U256)>),
    /// By sixteen workers, each with its slots.
    Sharded(Vec<Vec<(H256, U256)>>),
}

/// Slots rank by their hashed key.
impl Ranked for (H256, U256) {
    open spec fn rank(self) -> int {
        self.0@ as int
    }

    fn ranks_at_most(&self, other: &Self) -> (b: bool) {
        !other.0.before(&self.0)
    }
}

/// How the storage root of one account is computed from its slots with their hashed
/// keys. The slots are put into the order of their keys, slots with the same key in the
/// order that they had, and dealt out to sixteen workers by the first nibble of the key.
/// Where all fall to one worker there is nothing to gain.
pub fn compute_sharded_storage_root(hashed_storage: &Vec<(H256, U256)>) -> (plan: StoragePlan)
    ensures
        ({
            let slots = sorted(hashed_storage@);
            match plan {
                StoragePlan::Serial(same) => occupied(slots, 16) <= 1 && same@ == slots,
                StoragePlan::Sharded(shards) => {
                    &&& occupied(slots, 16) > 1
                    &&& shards@.len() == 16
                    &&& forall|n: int|
                        0 <= n < 16 ==> (#[trigger] shards@[n])@ == shard_of(slots, n)
                },
            }
        }),
{
    let slots = sort(hashed_storage);
    let mut shards: Vec<Vec<(H256, U256)>> = Vec::new();
    let mut n: usize = 0;
    while n < 16
        invariant
            n <= 16,
            shards@.len() == n,
            forall|k: int| 0 <= k < n ==> (#[trigger] shards@[k])@ == Seq::<(H256, U256)>::empty(),
        decreases 16 - n,
    {
        shards.push(Vec::new());
        n += 1;
    }
    let mut i: usize = 0;
    proof {
        assert(slots@.take(0) =~= Seq::empty());
    }
    while i < slots.len()
        invariant
            i <= slots@.len(),
            shards@.len() == 16,
            forall|k: int|
                0 <= k < 16 ==> (#[trigger] shards@[k])@ == shard_of(slots@.take(i as int), k),
        decreases slots@.len() - i,
    {
        let (key, value) = slots[i];
        let nibble: usize = key.first_nibble() as usize;
        let ghost before = shards@;
        shards[nibble].push((key, value));
        i += 1;
        proof {
            let done = slots@.take(i as int);
            assert(done.drop_last() =~= slots@.take(i - 1));
            assert(done.last() == slots@[i - 1]);
            assert forall|k: int| 0 <= k < 16 implies (#[trigger] shards@[k])@ == shard_of(
                done,
                k,
            ) by {
                assert(before[k]@ == shard_of(slots@.take(i - 1), k));
            }
        }
    }
    assert(slots@.take(i as int) =~= slots@);
    let mut count: usize = 0;
    let mut m: usize = 0;
    while m < 16
        invariant
            m <= 16,
            count <= m,
            shards@.len() == 16,
            forall|k: int| 0 <= k < 16 ==> (#[trigger] shards@[k])@ == shard_of(slots@, k),
            count == occupied(slots@, m as int),
        decreases 16 - m,
    {
        if shards[m].len() > 0 {
            count += 1;
        }
        m += 1;
    }
    if count <= 1 {
        StoragePlan::Serial(slots)
    } else {
        StoragePlan::Sharded(shards)
    }
}

/// Every slot falls to exactly the worker of its first nibble.
pub proof fn law_slot_falls_to_its_worker(slots: Seq<(H256, U256)>, nibble: int, slot: (H256, U256))
    ensures
        shard_of(slots, nibble).contains(slot) == (slots.contains(slot) && slot.0.nibble()
            == nibble),
    decreases slots.len(),
{
    if slots.len() > 0 {
        let rest = slots.drop_last();
        let last = slots.last();
        let shard = shard_of(slots, nibble);
        let before = shard_of(rest, nibble);
        law_slot_falls_to_its_worker(rest, nibble, slot);
        if rest.contains(slot) {
            assert(slots[rest.index_of(slot)] == slot);
        }
        if slot == last {
            assert(slots[slots.len() - 1] == slot);
        }
        if slots.contains(slot) {
            let i = slots.index_of(slot);
            if i < rest.len() {
                assert(rest[i] == slot);
            }
        }
        if last.0.nibble() == nibble {
            if before.contains(slot) {
                assert(shard[before.index_of(slot)] == slot);
            }
            if slot == last {
                assert(shard[shard.len() - 1] == slot);
            }
            if shard.contains(slot) {
                let i = shard.index_of(slot);
                if i < before.len() {
                    assert(before[i] == slot);
                }
            }
        }
    }
}

/// What slots hold once they were written one after another.
pub open spec fn written(slots: Seq<(H256, U256)>) -> Map<H256, U256>
    decreases slots.len(),
{
    if slots.len() == 0 {
        Map::empty()
    } else {
        written(slots.drop_last()).insert(slots.last().0, slots.last().1)
    }
}

proof fn lemma_written_placed(slots: Seq<(H256, U256)>, slot: (H256, U256))
    ensures
        written(crate::blockchain::sorting::placed(slots, slot)) == written(slots).insert(
            slot.0,
            slot.1,
        ),
    decreases slots.len(),
{
    let after = crate::blockchain::sorting::placed(slots, slot);
    if slots.len() == 0 || slots.last().rank() <= slot.rank() {
        assert(after.drop_last() =~= slots);
    } else {
        let rest = slots.drop_last();
        lemma_written_placed(rest, slot);
        assert(after.drop_last() =~= crate::blockchain::sorting::placed(rest, slot));
        assert(slots.last().0 != slot.0);
        assert(written(rest).insert(slot.0, slot.1).insert(slots.last().0, slots.last().1)
            =~= written(rest).insert(slots.last().0, slots.last().1).insert(slot.0, slot.1));
    }
}

proof fn lemma_written_sorted(slots: Seq<(H256, U256)>)
    ensures
        written(sorted(slots)) == written(slots),
    decreases slots.len(),
{
    if slots.len() > 0 {
        lemma_written_sorted(slots.drop_last());
        lemma_written_placed(sorted(slots.drop_last()), slots.last());
    }
}

proof fn lemma_written_shard(slots: Seq<(H256, U256)>, nibble: int, key: H256)
    ensures
        written(shard_of(slots, nibble)).contains_key(key) == (written(slots).contains_key(key)
            && key.nibble() == nibble),
        written(shard_of(slots, nibble)).contains_key(key) ==> written(
            shard_of(slots, nibble),
        )[key] == written(slots)[key],
    decreases slots.len(),
{
    if slots.len() > 0 {
        let rest = slots.drop_last();
        lemma_written_shard(rest, nibble, key);
        if slots.last().0.nibble() == nibble {
            assert(shard_of(slots, nibble).drop_last() =~= shard_of(rest, nibble));
        }
    }
}

/// Sorting slots and dealing them out to sixteen workers changes nothing of what is
/// written: the worker of a key's first nibble, and no other, leaves under the key what
/// the last of the given slots with that key holds.
pub proof fn law_sharding_writes_the_same(slots: Seq<(H256, U256)>, nibble: int, key: H256)
    ensures
        written(sorted(slots)) == written(slots),
        written(shard_of(sorted(slots), nibble)).contains_key(key) == (written(slots).contains_key(
            key,
        ) && key.nibble() == nibble),
        written(shard_of(sorted(slots), nibble)).contains_key(key) ==> written(
            shard_of(sorted(slots), nibble),
        )[key] == written(slots)[key],
{
    lemma_written_sorted(slots);
    lemma_written_shard(sorted(slots), nibble, key);
}

} // verus!
