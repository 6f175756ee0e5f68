//! What a stateless verifier needs of a block: which nodes of the tries, which codes and
//! which headers go into its witness.

use crate::account::{empty_trie, empty_trie_hash, AccountState, AccountUpdate};
use crate::block::BlockHeader;
use crate::blockchain::checks::BlockchainType;
use crate::chain_error::{decimal, decimal_text, ChainError};
use crate::table::{lemma_walk, lemma_walk_end, Table};
use crate::word::{Address, H256};
use vstd::prelude::*;
use vstd::string::*;

verus! {

/// The first `n` keys without those that stood before.
pub open spec fn first_occurrences(keys: Seq<H256>, n: int) -> Seq<H256>
    decreases n,
{
    if n <= 0 {
        Seq::empty()
    } else if keys.take(n - 1).contains(keys[n - 1]) {
        first_occurrences(keys, n - 1)
    } else {
        first_occurrences(keys, n - 1).push(keys[n - 1])
    }
}

/// The keys in the order in which they were first read, each once.
pub fn deduplicate(keys: &Vec<H256>) -> (distinct: Vec<H256>)
    ensures
        distinct@ == first_occurrences(keys@, keys@.len() as int),
{
    let mut distinct: Vec<H256> = Vec::new();
    let mut seen: Table<H256, ()> = Table::new();
    let mut i: usize = 0;
    while i < keys.len()
        invariant
            i <= keys@.len(),
            distinct@ == first_occurrences(keys@, i as int),
            forall|k: H256| #[trigger]
                seen@.contains_key(k) <==> keys@.take(i as int).contains(k),
        decreases keys@.len() - i,
    {
        let key = keys[i];
        let ghost before = seen@;
        if !seen.contains_key(key) {
            seen.insert(key, ());
            distinct.push(key);
        }
        i += 1;
        proof {
            let now = keys@.take(i as int);
            assert(now =~= keys@.take(i - 1).push(key));
            assert forall|k: H256| #[trigger] seen@.contains_key(k) <==> now.contains(k) by {
                assert(before.contains_key(k) <==> keys@.take(i - 1).contains(k));
                if now.contains(k) {
                    let at = now.index_of(k);
                    if at < i - 1 {
                        assert(keys@.take(i - 1)[at] == k);
                    }
                }
                if keys@.take(i - 1).contains(k) {
                    let at = keys@.take(i - 1).index_of(k);
                    assert(now[at] == k);
                }
                if k == key {
                    assert(now[i - 1] == k);
                }
            }
        }
    }
    distinct
}

proof fn lemma_first_occurrences(keys: Seq<H256>, n: int)
    requires
        0 <= n <= keys.len(),
    ensures
        first_occurrences(keys, n).no_duplicates(),
        forall|k: H256| #[trigger]
            first_occurrences(keys, n).contains(k) <==> keys.take(n).contains(k),
    decreases n,
{
    if n > 0 {
        lemma_first_occurrences(keys, n - 1);
        let before = first_occurrences(keys, n - 1);
        let now = first_occurrences(keys, n);
        let all = keys.take(n);
        let fewer = keys.take(n - 1);
        assert(all =~= fewer.push(keys[n - 1]));
        assert forall|k: H256| #[trigger] now.contains(k) <==> all.contains(k) by {
            assert(before.contains(k) <==> fewer.contains(k));
            if now.contains(k) {
                let at = now.index_of(k);
                if at < before.len() {
                    assert(before[at] == k);
                    let there = fewer.index_of(k);
                    assert(all[there] == k);
                } else {
                    assert(all[n - 1] == k);
                }
            }
            if all.contains(k) {
                let at = all.index_of(k);
                if at < n - 1 {
                    assert(fewer[at] == k);
                }
                if before.contains(k) {
                    let there = before.index_of(k);
                    assert(now[there] == k);
                } else {
                    assert(k == keys[n - 1]);
                    assert(now[now.len() - 1] == k);
                }
            }
        }
        assert(before.contains(keys[n - 1]) <==> fewer.contains(keys[n - 1]));
        if !fewer.contains(keys[n - 1]) {
            assert forall|i: int, j: int|
                0 <= i < now.len() && 0 <= j < now.len() && i != j implies now[i] != now[j] by {
                if i < before.len() && j < before.len() {
                    assert(before[i] != before[j]);
                } else if i < before.len() {
                    assert(before[i] == now[i]);
                    assert(before.contains(before[i]));
                } else {
                    assert(before[j] == now[j]);
                    assert(before.contains(before[j]));
                }
            }
        }
    }
}

/// Keys without repetitions: every key that was read is there, once, and no other.
pub proof fn law_deduplicated_keys(keys: Seq<H256>)
    ensures
        first_occurrences(keys, keys.len() as int).no_duplicates(),
        first_occurrences(keys, keys.len() as int).to_set() == keys.to_set(),
{
    let distinct = first_occurrences(keys, keys.len() as int);
    lemma_first_occurrences(keys, keys.len() as int);
    assert(keys.take(keys.len() as int) =~= keys);
    assert forall|k: H256| #[trigger] distinct.to_set().contains(k) <==> keys.to_set().contains(
        k,
    ) by {
        assert(distinct.contains(k) <==> keys.contains(k));
    }
    assert(distinct.to_set() =~= keys.to_set());
}

/// `n` is the least number that a block hash was asked of.
pub open spec fn least_asked(references: Map<u64, H256>, n: u64) -> bool {
    &&& references.contains_key(n)
    &&& forall|m: u64| #[trigger] references.contains_key(m) ==> n <= m
}

/// The number before a number, and zero before zero.
pub open spec fn before(n: u64) -> u64 {
    if n == 0 {
        0
    } else {
        (n - 1) as u64
    }
}

/// The hash of the first block whose header is needed: the oldest one whose hash was
/// asked for, where it is older than the parent of the first block, and else that parent.
pub fn first_needed_block_hash(
    references: &Table<u64, H256>,
    first_number: u64,
    parent_hash: H256,
) -> (hash: H256)
    ensures
        forall|n: u64| #[trigger]
            least_asked(references@, n) ==> hash == if n < before(first_number) {
                references@[n]
            } else {
                parent_hash
            },
        references@ == Map::<u64, H256>::empty() ==> hash == parent_hash,
        hash == parent_hash || exists|n: u64| #[trigger]
            least_asked(references@, n) && n < before(first_number) && hash == references@[n],
        forall|n: u64|
            #![trigger references@.contains_key(n)]
            references@.contains_key(n) && (forall|m: u64| #[trigger]
                references@.contains_key(m) ==> n <= m) ==> hash == if n + 1 < first_number {
                references@[n]
            } else {
                parent_hash
            },
{
    let keys = references.keys();
    let mut least: Option<u64> = None;
    let mut i: usize = 0;
    while i < keys.len()
        invariant
            i <= keys@.len(),
            forall|j: int| 0 <= j < keys@.len() ==> references@.contains_key(#[trigger] keys@[j]),
            match least {
                Some(n) => references@.contains_key(n) && forall|j: int|
                    0 <= j < i ==> n <= #[trigger] keys@[j],
                None => i == 0,
            },
        decreases keys@.len() - i,
    {
        let key: u64 = keys[i];
        least = match least {
            Some(n) => if key < n {
                Some(key)
            } else {
                Some(n)
            },
            None => Some(key),
        };
        i += 1;
    }
    proof {
        assert forall|m: u64| #[trigger] references@.contains_key(m) implies least is Some
            && least->0 <= m by {
            assert(keys@.to_set().contains(m));
            let at = keys@.index_of(m);
            assert(keys@[at] == m);
        }
    }
    match least {
        Some(n) => {
            assert(least_asked(references@, n));
            let before_first: u64 = if first_number == 0 {
                0
            } else {
                first_number - 1
            };
            if n < before_first {
                match references.get(n) {
                    Some(hash) => *hash,
                    None => parent_hash,
                }
            } else {
                parent_hash
            }
        },
        None => parent_hash,
    }
}

/// The way back from the last block to the first one whose header is needed.
pub struct HeaderWalk {
    /// The hash of the last block, and that of its parent.
    pub last: H256,
    pub last_parent: H256,
    /// The hash of the block to arrive at.
    pub needed: H256,
    /// The hash, the parent's hash and the number of the block that was arrived at.
    pub hash: H256,
    pub parent_hash: H256,
    pub number: u64,
    /// The headers that were passed, the youngest first, without the last block's own.
    pub headers: Vec<BlockHeader>,
    /// The hashes of these headers.
    pub hashes: Vec<H256>,
}

/// What a block that was asked for is answered.
pub enum HeaderAnswer {
    /// Its header and the header's own hash.
    Found(BlockHeader, H256),
    Missing,
    Failed(String),
}

impl HeaderWalk {
    /// The hash of the parent of the block before the one at position `i` of the headers.
    pub open spec fn parent_before(self, i: int) -> H256 {
        if i <= 0 {
            self.last_parent
        } else {
            self.headers@[i - 1].parent_hash
        }
    }

    /// The headers are a chain: each is the parent of the one before it, the first one that
    /// of the last block, and the block to arrive at was not passed.
    pub open spec fn chained(self) -> bool {
        let n = self.headers@.len() as int;
        &&& self.hashes@.len() == n
        &&& forall|i: int| 0 <= i < n ==> (#[trigger] self.hashes@[i]) == self.parent_before(i)
        &&& self.parent_hash == self.parent_before(n)
        &&& self.hash == if n == 0 {
            self.last
        } else {
            self.hashes@[n - 1]
        }
        &&& n > 0 ==> self.last != self.needed
        &&& forall|i: int| 0 <= i < n - 1 ==> (#[trigger] self.hashes@[i]) != self.needed
    }

    /// Sets out at the last block.
    pub fn start(needed: H256, last: &BlockHeader, hash: H256) -> (w: HeaderWalk)
        ensures
            w.last == hash,
            w.last_parent == last.parent_hash,
            w.needed == needed,
            w.hash == hash,
            w.parent_hash == last.parent_hash,
            w.number == last.number,
            w.headers@ == Seq::<BlockHeader>::empty(),
            w.hashes@ == Seq::<H256>::empty(),
            w.chained(),
    {
        HeaderWalk {
            last: hash,
            last_parent: last.parent_hash,
            needed,
            hash,
            parent_hash: last.parent_hash,
            number: last.number,
            headers: Vec::new(),
            hashes: Vec::new(),
        }
    }

    /// The hash of the block to ask for, or `None` on arrival.
    pub fn next(&self) -> (ask: Option<H256>)
        ensures
            ask == if self.hash == self.needed {
                None
            } else {
                Some(self.parent_hash)
            },
    {
        if self.hash == self.needed {
            None
        } else {
            Some(self.parent_hash)
        }
    }

    /// Takes the answer in. A block that is not there ends the walk. As long as the answers
    /// are the blocks that were asked for, the headers are a chain.
    pub fn answered(&mut self, answer: HeaderAnswer) -> (r: Result<(), ChainError>)
        requires
            old(self).number >= 1,
        ensures
            final(self).needed == old(self).needed,
            final(self).last == old(self).last,
            final(self).last_parent == old(self).last_parent,
            match answer {
                HeaderAnswer::Found(header, hash) => {
                    &&& r is Ok
                    &&& old(self).chained() && old(self).hash != old(self).needed && hash
                        == old(self).parent_hash ==> final(self).chained()
                    &&& final(self).hash == hash
                    &&& final(self).parent_hash == header.parent_hash
                    &&& final(self).number == header.number
                    &&& final(self).headers@ == old(self).headers@.push(header)
                    &&& final(self).hashes@ == old(self).hashes@.push(hash)
                },
                HeaderAnswer::Missing => {
                    &&& *final(self) == *old(self)
                    &&& r matches Err(ChainError::WitnessGeneration(why)) && why@
                        == "Failed to get block "@ + decimal((old(self).number - 1) as nat)
                        + " header"@
                },
                HeaderAnswer::Failed(why) => {
                    &&& *final(self) == *old(self)
                    &&& r == Err::<(), ChainError>(ChainError::StoreError(why))
                },
            },
    {
        match answer {
            HeaderAnswer::Found(header, hash) => {
                self.hash = hash;
                self.parent_hash = header.parent_hash;
                self.number = header.number;
                self.headers.push(header);
                self.hashes.push(hash);
                proof {
                    let n = old(self).headers@.len() as int;
                    if old(self).chained() && old(self).hash != old(self).needed && hash
                        == old(self).parent_hash {
                        assert(self.parent_before(n + 1) == header.parent_hash);
                        assert forall|i: int| 0 <= i < n + 1 implies (#[trigger] self.hashes@[i])
                            == self.parent_before(i) by {
                            if i < n {
                                assert(self.hashes@[i] == old(self).hashes@[i]);
                            }
                            assert(self.parent_before(i) == old(self).parent_before(i));
                        }
                        assert forall|i: int| 0 <= i < n implies (#[trigger] self.hashes@[i])
                            != self.needed by {
                            assert(self.hashes@[i] == old(self).hashes@[i]);
                        }
                    }
                }
                Ok(())
            },
            HeaderAnswer::Missing => {
                let mut why = "Failed to get block ".to_owned();
                why.append(decimal_text(self.number - 1).as_str());
                why.append(" header");
                Err(ChainError::WitnessGeneration(why))
            },
            HeaderAnswer::Failed(why) => Err(ChainError::StoreError(why)),
        }
    }
}

/// A walk that arrived has the headers from the last block's parent down to the needed
/// block, each the parent of the one before it, and no others. It has none where the last
/// block is the needed one.
pub proof fn law_walk_arrives_with_the_parent_chain(walk: HeaderWalk)
    requires
        walk.chained(),
        walk.hash == walk.needed,
    ensures
        ({
            let n = walk.headers@.len() as int;
            &&& n == 0 <==> walk.last == walk.needed
            &&& n > 0 ==> walk.hashes@[0] == walk.last_parent && walk.hashes@[n - 1] == walk.needed
            &&& forall|i: int|
                0 < i < n ==> (#[trigger] walk.hashes@[i]) == walk.headers@[i - 1].parent_hash
            &&& forall|i: int| 0 <= i < n - 1 ==> (#[trigger] walk.hashes@[i]) != walk.needed
        }),
{
}

/// The storage root of an account that belongs into a witness: it is not that of an
/// empty storage, and its node was read.
pub open spec fn relevant_root(
    account: Option<AccountState>,
    nodes: Set<H256>,
) -> Option<H256> {
    match account {
        Some(state) => if state.storage_root != empty_trie() && nodes.contains(
            state.storage_root,
        ) {
            Some(state.storage_root)
        } else {
            None
        },
        None => None,
    }
}

/// The storage roots among the first `n` accounts that belong into a witness.
pub open spec fn relevant_roots(
    accounts: Seq<(H256, Option<AccountState>)>,
    nodes: Set<H256>,
    n: int,
) -> Seq<(H256, H256)>
    decreases n,
{
    if n <= 0 {
        Seq::empty()
    } else {
        match relevant_root(accounts[n - 1].1, nodes) {
            Some(root) => relevant_roots(accounts, nodes, n - 1).push((accounts[n - 1].0, root)),
            None => relevant_roots(accounts, nodes, n - 1),
        }
    }
}

/// The accounts that were touched, by their hashed addresses, with the storage roots that
/// belong into the witness.
pub fn select_storage_roots<N>(
    accounts: &Vec<(H256, Option<AccountState>)>,
    nodes: &Table<H256, N>,
) -> (roots: Vec<(H256, H256)>)
    ensures
        roots@ == relevant_roots(accounts@, nodes@.dom(), accounts@.len() as int),
{
    let mut roots: Vec<(H256, H256)> = Vec::new();
    let empty = empty_trie_hash();
    let mut i: usize = 0;
    while i < accounts.len()
        invariant
            i <= accounts@.len(),
            empty == empty_trie(),
            roots@ == relevant_roots(accounts@, nodes@.dom(), i as int),
        decreases accounts@.len() - i,
    {
        match accounts[i].1 {
            Some(state) => {
                if state.storage_root != empty && nodes.contains_key(state.storage_root) {
                    roots.push((accounts[i].0, state.storage_root));
                }
            },
            None => {},
        }
        i += 1;
    }
    roots
}

/// The root node of a storage trie with everything that was read of it: a witness without
/// it is an error.
pub fn embedded_root<N>(node: Option<N>) -> (r: Result<N, ChainError>)
    ensures
        match node {
            Some(n) => r == Ok::<N, ChainError>(n),
            None => r matches Err(ChainError::Custom(why)) && why@
                == "execution witness does not contain non-empty storage trie"@,
        },
{
    match node {
        Some(n) => Ok(n),
        None => Err(
            ChainError::Custom(
                "execution witness does not contain non-empty storage trie".to_owned(),
            ),
        ),
    }
}

/// The nodes that were read while blocks were executed. `N` is a node.
pub struct WitnessNodes<N> {
    /// Those of the storage tries, with their hashes.
    pub storage: Vec<(H256, N)>,
    /// Those of the state trie, by their hashes.
    pub state: Table<H256, N>,
}

/// Nodes by their hashes: of two with the same hash the last one counts.
pub open spec fn by_hash<N>(nodes: Seq<(H256, N)>) -> Map<H256, N>
    decreases nodes.len(),
{
    if nodes.len() == 0 {
        Map::empty()
    } else {
        by_hash(nodes.drop_last()).insert(nodes.last().0, nodes.last().1)
    }
}

impl<N> WitnessNodes<N> {
    /// All nodes, by their hashes.
    pub open spec fn all(self) -> Map<H256, N> {
        by_hash(self.storage@).union_prefer_right(self.state@)
    }

    pub fn new() -> (w: WitnessNodes<N>)
        ensures
            w.storage@ == Seq::<(H256, N)>::empty(),
            w.state@ == Map::<H256, N>::empty(),
    {
        WitnessNodes { storage: Vec::new(), state: Table::new() }
    }

    /// Takes the nodes of a storage trie in.
    pub fn add_storage(&mut self, nodes: Vec<(H256, N)>)
        ensures
            final(self).storage@ == old(self).storage@ + nodes@,
            final(self).state == old(self).state,
    {
        let mut nodes = nodes;
        self.storage.append(&mut nodes);
    }

    /// Takes the nodes that a block read of the state trie in.
    pub fn add_state(&mut self, nodes: Table<H256, N>)
        ensures
            final(self).state@ == old(self).state@.union_prefer_right(nodes@),
            final(self).storage == old(self).storage,
    {
        let keys = nodes.key_list();
        let ghost given = nodes@;
        let mut nodes = nodes;
        let mut i: usize = 0;
        proof {
            assert(self.state@ =~= old(self).state@.union_prefer_right(
                given.restrict(keys@.take(0).to_set()),
            ));
        }
        while i < keys.len()
            invariant
                i <= keys@.len(),
                keys@.no_duplicates(),
                keys@.to_set() == given.dom(),
                self.storage == old(self).storage,
                forall|k: H256| #[trigger]
                    nodes@.contains_key(k) <==> given.contains_key(k) && !keys@.take(
                        i as int,
                    ).contains(k),
                forall|k: H256| #[trigger] nodes@.contains_key(k) ==> nodes@[k] == given[k],
                forall|k: H256| #[trigger]
                    self.state@.contains_key(k) <==> old(self).state@.contains_key(k)
                        || keys@.take(i as int).contains(k),
                forall|k: H256| #[trigger]
                    self.state@.contains_key(k) ==> self.state@[k] == if keys@.take(
                        i as int,
                    ).contains(k) {
                        given[k]
                    } else {
                        old(self).state@[k]
                    },
            decreases keys@.len() - i,
        {
            let ghost held = self.state@;
            let ghost left = nodes@;
            let key = keys[i];
            proof {
                lemma_walk(keys@, i as int, i + 1);
                assert(keys@.to_set().contains(key));
                assert(left.contains_key(key));
            }
            match nodes.remove(key) {
                Some(node) => {
                    self.state.insert(key, node);
                },
                None => {},
            }
            i += 1;
            proof {
                assert forall|k: H256| #[trigger] nodes@.contains_key(k) <==> given.contains_key(k)
                    && !keys@.take(i as int).contains(k) by {
                    assert(left.contains_key(k) <==> given.contains_key(k) && !keys@.take(
                        i - 1,
                    ).contains(k));
                }
                assert forall|k: H256| #[trigger] nodes@.contains_key(k) implies nodes@[k]
                    == given[k] by {
                    assert(left.contains_key(k));
                }
                assert forall|k: H256| #[trigger]
                    self.state@.contains_key(k) <==> old(self).state@.contains_key(k)
                        || keys@.take(i as int).contains(k) by {
                    assert(held.contains_key(k) <==> old(self).state@.contains_key(k)
                        || keys@.take(i - 1).contains(k));
                }
                assert forall|k: H256| #[trigger] self.state@.contains_key(k) implies self.state@[k]
                    == if keys@.take(i as int).contains(k) {
                    given[k]
                } else {
                    old(self).state@[k]
                } by {
                    if k != key {
                        assert(held.contains_key(k));
                    }
                }
            }
        }
        proof {
            lemma_walk_end(keys@, given.dom());
            assert(self.state@ =~= old(self).state@.union_prefer_right(given));
        }
    }

    /// All nodes by their hashes. Where none was read the root of the state trie stands
    /// alone.
    pub fn finish(self, root: Option<(H256, N)>) -> (nodes: Table<H256, N>)
        ensures
            nodes@ == if self.storage@.len() == 0 && self.state@ == Map::<H256, N>::empty()
                && root is Some {
                by_hash(seq![root->0])
            } else {
                self.all()
            },
    {
        let WitnessNodes { storage, state } = self;
        if storage.len() == 0 && state.is_empty() {
            let mut nodes: Table<H256, N> = Table::new();
            match root {
                Some((hash, node)) => {
                    nodes.insert(hash, node);
                    proof {
                        let one = seq![(hash, node)];
                        assert(one.drop_last() =~= Seq::empty());
                        assert(by_hash(one.drop_last()) == Map::<H256, N>::empty());
                        assert(nodes@ =~= by_hash(one));
                        assert(seq![root->0] =~= one);
                    }
                },
                None => {
                    assert(nodes@ =~= self.all());
                },
            }
            return nodes;
        }
        let mut storage = storage;
        let mut nodes = state;
        proof {
            assert(by_hash(storage@).union_prefer_right(nodes@) =~= self.all());
        }
        while storage.len() > 0
            invariant
                by_hash(storage@).union_prefer_right(nodes@) =~= self.all(),
            decreases storage@.len(),
        {
            let ghost held = storage@;
            let ghost had = nodes@;
            match storage.pop() {
                Some((hash, node)) => {
                    if !nodes.contains_key(hash) {
                        nodes.insert(hash, node);
                    }
                    proof {
                        assert(storage@ =~= held.drop_last());
                        assert(by_hash(held) == by_hash(storage@).insert(hash, node));
                    }
                },
                None => {},
            }
        }
        assert(nodes@ =~= self.all());
        nodes
    }
}

/// The addresses of the accounts that the updates of a block touch, together with those
/// whose storage it opened.
pub fn touched_accounts(updates: &Vec<AccountUpdate>, opened: &Vec<Address>) -> (touched: Table<
    Address,
    (),
>)
    ensures
        forall|a: Address| #[trigger]
            touched@.contains_key(a) <==> opened@.contains(a) || exists|i: int|
                0 <= i < updates@.len() && (#[trigger] updates@[i]).address == a,
{
    let mut touched: Table<Address, ()> = Table::new();
    let mut i: usize = 0;
    while i < updates.len()
        invariant
            i <= updates@.len(),
            forall|a: Address| #[trigger]
                touched@.contains_key(a) <==> exists|j: int|
                    0 <= j < i && (#[trigger] updates@[j]).address == a,
        decreases updates@.len() - i,
    {
        let ghost was = touched@;
        touched.insert(updates[i].address, ());
        i += 1;
        proof {
            assert forall|a: Address| #[trigger] touched@.contains_key(a) <==> exists|j: int|
                0 <= j < i && (#[trigger] updates@[j]).address == a by {
                assert(was.contains_key(a) <==> exists|j: int|
                    0 <= j < i - 1 && (#[trigger] updates@[j]).address == a);
                if a == updates@[i - 1].address {
                    assert(updates@[i - 1].address == a);
                }
            }
        }
    }
    let ghost from_updates = touched@;
    let mut k: usize = 0;
    while k < opened.len()
        invariant
            k <= opened@.len(),
            forall|a: Address| #[trigger]
                touched@.contains_key(a) <==> from_updates.contains_key(a) || opened@.take(
                    k as int,
                ).contains(a),
        decreases opened@.len() - k,
    {
        let ghost was = touched@;
        let address = opened[k];
        touched.insert(address, ());
        k += 1;
        proof {
            let now = opened@.take(k as int);
            let fewer = opened@.take(k - 1);
            assert(now =~= fewer.push(address));
            assert forall|a: Address| #[trigger]
                touched@.contains_key(a) <==> from_updates.contains_key(a) || now.contains(a) by {
                assert(was.contains_key(a) <==> from_updates.contains_key(a) || fewer.contains(a));
                if now.contains(a) {
                    let at = now.index_of(a);
                    if at < k - 1 {
                        assert(fewer[at] == a);
                    }
                }
                if fewer.contains(a) {
                    let at = fewer.index_of(a);
                    assert(now[at] == a);
                }
                if a == address {
                    assert(now[k - 1] == a);
                }
            }
        }
    }
    proof {
        assert(opened@.take(k as int) =~= opened@);
        assert forall|a: Address| #[trigger] touched@.contains_key(a) <==> opened@.contains(a)
            || exists|i: int| 0 <= i < updates@.len() && (#[trigger] updates@[i]).address == a by {
            assert(from_updates.contains_key(a) <==> exists|i: int|
                0 <= i < updates@.len() && (#[trigger] updates@[i]).address == a);
        }
    }
    touched
}

/// A code that was read, `answer` being what the store has under its hash.
pub fn witness_code(answer: Result<Option<Vec<u8>>, String>) -> (r: Result<Vec<u8>, ChainError>)
    ensures
        match answer {
            Ok(Some(code)) => r == Ok::<Vec<u8>, ChainError>(code),
            _ => r matches Err(ChainError::WitnessGeneration(why)) && why@
                == "Failed to get account code"@,
        },
{
    match answer {
        Ok(Some(code)) => Ok(code),
        _ => Err(ChainError::WitnessGeneration("Failed to get account code".to_owned())),
    }
}

/// Whether the store has every code that was asked for.
pub open spec fn all_codes_found(answers: Seq<Result<Option<Vec<u8>>, String>>) -> bool {
    forall|i: int| 0 <= i < answers.len() ==> (#[trigger] answers[i]) matches Ok(Some(_))
}

/// The codes that were read, in the order in which they were asked for, `answers` being
/// what the store has under their hashes.
pub fn gather_codes(answers: Vec<Result<Option<Vec<u8>>, String>>) -> (r: Result<
    Vec<Vec<u8>>,
    ChainError,
>)
    ensures
        match r {
            Ok(codes) => {
                &&& all_codes_found(answers@)
                &&& codes@ == Seq::new(answers@.len(), |i: int| answers@[i]->Ok_0->0)
            },
            Err(e) => !all_codes_found(answers@) && (e matches ChainError::WitnessGeneration(why)
                && why@ == "Failed to get account code"@),
        },
{
    let mut codes: Vec<Vec<u8>> = Vec::new();
    let ghost all = answers@;
    let count: usize = answers.len();
    let mut left = answers;
    let mut i: usize = 0;
    while i < count
        invariant
            i <= count,
            count == all.len(),
            all == answers@,
            left@.len() == count,
            forall|j: int| i <= j < count ==> (#[trigger] left@[j]) == all[j],
            codes@.len() == i,
            forall|j: int|
                0 <= j < i ==> ((#[trigger] all[j]) matches Ok(Some(code)) && codes@[j] == code),
        decreases count - i,
    {
        let mut answer: Result<Option<Vec<u8>>, String> = Ok(None);
        std::mem::swap(&mut left[i], &mut answer);
        assert(answer == all[i as int]);
        match witness_code(answer) {
            Ok(code) => {
                codes.push(code);
            },
            Err(e) => {
                assert(!(all[i as int] matches Ok(Some(_))));
                return Err(e);
            },
        }
        i += 1;
    }
    assert(codes@ =~= Seq::new(all.len(), |i: int| all[i]->Ok_0->0));
    Ok(codes)
}

/// What a witness is made of.
pub enum WitnessSource<'a> {
    /// Blocks that are executed again, from this one on.
    Replay { first: &'a BlockHeader },
    /// The updates of a block that was just executed on top of this one.
    Updates { parent: &'a BlockHeader },
}

/// The block number that a witness starts at: that of the first block which is executed
/// again, or of the parent of the block which was just executed.
pub fn first_block_number(source: WitnessSource) -> (number: u64)
    ensures
        number == match source {
            WitnessSource::Replay { first } => first.number,
            WitnessSource::Updates { parent } => parent.number,
        },
{
    match source {
        WitnessSource::Replay { first } => first.number,
        WitnessSource::Updates { parent } => parent.number,
    }
}

/// The first block of those to make a witness for.
pub fn first_of_batch<B>(blocks: &Vec<B>) -> (r: Result<&B, ChainError>)
    ensures
        if blocks@.len() > 0 {
            r matches Ok(first) && *first == blocks@[0]
        } else {
            r matches Err(ChainError::WitnessGeneration(why)) && why@ == "Empty block batch"@
        },
{
    if blocks.len() > 0 {
        Ok(&blocks[0])
    } else {
        Err(ChainError::WitnessGeneration("Empty block batch".to_owned()))
    }
}

/// The fee configuration to execute a block with again: a base layer has none, and a
/// rollup needs one for every block. `F` is such a configuration.
pub fn fee_config_for<F>(
    kind: BlockchainType,
    fee_configs: &Option<Vec<F>>,
    at: usize,
) -> (r: Result<Option<&F>, ChainError>)
    ensures
        match (kind, *fee_configs) {
            (BlockchainType::L1, _) => r matches Ok(None),
            (BlockchainType::L2, Some(configs)) => if at < configs@.len() {
                r matches Ok(Some(config)) && *config == configs@[at as int]
            } else {
                r matches Err(ChainError::WitnessGeneration(why)) && why@
                    == "FeeConfig not found for witness generation"@
            },
            (BlockchainType::L2, None) => r matches Err(ChainError::WitnessGeneration(why))
                && why@ == "L2Config not found for witness generation"@,
        },
{
    match kind {
        BlockchainType::L1 => Ok(None),
        BlockchainType::L2 => match fee_configs {
            Some(configs) => {
                if at < configs.len() {
                    Ok(Some(&configs[at]))
                } else {
                    Err(
                        ChainError::WitnessGeneration(
                            "FeeConfig not found for witness generation".to_owned(),
                        ),
                    )
                }
            },
            None => Err(
                ChainError::WitnessGeneration(
                    "L2Config not found for witness generation".to_owned(),
                ),
            ),
        },
    }
}

} // verus!
