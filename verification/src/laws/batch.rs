//! What a batch of blocks comes to, and what a witness keeps.

use crate::account::{empty_trie, AccountState, AccountUpdate};
use crate::block::BlockHeader;
use crate::blockchain::batch::{
    at_mark, batch_state, last_valid, marks_reached, matching, numbered, walked, BatchError,
    BatchRun, BatchStep, HashWalk, HashWalkView,
};
use crate::blockchain::checks::BlockchainType;
use crate::blockchain::trie_node::in_shard;
use crate::blockchain::witness::{
    by_hash, fee_config_for, first_block_number, first_of_batch, gather_codes, relevant_roots,
    touched_accounts, witness_code, HeaderWalk, WitnessNodes, WitnessSource,
};
use crate::chain_error::{ChainError, EvmError, InvalidBlockError};
use crate::table::Table;
use crate::word::{Address, H256};
use vstd::prelude::*;

verus! {

/// A batch of more than ten blocks is reported on at the block that completes a fifth, two
/// fifths, three fifths or four fifths of it, rounded down, and at no other.
pub proof fn law_batch_marks(size: u32, current: u32, mark: u32)
    ensures
        marks_reached(size, current).contains(mark) <==> size > 10 && (mark == 20 || mark == 40
            || mark == 60 || mark == 80) && size * mark / 100 == current,
{
    if size > 10 {
        let all = seq![20u32, 40u32, 60u32, 80u32];
        let reached = |m: u32| at_mark(size, current, m);
        let some = all.filter(reached);
        assert(some == marks_reached(size, current));
        assert(all[0] == 20 && all[1] == 40 && all[2] == 60 && all[3] == 80);
        if at_mark(size, current, mark) {
            if mark == 20 {
                all.lemma_filter_contains(reached, 0);
            }
            if mark == 40 {
                all.lemma_filter_contains(reached, 1);
            }
            if mark == 60 {
                all.lemma_filter_contains(reached, 2);
            }
            if mark == 80 {
                all.lemma_filter_contains(reached, 3);
            }
        }
        if some.contains(mark) {
            let k = some.index_of(mark);
            all.lemma_filter_pred(reached, k);
            let i = lemma_filtered_from(all, reached, k);
            assert(all[i] == mark);
        }
    }
}

proof fn lemma_filtered_from(list: Seq<u32>, wanted: spec_fn(u32) -> bool, k: int) -> (i: int)
    requires
        0 <= k < list.filter(wanted).len(),
    ensures
        0 <= i < list.len(),
        list[i] == list.filter(wanted)[k],
    decreases list.len(),
{
    reveal(Seq::filter);
    let rest = list.drop_last();
    if k < rest.filter(wanted).len() {
        lemma_filtered_from(rest, wanted, k)
    } else {
        list.len() - 1
    }
}

/// A block that fails comes after the block before it in the batch, and zero stands for
/// none.
pub proof fn law_last_valid_block(hashes: Seq<H256>, at: int)
    ensures
        0 < at <= hashes.len() ==> last_valid(hashes, at) == hashes[at - 1],
        at <= 0 ==> last_valid(hashes, at)@ == 0,
{
}

/// The next step of a batch is its next block, its first one told apart, as long as there
/// is one and the import was not cancelled.
pub proof fn law_batch_goes_block_by_block(
    run: BatchRun,
    cancelled: bool,
    r: Result<BatchStep, BatchError>,
)
    requires
        call_ensures(BatchRun::next, (&run, cancelled), r),
    ensures
        run.at >= run.hashes@.len() ==> r == Ok::<BatchStep, BatchError>(BatchStep::Finished),
        run.at < run.hashes@.len() && cancelled ==> r is Err,
        run.at < run.hashes@.len() && !cancelled ==> r == Ok::<BatchStep, BatchError>(
            if run.at == 0 {
                BatchStep::ExecuteFirst
            } else {
                BatchStep::Execute { at: run.at }
            },
        ),
{
}

/// The state of a batch is kept exactly where the updates could be told, could be applied
/// to the parent's state, and led to the root that the last header names; the first of
/// these that fails is told.
pub proof fn law_batch_state_is_the_last_root<U>(
    transitions: Result<(), EvmError>,
    applied: Result<Option<(H256, U)>, String>,
    header: BlockHeader,
    r: Result<U, BatchError>,
)
    requires
        call_ensures(batch_state::<U>, (transitions, applied, &header), r),
    ensures
        r is Ok <==> transitions is Ok && (applied matches Ok(Some((root, _))) && root
            == header.state_root),
        r matches Ok(updates) ==> (applied matches Ok(Some((_, found))) && updates == found),
        transitions matches Err(e) ==> r == Err::<U, BatchError>((ChainError::EvmError(e), None)),
        transitions is Ok && applied is Err ==> r == Err::<U, BatchError>(
            (ChainError::StoreError(applied->Err_0), None),
        ),
        transitions is Ok && (applied matches Ok(None)) ==> r == Err::<U, BatchError>(
            (ChainError::ParentStateNotFound, None),
        ),
        transitions is Ok && (applied matches Ok(Some((root, _))) && root != header.state_root)
            ==> r == Err::<U, BatchError>(
            (ChainError::InvalidBlock(InvalidBlockError::StateRootMismatch), None),
        ),
{
}

/// An access list that hashes to what its header names is kept.
pub proof fn law_matching_list_is_kept(matches: Seq<Option<bool>>, n: int, i: int) -> (k: int)
    requires
        0 <= i < n <= matches.len() <= usize::MAX,
        matches[i] == Some(true),
    ensures
        0 <= k < matching(matches, n).len(),
        matching(matches, n)[k] == i,
    decreases n,
{
    if i < n - 1 {
        let k = law_matching_list_is_kept(matches, n - 1, i);
        assert(matching(matches, n)[k] == matching(matches, n - 1)[k]);
        k
    } else {
        matching(matches, n).len() - 1
    }
}

/// An access list that is kept hashes to what its header names.
pub proof fn law_kept_list_matches(matches: Seq<Option<bool>>, n: int, k: int)
    requires
        0 <= n <= matches.len() <= usize::MAX,
        0 <= k < matching(matches, n).len(),
    ensures
        matching(matches, n)[k] < n,
        matches[matching(matches, n)[k] as int] == Some(true),
    decreases n,
{
    let before = matching(matches, n - 1);
    if k < before.len() {
        assert(matching(matches, n)[k] == before[k]);
        law_kept_list_matches(matches, n - 1, k);
    }
}

/// The hash of a block is known by its number, where no later block of the batch has that
/// number.
pub proof fn law_hash_by_number(blocks: Seq<(u64, H256)>, i: int)
    requires
        0 <= i < blocks.len(),
        forall|j: int| i < j < blocks.len() ==> (#[trigger] blocks[j]).0 != blocks[i].0,
    ensures
        numbered(blocks).contains_key(blocks[i].0),
        numbered(blocks)[blocks[i].0] == blocks[i].1,
    decreases blocks.len(),
{
    let rest = blocks.drop_last();
    if i < rest.len() {
        assert(blocks[blocks.len() - 1].0 != blocks[i].0);
        assert forall|j: int| i < j < rest.len() implies (#[trigger] rest[j]).0 != rest[i].0 by {
            assert(blocks[j].0 != blocks[i].0);
        }
        law_hash_by_number(rest, i);
    }
}

/// No hash is known by a number that no block of the batch has.
pub proof fn law_no_hash_without_a_block(blocks: Seq<(u64, H256)>, number: u64)
    requires
        forall|i: int| 0 <= i < blocks.len() ==> (#[trigger] blocks[i]).0 != number,
    ensures
        !numbered(blocks).contains_key(number),
    decreases blocks.len(),
{
    if blocks.len() > 0 {
        let rest = blocks.drop_last();
        assert(blocks[blocks.len() - 1].0 != number);
        assert forall|i: int| 0 <= i < rest.len() implies (#[trigger] rest[i]).0 != number by {
            assert(blocks[i].0 != number);
        }
        law_no_hash_without_a_block(rest, number);
    }
}

/// A round of a walk back puts the hash that was arrived at under its number, unless one
/// is known, and goes on at the parent's hash under the number before.
pub proof fn law_walk_back(walk: HashWalkView, parent_hash: Option<H256>)
    requires
        walk.number > 0,
    ensures
        ({
            let after = walked(walk, parent_hash);
            &&& after.cache.contains_key(walk.number)
            &&& !walk.cache.contains_key(walk.number) ==> after.cache[walk.number] == walk.hash
            &&& walk.cache.contains_key(walk.number) ==> after.cache == walk.cache
            &&& after.lookback == walk.lookback
            &&& parent_hash matches Some(hash) ==> after.hash == hash && after.number
                == walk.number - 1 && after.stopped == walk.stopped
            &&& parent_hash is None ==> after.stopped
        }),
{
}

/// The storage root of an account that exists belongs into a witness, together with the
/// account, where it is not that of an empty trie and was read.
pub proof fn law_read_root_is_in_the_witness(
    accounts: Seq<(H256, Option<AccountState>)>,
    nodes: Set<H256>,
    n: int,
    i: int,
) -> (k: int)
    requires
        0 <= i < n <= accounts.len(),
        accounts[i].1 is Some,
        accounts[i].1->0.storage_root != empty_trie(),
        nodes.contains(accounts[i].1->0.storage_root),
    ensures
        0 <= k < relevant_roots(accounts, nodes, n).len(),
        relevant_roots(accounts, nodes, n)[k] == (accounts[i].0, accounts[i].1->0.storage_root),
    decreases n,
{
    if i < n - 1 {
        let k = law_read_root_is_in_the_witness(accounts, nodes, n - 1, i);
        assert(relevant_roots(accounts, nodes, n)[k] == relevant_roots(accounts, nodes, n - 1)[k]);
        k
    } else {
        relevant_roots(accounts, nodes, n).len() - 1
    }
}

/// A storage root in a witness is that of its account, is not that of an empty trie, and
/// was read.
pub proof fn law_root_in_the_witness_was_read(
    accounts: Seq<(H256, Option<AccountState>)>,
    nodes: Set<H256>,
    n: int,
    k: int,
) -> (i: int)
    requires
        0 <= n <= accounts.len(),
        0 <= k < relevant_roots(accounts, nodes, n).len(),
    ensures
        0 <= i < n,
        accounts[i].1 is Some,
        relevant_roots(accounts, nodes, n)[k] == (accounts[i].0, accounts[i].1->0.storage_root),
        accounts[i].1->0.storage_root != empty_trie(),
        nodes.contains(accounts[i].1->0.storage_root),
    decreases n,
{
    let before = relevant_roots(accounts, nodes, n - 1);
    if k < before.len() {
        assert(relevant_roots(accounts, nodes, n)[k] == before[k]);
        law_root_in_the_witness_was_read(accounts, nodes, n - 1, k)
    } else {
        n - 1
    }
}

/// Nodes are known by their hashes: all that were read, and of two with one hash the last.
pub proof fn law_nodes_by_hash<N>(nodes: Seq<(H256, N)>, i: int)
    requires
        0 <= i < nodes.len(),
    ensures
        by_hash(nodes).contains_key(nodes[i].0),
        (forall|j: int| i < j < nodes.len() ==> (#[trigger] nodes[j]).0 != nodes[i].0) ==> by_hash(
            nodes,
        )[nodes[i].0] == nodes[i].1,
    decreases nodes.len(),
{
    let rest = nodes.drop_last();
    if i < rest.len() {
        law_nodes_by_hash(rest, i);
        if forall|j: int| i < j < nodes.len() ==> (#[trigger] nodes[j]).0 != nodes[i].0 {
            assert(nodes[nodes.len() - 1].0 != nodes[i].0);
            assert forall|j: int| i < j < rest.len() implies (#[trigger] rest[j]).0
                != rest[i].0 by {
                assert(nodes[j].0 != nodes[i].0);
            }
        }
    }
}

/// A witness starts at the first block that is executed again, or at the parent of the
/// block that was just executed.
pub proof fn law_witness_starts(
    first: BlockHeader,
    parent: BlockHeader,
    replayed: u64,
    updated: u64,
    path: Vec<u8>,
    index: u8,
    inside: bool,
)
    requires
        call_ensures(first_block_number, (WitnessSource::Replay { first: &first },), replayed),
        call_ensures(first_block_number, (WitnessSource::Updates { parent: &parent },), updated),
        call_ensures(in_shard, (&path, index), inside),
    ensures
        replayed == first.number,
        updated == parent.number,
        inside <==> path@.len() > 0 && path@[0] == index,
{
}

/// The code of a witness is what the store has, and a code that it does not have is an
/// error; the first block of a batch is its first, and on a rollup the fee configuration of
/// a block is the one at its place, on a base layer none.
pub proof fn law_parts_of_a_witness<B, F>(
    answer: Result<Option<Vec<u8>>, String>,
    code: Result<Vec<u8>, ChainError>,
    kind: BlockchainType,
    configs: Option<Vec<F>>,
    at: usize,
    config: Result<Option<&F>, ChainError>,
    blocks: Vec<B>,
    first: Result<&B, ChainError>,
)
    requires
        call_ensures(witness_code, (answer,), code),
        call_ensures(fee_config_for::<F>, (kind, &configs, at), config),
        call_ensures(first_of_batch::<B>, (&blocks,), first),
    ensures
        code is Ok <==> answer is Ok && answer->Ok_0 is Some,
        code matches Ok(c) ==> answer->Ok_0->0 == c,
        kind is L1 ==> (config matches Ok(None)),
        kind is L2 ==> (config is Ok <==> configs is Some && at < configs->0@.len()),
        kind is L2 && config is Ok ==> (config->Ok_0 matches Some(f) && *f
            == configs->0@[at as int]),
        first is Ok <==> blocks@.len() > 0,
        first matches Ok(b) ==> *b == blocks@[0],
{
}

/// A walk back sets out at the parent of the first block of a batch, whose own hash is
/// known by its number unless a block of the batch has that number, and goes 256 blocks
/// back from the first block at most.
pub proof fn law_walk_sets_out(
    blocks: Vec<(u64, H256)>,
    parent: BlockHeader,
    hash: H256,
    walk: HashWalk,
    other: u64,
)
    requires
        blocks@.len() > 0,
        call_ensures(HashWalk::start, (&blocks, &parent, hash), walk),
    ensures
        walk.hash == parent.parent_hash,
        parent.number > 0 ==> walk.number == parent.number - 1,
        parent.number == 0 ==> walk.number == 0,
        blocks@[0].0 >= 256 ==> walk.lookback == blocks@[0].0 - 256,
        blocks@[0].0 < 256 ==> walk.lookback == 0,
        !walk.stopped,
        walk.cache@.contains_key(parent.number),
        !numbered(blocks@).contains_key(parent.number) ==> walk.cache@[parent.number] == hash,
        numbered(blocks@).contains_key(other) ==> walk.cache@.contains_key(other)
            && walk.cache@[other] == numbered(blocks@)[other],
        walk.cache@.contains_key(other) ==> numbered(blocks@).contains_key(other) || other
            == parent.number,
{
    let seen = walk@;
    assert(seen.cache == walk.cache@);
}

/// The way back to the first header asks for the parent of the block that was arrived at,
/// and ends at the block that is needed.
pub proof fn law_way_back_asks_for_the_parent(walk: HeaderWalk, ask: Option<H256>)
    requires
        call_ensures(HeaderWalk::next, (&walk,), ask),
    ensures
        ask is None <==> walk.hash == walk.needed,
        ask matches Some(hash) ==> hash == walk.parent_hash,
{
}

/// A witness holds every node that was read, those of the state trie before others of the
/// same hash; where none was read it holds the root alone, where there is one.
pub proof fn law_nodes_of_a_witness<N>(
    nodes: WitnessNodes<N>,
    root: Option<(H256, N)>,
    all: Table<H256, N>,
    hash: H256,
)
    requires
        call_ensures(WitnessNodes::<N>::finish, (nodes, root), all),
    ensures
        nodes.state@.contains_key(hash) ==> all@.contains_key(hash) && all@[hash]
            == nodes.state@[hash],
        !nodes.state@.contains_key(hash) && by_hash(nodes.storage@).contains_key(hash)
            ==> all@.contains_key(hash) && all@[hash] == by_hash(nodes.storage@)[hash],
        nodes.storage@.len() > 0 && all@.contains_key(hash) ==> nodes.state@.contains_key(hash)
            || by_hash(nodes.storage@).contains_key(hash),
        nodes.storage@.len() == 0 && nodes.state@ == Map::<H256, N>::empty() ==> (match root {
            Some((only, node)) => (all@.contains_key(hash) <==> hash == only)
                && all@.contains_key(only) && all@[only] == node,
            None => !all@.contains_key(hash),
        }),
{
    if nodes.storage@.len() == 0 {
        assert(by_hash(nodes.storage@) == Map::<H256, N>::empty());
        if root is Some {
            let one = seq![root->0];
            assert(one.drop_last() =~= Seq::empty());
            assert(by_hash(one.drop_last()) == Map::<H256, N>::empty());
            assert(one.last() == root->0);
        }
    }
}

/// The codes of a witness are those that the store has, all of them, in their order.
pub proof fn law_codes_of_a_witness(
    answers: Vec<Result<Option<Vec<u8>>, String>>,
    r: Result<Vec<Vec<u8>>, ChainError>,
    i: int,
)
    requires
        call_ensures(gather_codes, (answers,), r),
        0 <= i < answers@.len(),
    ensures
        r matches Ok(codes) ==> codes@.len() == answers@.len() && (answers@[i] matches Ok(
            Some(code),
        ) && codes@[i] == code),
        !(answers@[i] matches Ok(Some(_))) ==> r is Err,
{
}

/// The accounts of a witness are those that were updated and those whose tries were
/// opened.
pub proof fn law_accounts_of_a_witness(
    updates: Vec<AccountUpdate>,
    opened: Vec<Address>,
    touched: Table<Address, ()>,
    address: Address,
)
    requires
        call_ensures(touched_accounts, (&updates, &opened), touched),
    ensures
        touched@.contains_key(address) <==> (exists|i: int|
            0 <= i < opened@.len() && #[trigger] opened@[i] == address) || (exists|i: int|
            0 <= i < updates@.len() && (#[trigger] updates@[i]).address == address),
{
    if opened@.contains(address) {
        assert(opened@[opened@.index_of(address)] == address);
    }
}

} // verus!
