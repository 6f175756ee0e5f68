//! Bringing the state trie up to date from a block access list, before the block is
//! executed: which worker computes which storage roots, and what becomes of each
//! account.

use crate::account::{AccountState, Code, CodeView};
use crate::blockchain::merkle_worker::{write_account, Effect};
use crate::blockchain::sorting::{sort, sorted, Ranked};
use crate::table::{Duplicate, Table};
use crate::word::{H256, U256};
use vstd::prelude::*;

verus! {

/// How many workers share the work.
pub const NUM_WORKERS: usize = 16;
/// From how many slots on the storage root of an account is computed by all workers
/// together.
pub const STORAGE_SHARD_THRESHOLD: usize = 2048;

/// What a block access list says of one account after the block.
pub struct BalSynthesisItem {
    pub nonce: Option<u64>,
    pub balance: Option<U256>,
    pub code_hash: Option<H256>,
    pub code: Option<Code>,
    pub added_storage: Table<H256, U256>,
}

impl BalSynthesisItem {
    pub open spec fn slots(&self) -> nat {
        self.added_storage@.dom().len()
    }
}

/// An account with its hashed address.
pub type HashedItem = (H256, BalSynthesisItem);

/// Whether all workers together compute the storage root of an account.
pub open spec fn is_hot(item: HashedItem) -> bool {
    item.1.slots() >= STORAGE_SHARD_THRESHOLD
}

/// The positions among the first `n` accounts of those that are, or are not, hot.
pub open spec fn positions(accounts: Seq<HashedItem>, hot: bool, n: int) -> Seq<usize>
    decreases n,
{
    if n <= 0 {
        Seq::empty()
    } else if is_hot(accounts[n - 1]) == hot {
        positions(accounts, hot, n - 1).push((n - 1) as usize)
    } else {
        positions(accounts, hot, n - 1)
    }
}

/// The positions of the accounts whose storage root one worker computes, and of those
/// whose storage root all compute together.
pub fn partition_accounts(accounts: &Vec<HashedItem>) -> (r: (Vec<usize>, Vec<usize>))
    ensures
        r.0@ == positions(accounts@, false, accounts@.len() as int),
        r.1@ == positions(accounts@, true, accounts@.len() as int),
{
    let mut normal: Vec<usize> = Vec::new();
    let mut hot: Vec<usize> = Vec::new();
    let mut i: usize = 0;
    while i < accounts.len()
        invariant
            i <= accounts@.len(),
            normal@ == positions(accounts@, false, i as int),
            hot@ == positions(accounts@, true, i as int),
        decreases accounts@.len() - i,
    {
        if accounts[i].1.added_storage.len() >= STORAGE_SHARD_THRESHOLD {
            hot.push(i);
        } else {
            normal.push(i);
        }
        i += 1;
    }
    (normal, hot)
}

/// Every account is in exactly one of the two parts.
pub proof fn law_every_account_in_one_part(accounts: Seq<HashedItem>, n: int, i: int)
    requires
        0 <= i < n <= accounts.len(),
        accounts.len() <= usize::MAX,
    ensures
        positions(accounts, is_hot(accounts[i]), n).contains(i as usize),
        !positions(accounts, !is_hot(accounts[i]), n).contains(i as usize),
    decreases n,
{
    let mine = positions(accounts, is_hot(accounts[i]), n);
    let other = positions(accounts, !is_hot(accounts[i]), n);
    if i == n - 1 {
        lemma_positions_below(accounts, !is_hot(accounts[i]), n - 1);
        assert(mine[mine.len() - 1] == i);
        if other.contains(i as usize) {
            let k = other.index_of(i as usize);
            assert(other == positions(accounts, !is_hot(accounts[i]), n - 1));
            assert(positions(accounts, !is_hot(accounts[i]), n - 1)[k] < n - 1);
        }
    } else {
        law_every_account_in_one_part(accounts, n - 1, i);
        let before = positions(accounts, is_hot(accounts[i]), n - 1);
        let k = before.index_of(i as usize);
        assert(mine[k] == i);
        if other.contains(i as usize) {
            let m = other.index_of(i as usize);
            let other_before = positions(accounts, !is_hot(accounts[i]), n - 1);
            if m < other_before.len() {
                assert(other_before[m] == i as usize);
            }
        }
    }
}

proof fn lemma_positions_below(accounts: Seq<HashedItem>, hot: bool, n: int)
    requires
        0 <= n <= accounts.len() <= usize::MAX,
    ensures
        forall|k: int|
            0 <= k < positions(accounts, hot, n).len() ==> (#[trigger] positions(
                accounts,
                hot,
                n,
            )[k]) < n,
    decreases n,
{
    if n > 0 {
        lemma_positions_below(accounts, hot, n - 1);
        let all = positions(accounts, hot, n);
        let before = positions(accounts, hot, n - 1);
        assert forall|k: int| 0 <= k < all.len() implies (#[trigger] all[k]) < n by {
            if k < before.len() {
                assert(all[k] == before[k]);
            }
        }
    }
}

/// A piece of work: the position of an account and how heavy it is.
#[derive(Copy, Clone, PartialEq, Eq, Structural, Debug)]
pub struct Work {
    pub account: usize,
    pub weight: usize,
}

/// Heavy work ranks first.
impl Ranked for Work {
    open spec fn rank(self) -> int {
        -(self.weight as int)
    }

    fn ranks_at_most(&self, other: &Self) -> (b: bool) {
        self.weight >= other.weight
    }
}

/// The work of each account, as heavy as it has slots.
pub open spec fn work_of(accounts: Seq<HashedItem>, normal: Seq<usize>) -> Seq<Work> {
    Seq::new(
        normal.len(),
        |i: int|
            Work { account: normal[i], weight: accounts[normal[i] as int].1.slots() as usize },
    )
}

/// The work of each account.
pub fn weigh_accounts(accounts: &Vec<HashedItem>, normal: &Vec<usize>) -> (work: Vec<Work>)
    requires
        forall|i: int| 0 <= i < normal@.len() ==> (#[trigger] normal@[i]) < accounts@.len(),
    ensures
        work@ == work_of(accounts@, normal@),
{
    let mut work: Vec<Work> = Vec::new();
    let mut i: usize = 0;
    while i < normal.len()
        invariant
            i <= normal@.len(),
            forall|j: int| 0 <= j < normal@.len() ==> (#[trigger] normal@[j]) < accounts@.len(),
            work@ =~= work_of(accounts@, normal@).take(i as int),
        decreases normal@.len() - i,
    {
        let account: usize = normal[i];
        work.push(Work { account, weight: accounts[account].1.added_storage.len() });
        i += 1;
    }
    work
}

/// Work dealt out to workers, with the weight that each has.
#[verifier::ext_equal]
pub struct Bins {
    pub accounts: Seq<Seq<usize>>,
    pub weights: Seq<int>,
}

/// The first of the lightest of the first `n` workers.
pub open spec fn lightest(weights: Seq<int>, n: int) -> int
    decreases n,
{
    if n <= 1 {
        0
    } else {
        let before = lightest(weights, n - 1);
        if weights[n - 1] < weights[before] {
            n - 1
        } else {
            before
        }
    }
}

/// Work dealt out in its order, each piece to the first of the lightest workers.
pub open spec fn packed(work: Seq<Work>) -> Bins
    decreases work.len(),
{
    if work.len() == 0 {
        Bins {
            accounts: Seq::new(NUM_WORKERS as nat, |i: int| Seq::empty()),
            weights: Seq::new(NUM_WORKERS as nat, |i: int| 0),
        }
    } else {
        let before = packed(work.drop_last());
        let to = lightest(before.weights, NUM_WORKERS as int);
        Bins {
            accounts: before.accounts.update(
                to,
                before.accounts[to].push(work.last().account),
            ),
            weights: before.weights.update(to, before.weights[to] + work.last().weight),
        }
    }
}

/// The weight of all work.
pub open spec fn total_weight(work: Seq<Work>) -> int
    decreases work.len(),
{
    if work.len() == 0 {
        0
    } else {
        total_weight(work.drop_last()) + work.last().weight
    }
}

/// The lightest worker is one of them, and none is lighter.
pub proof fn lemma_lightest(weights: Seq<int>, n: int)
    requires
        1 <= n <= weights.len(),
    ensures
        0 <= lightest(weights, n) < n,
        forall|i: int| 0 <= i < n ==> weights[lightest(weights, n)] <= #[trigger] weights[i],
    decreases n,
{
    if n > 1 {
        lemma_lightest(weights, n - 1);
    }
}

/// Sixteen workers share the work, and none has more than all of it.
pub proof fn lemma_packed(work: Seq<Work>)
    ensures
        packed(work).accounts.len() == NUM_WORKERS,
        packed(work).weights.len() == NUM_WORKERS,
        forall|i: int|
            0 <= i < NUM_WORKERS ==> 0 <= (#[trigger] packed(work).weights[i]) <= total_weight(work),
        0 <= total_weight(work),
    decreases work.len(),
{
    if work.len() > 0 {
        let before = packed(work.drop_last());
        lemma_packed(work.drop_last());
        lemma_lightest(before.weights, NUM_WORKERS as int);
        assert forall|i: int| 0 <= i < NUM_WORKERS implies 0 <= (#[trigger] packed(
            work,
        ).weights[i]) <= total_weight(work) by {
            assert(0 <= before.weights[i] <= total_weight(work.drop_last()));
        }
    }
}

/// No worker is heavier than another by more than the heaviest piece of work.
pub proof fn law_packing_is_balanced(work: Seq<Work>, heaviest: int, i: int, j: int)
    requires
        0 <= i < NUM_WORKERS,
        0 <= j < NUM_WORKERS,
        0 <= heaviest,
        forall|k: int| 0 <= k < work.len() ==> (#[trigger] work[k]).weight <= heaviest,
    ensures
        packed(work).weights[i] - packed(work).weights[j] <= heaviest,
    decreases work.len(),
{
    if work.len() > 0 {
        let rest = work.drop_last();
        let before = packed(rest);
        lemma_packed(rest);
        lemma_lightest(before.weights, NUM_WORKERS as int);
        let to = lightest(before.weights, NUM_WORKERS as int);
        assert(work.last() == work[work.len() - 1]);
        assert forall|k: int| 0 <= k < rest.len() implies (#[trigger] rest[k]).weight
            <= heaviest by {
            assert(rest[k] == work[k]);
        }
        law_packing_is_balanced(rest, heaviest, i, j);
        assert(before.weights[to] <= before.weights[j]);
        assert(before.weights[to] <= before.weights[i]);
    }
}

/// Every piece of work falls to some worker.
pub proof fn law_packing_loses_nothing(work: Seq<Work>, k: int)
    requires
        0 <= k < work.len(),
    ensures
        exists|i: int|
            0 <= i < NUM_WORKERS && (#[trigger] packed(work).accounts[i]).contains(
                work[k].account,
            ),
    decreases work.len(),
{
    let rest = work.drop_last();
    let before = packed(rest);
    let after = packed(work);
    lemma_packed(rest);
    lemma_lightest(before.weights, NUM_WORKERS as int);
    let to = lightest(before.weights, NUM_WORKERS as int);
    if k == work.len() - 1 {
        let bin = after.accounts[to];
        assert(bin[bin.len() - 1] == work[k].account);
        assert(after.accounts[to].contains(work[k].account));
    } else {
        law_packing_loses_nothing(rest, k);
        let i = choose|i: int|
            0 <= i < NUM_WORKERS && (#[trigger] before.accounts[i]).contains(rest[k].account);
        let bin = before.accounts[i];
        let at = bin.index_of(rest[k].account);
        assert(after.accounts[i][at] == work[k].account);
        assert(after.accounts[i].contains(work[k].account));
    }
}

/// What bins hold.
pub open spec fn bins_view(bins: Seq<Vec<usize>>) -> Seq<Seq<usize>> {
    Seq::new(bins.len(), |i: int| bins[i]@)
}

/// Deals work out to the workers, the heaviest first, each piece to the first of the
/// lightest workers.
pub fn pack_bins(work: &Vec<Work>) -> (bins: Vec<Vec<usize>>)
    requires
        total_weight(sorted(work@)) <= usize::MAX,
    ensures
        bins_view(bins@) == packed(sorted(work@)).accounts,
        bins@.len() == NUM_WORKERS,
{
    let order = sort(work);
    let mut bins: Vec<Vec<usize>> = Vec::new();
    let mut weights: Vec<usize> = Vec::new();
    let mut n: usize = 0;
    while n < NUM_WORKERS
        invariant
            n <= NUM_WORKERS,
            bins@.len() == n,
            weights@.len() == n,
            forall|i: int| 0 <= i < n ==> (#[trigger] bins@[i])@ == Seq::<usize>::empty(),
            forall|i: int| 0 <= i < n ==> (#[trigger] weights@[i]) == 0,
        decreases NUM_WORKERS - n,
    {
        bins.push(Vec::new());
        weights.push(0);
        n += 1;
    }
    let mut k: usize = 0;
    proof {
        assert(order@.take(0) =~= Seq::empty());
        assert(bins_view(bins@) =~= packed(order@.take(0)).accounts);
    }
    while k < order.len()
        invariant
            k <= order@.len(),
            total_weight(order@) <= usize::MAX,
            bins@.len() == NUM_WORKERS,
            weights@.len() == NUM_WORKERS,
            bins_view(bins@) =~= packed(order@.take(k as int)).accounts,
            forall|i: int|
                0 <= i < NUM_WORKERS ==> (#[trigger] weights@[i]) == packed(
                    order@.take(k as int),
                ).weights[i],
        decreases order@.len() - k,
    {
        let ghost done = packed(order@.take(k as int));
        let mut to: usize = 0;
        let mut i: usize = 1;
        while i < NUM_WORKERS
            invariant
                1 <= i <= NUM_WORKERS,
                to < i,
                weights@.len() == NUM_WORKERS,
                forall|j: int|
                    0 <= j < NUM_WORKERS ==> (#[trigger] weights@[j]) == done.weights[j],
                to == lightest(done.weights, i as int),
            decreases NUM_WORKERS - i,
        {
            if weights[i] < weights[to] {
                to = i;
            }
            i += 1;
        }
        let piece = order[k];
        proof {
            let next = order@.take(k + 1);
            assert(next.drop_last() =~= order@.take(k as int));
            assert(next.last() == piece);
            lemma_packed(next);
            lemma_packed(order@.take(k as int));
            lemma_total_weight(order@, k + 1);
            assert(packed(next).weights[to as int] == done.weights[to as int] + piece.weight);
        }
        let ghost before = bins@;
        bins[to].push(piece.account);
        let heavier: usize = weights[to] + piece.weight;
        weights[to] = heavier;
        k += 1;
        proof {
            let next = packed(order@.take(k as int));
            assert(bins_view(bins@) =~= next.accounts) by {
                assert forall|j: int| 0 <= j < NUM_WORKERS implies bins@[j]@
                    == #[trigger] next.accounts[j] by {
                    assert(before[j]@ == bins_view(before)[j]);
                }
            }
        }
    }
    assert(order@.take(k as int) =~= order@);
    bins
}

proof fn lemma_total_weight(work: Seq<Work>, n: int)
    requires
        0 <= n <= work.len(),
    ensures
        0 <= total_weight(work.take(n)) <= total_weight(work),
    decreases work.len(),
{
    lemma_packed(work.take(n));
    if n < work.len() {
        assert(work.drop_last().take(n) =~= work.take(n));
        lemma_total_weight(work.drop_last(), n);
    } else {
        assert(work.take(n) =~= work);
    }
}

/// What a worker does to an account of the state trie.
#[derive(Copy, Clone, PartialEq, Eq, Structural, Debug)]
pub struct BalStateWorkItem {
    pub hashed_address: H256,
    pub nonce: Option<u64>,
    pub balance: Option<U256>,
    pub code_hash: Option<H256>,
    /// The new storage root, where the storage changes.
    pub storage_root: Option<H256>,
}

/// The work item of an account.
pub open spec fn work_item(item: HashedItem, storage_root: Option<H256>) -> BalStateWorkItem {
    BalStateWorkItem {
        hashed_address: item.0,
        nonce: item.1.nonce,
        balance: item.1.balance,
        code_hash: item.1.code_hash,
        storage_root,
    }
}

/// The work items of a worker, in the order of the accounts.
pub open spec fn shard_items(
    accounts: Seq<HashedItem>,
    storage_roots: Seq<Option<H256>>,
    worker: int,
    n: int,
) -> Seq<BalStateWorkItem>
    decreases n,
{
    if n <= 0 {
        Seq::empty()
    } else if accounts[n - 1].0.nibble() == worker {
        shard_items(accounts, storage_roots, worker, n - 1).push(
            work_item(accounts[n - 1], storage_roots[n - 1]),
        )
    } else {
        shard_items(accounts, storage_roots, worker, n - 1)
    }
}

/// Deals the accounts out to the workers by the first nibble of their hashed address.
pub fn build_shards(accounts: &Vec<HashedItem>, storage_roots: &Vec<Option<H256>>) -> (shards: Vec<
    Vec<BalStateWorkItem>,
>)
    requires
        accounts@.len() == storage_roots@.len(),
    ensures
        shards@.len() == NUM_WORKERS,
        forall|w: int|
            0 <= w < NUM_WORKERS ==> (#[trigger] shards@[w])@ == shard_items(
                accounts@,
                storage_roots@,
                w,
                accounts@.len() as int,
            ),
{
    let mut shards: Vec<Vec<BalStateWorkItem>> = Vec::new();
    let mut n: usize = 0;
    while n < NUM_WORKERS
        invariant
            n <= NUM_WORKERS,
            shards@.len() == n,
            forall|w: int|
                0 <= w < n ==> (#[trigger] shards@[w])@ == Seq::<BalStateWorkItem>::empty(),
        decreases NUM_WORKERS - n,
    {
        shards.push(Vec::new());
        n += 1;
    }
    let mut i: usize = 0;
    while i < accounts.len()
        invariant
            i <= accounts@.len(),
            accounts@.len() == storage_roots@.len(),
            shards@.len() == NUM_WORKERS,
            forall|w: int|
                0 <= w < NUM_WORKERS ==> (#[trigger] shards@[w])@ == shard_items(
                    accounts@,
                    storage_roots@,
                    w,
                    i as int,
                ),
        decreases accounts@.len() - i,
    {
        let hashed_address = accounts[i].0;
        let bucket: usize = hashed_address.first_nibble() as usize;
        let ghost before = shards@;
        shards[bucket].push(
            BalStateWorkItem {
                hashed_address,
                nonce: accounts[i].1.nonce,
                balance: accounts[i].1.balance,
                code_hash: accounts[i].1.code_hash,
                storage_root: storage_roots[i],
            },
        );
        i += 1;
        proof {
            assert forall|w: int| 0 <= w < NUM_WORKERS implies (#[trigger] shards@[w])@
                == shard_items(accounts@, storage_roots@, w, i as int) by {
                assert(before[w]@ == shard_items(accounts@, storage_roots@, w, i - 1));
            }
        }
    }
    shards
}

/// An account with the fields that changed.
pub open spec fn overlaid(account: AccountState, item: BalStateWorkItem) -> AccountState {
    AccountState {
        nonce: match item.nonce {
            Some(nonce) => nonce,
            None => account.nonce,
        },
        balance: match item.balance {
            Some(balance) => balance,
            None => account.balance,
        },
        code_hash: match item.code_hash {
            Some(hash) => hash,
            None => account.code_hash,
        },
        storage_root: match item.storage_root {
            Some(root) => root,
            None => account.storage_root,
        },
    }
}

/// What becomes of an account of the state trie, `loaded` being what the trie holds. An
/// account that ends up empty is removed.
pub fn apply_work_item(item: &BalStateWorkItem, loaded: Option<AccountState>) -> (effect: Effect)
    ensures
        effect == write_account(
            item.hashed_address,
            overlaid(
                match loaded {
                    Some(state) => state,
                    None => AccountState::blank(),
                },
                *item,
            ),
        ),
{
    let mut account = match loaded {
        Some(state) => state,
        None => AccountState::empty(),
    };
    match item.nonce {
        Some(nonce) => {
            account.nonce = nonce;
        },
        None => {},
    }
    match item.balance {
        Some(balance) => {
            account.balance = balance;
        },
        None => {},
    }
    match item.code_hash {
        Some(hash) => {
            account.code_hash = hash;
        },
        None => {},
    }
    match item.storage_root {
        Some(root) => {
            account.storage_root = root;
        },
        None => {},
    }
    if account != AccountState::empty() {
        Effect::PutAccount { prefix: item.hashed_address, state: account }
    } else {
        Effect::RemoveAccount { prefix: item.hashed_address }
    }
}

/// The new codes of accounts, with their hashes, in the order of the accounts.
pub open spec fn new_codes(accounts: Seq<HashedItem>, n: int) -> Seq<(H256, CodeView)>
    decreases n,
{
    if n <= 0 {
        Seq::empty()
    } else {
        let item = accounts[n - 1].1;
        match (item.code_hash, item.code) {
            (Some(hash), Some(code)) => new_codes(accounts, n - 1).push((hash, code@)),
            _ => new_codes(accounts, n - 1),
        }
    }
}

/// What a list of codes holds.
pub open spec fn code_list_view(codes: Seq<(H256, Code)>) -> Seq<(H256, CodeView)> {
    Seq::new(codes.len(), |i: int| (codes[i].0, codes[i].1@))
}

/// The new codes of accounts, with their hashes.
pub fn collect_codes(accounts: &Vec<HashedItem>) -> (codes: Vec<(H256, Code)>)
    ensures
        code_list_view(codes@) == new_codes(accounts@, accounts@.len() as int),
{
    let mut codes: Vec<(H256, Code)> = Vec::new();
    let mut i: usize = 0;
    proof {
        assert(code_list_view(codes@) =~= Seq::empty());
    }
    while i < accounts.len()
        invariant
            i <= accounts@.len(),
            code_list_view(codes@) == new_codes(accounts@, i as int),
        decreases accounts@.len() - i,
    {
        let ghost before = code_list_view(codes@);
        match (&accounts[i].1.code_hash, &accounts[i].1.code) {
            (Some(hash), Some(code)) => {
                codes.push((*hash, code.duplicate()));
                assert(code_list_view(codes@) =~= before.push((*hash, code@)));
            },
            _ => {},
        }
        i += 1;
    }
    codes
}

} // verus!
