//! How updates are joined and dealt out to the workers of the state trie, and what is
//! written of an account.

use crate::account::{empty_keccak, empty_trie, AccountState, CodeView, UpdateView};
use crate::blockchain::bal_merkle::{
    apply_work_item, is_hot, lemma_lightest, lemma_packed, lightest, new_codes, packed,
    shard_items, BalStateWorkItem, HashedItem, Work,
};
use crate::blockchain::merkle_worker::{Effect, ProcessAccount};
use crate::blockchain::routing::{request_for, routed, RouterView};
use crate::word::{Address, H256, U256};
use vstd::prelude::*;

verus! {

/// The value that a slot has after an update.
pub open spec fn slot_left(update: UpdateView, key: H256, before: nat) -> nat {
    if update.added_storage.contains_key(key) {
        update.added_storage[key]@
    } else if update.removed_storage {
        0
    } else {
        before
    }
}

/// Two updates of an account that were joined do what they do one after the other: to its
/// balance, nonce and code hash, to its code, and to every slot, whatever it held before.
/// The account is gone exactly where the later one says so.
pub proof fn law_joined_updates_do_both(
    earlier: UpdateView,
    later: UpdateView,
    key: H256,
    before: nat,
)
    ensures
        ({
            let both = earlier.merged(later);
            &&& both.address == earlier.address
            &&& both.removed == later.removed
            &&& later.info is Some ==> both.info == later.info
            &&& later.info is None ==> both.info == earlier.info
            &&& later.code is Some ==> both.code == later.code
            &&& later.code is None ==> both.code == earlier.code
            &&& both.removed_storage <==> earlier.removed_storage || later.removed_storage
            &&& !later.removed ==> slot_left(both, key, before) == slot_left(
                later,
                key,
                slot_left(earlier, key, before),
            )
            &&& later.removed || later.removed_storage ==> both.added_storage
                == later.added_storage
        }),
{
}

/// A worker is told of an account what its update says: the hashed address, its fields and
/// its slots, and whether it or its storage is gone. Of a removed account it is told that
/// nonce and balance are zero and that there is no code, and of no slot.
pub proof fn law_worker_is_told_of_the_update(
    hashed_address: H256,
    update: UpdateView,
    slots: Seq<(H256, U256)>,
    request: ProcessAccount,
)
    requires
        request_for(hashed_address, update, slots, request),
    ensures
        request.prefix == hashed_address,
        request.removed <==> update.removed,
        request.removed_storage <==> update.removed_storage,
        !update.removed ==> request.info == update.info && request.storage@ == slots,
        update.removed ==> request.storage@.len() == 0 && (request.info matches Some(info)
            && info.nonce == 0 && info.balance@ == 0 && info.code_hash == empty_keccak()),
{
}

/// A router remembers every account that it dealt out, those whose storage changes, the
/// code of every account that got one, under its hash, and, where a witness is made, one
/// update for each account.
pub proof fn law_router_remembers(
    router: RouterView,
    hashed_address: H256,
    update: UpdateView,
    slots: Seq<(H256, U256)>,
    other: H256,
    account: Address,
)
    ensures
        ({
            let after = routed(router, hashed_address, update, slots);
            let n = router.codes.len() as int;
            let coded = !update.removed && update.info is Some && update.code is Some;
            &&& after.accounts.contains(other) <==> router.accounts.contains(other) || other
                == hashed_address
            &&& after.has_storage.contains(other) <==> router.has_storage.contains(other) || (
            other == hashed_address && (update.removed || update.removed_storage || slots.len()
                > 0))
            &&& coded ==> after.codes.len() == n + 1 && after.codes[n] == (
                update.info->0.code_hash,
                update.code->0,
            )
            &&& !coded ==> after.codes == router.codes
            &&& forall|i: int| 0 <= i < n ==> #[trigger] after.codes[i] == router.codes[i]
            &&& after.accumulator is Some <==> router.accumulator is Some
            &&& router.accumulator matches Some(held) ==> ({
                let now = after.accumulator->0;
                &&& now.contains_key(account) <==> held.contains_key(account) || account
                    == update.address
                &&& account != update.address && held.contains_key(account) ==> now[account]
                    == held[account]
                &&& !held.contains_key(update.address) ==> now[update.address] == update
                &&& held.contains_key(update.address) ==> now[update.address]
                    == held[update.address].merged(update)
            })
        }),
{
}

/// What a block access list says of an account is written to the state trie: each of
/// nonce, balance, code hash and storage root that it names, and what the trie held for
/// the others. An account of which nothing is left is removed.
pub proof fn law_listed_account_is_written(
    item: BalStateWorkItem,
    loaded: Option<AccountState>,
    effect: Effect,
)
    requires
        call_ensures(apply_work_item, (&item, loaded), effect),
    ensures
        match effect {
            Effect::PutAccount { prefix, state } => {
                &&& prefix == item.hashed_address
                &&& item.nonce matches Some(nonce) ==> state.nonce == nonce
                &&& item.balance matches Some(balance) ==> state.balance == balance
                &&& item.code_hash matches Some(hash) ==> state.code_hash == hash
                &&& item.storage_root matches Some(root) ==> state.storage_root == root
                &&& item.nonce is None ==> state.nonce == (match loaded {
                    Some(was) => was.nonce,
                    None => 0,
                })
                &&& item.balance is None ==> state.balance@ == (match loaded {
                    Some(was) => was.balance@,
                    None => 0,
                })
                &&& item.code_hash is None ==> state.code_hash == (match loaded {
                    Some(was) => was.code_hash,
                    None => empty_keccak(),
                })
                &&& item.storage_root is None ==> state.storage_root == (match loaded {
                    Some(was) => was.storage_root,
                    None => empty_trie(),
                })
                &&& !(state.nonce == 0 && state.balance@ == 0 && state.code_hash == empty_keccak()
                    && state.storage_root == empty_trie())
            },
            Effect::RemoveAccount { prefix } => {
                &&& prefix == item.hashed_address
                &&& (match (item.nonce, loaded) {
                    (Some(nonce), _) => nonce == 0,
                    (None, Some(was)) => was.nonce == 0,
                    (None, None) => true,
                })
                &&& (match (item.balance, loaded) {
                    (Some(balance), _) => balance@ == 0,
                    (None, Some(was)) => was.balance@ == 0,
                    (None, None) => true,
                })
                &&& (match (item.code_hash, loaded) {
                    (Some(hash), _) => hash == empty_keccak(),
                    (None, Some(was)) => was.code_hash == empty_keccak(),
                    (None, None) => true,
                })
                &&& (match (item.storage_root, loaded) {
                    (Some(root), _) => root == empty_trie(),
                    (None, Some(was)) => was.storage_root == empty_trie(),
                    (None, None) => true,
                })
            },
            _ => false,
        },
{
    let account = crate::blockchain::bal_merkle::overlaid(
        match loaded {
            Some(state) => state,
            None => AccountState::blank(),
        },
        item,
    );
    if account.balance@ == 0 {
        crate::word::lemma_word_ext(account.balance, U256 { hi: 0, lo: 0 });
    }
}

/// All workers together compute a storage root from 2048 slots on.
pub proof fn law_many_slots_are_shared(item: HashedItem)
    ensures
        is_hot(item) <==> item.1.added_storage@.dom().len() >= 2048,
{
}

/// `item` holds what is known of an account, and its storage root.
pub open spec fn holds_account(
    item: BalStateWorkItem,
    account: HashedItem,
    root: Option<H256>,
) -> bool {
    &&& item.hashed_address == account.0
    &&& item.nonce == account.1.nonce
    &&& item.balance == account.1.balance
    &&& item.code_hash == account.1.code_hash
    &&& item.storage_root == root
}

/// An account goes to the worker that the upper half of the first byte of its hashed
/// address names, with all that is known of it and its storage root.
pub proof fn law_account_goes_to_its_worker(
    accounts: Seq<HashedItem>,
    roots: Seq<Option<H256>>,
    n: int,
    i: int,
) -> (j: int)
    requires
        0 <= i < n <= accounts.len(),
        accounts.len() == roots.len(),
    ensures
        ({
            let items = shard_items(accounts, roots, accounts[i].0.bytes()[0] as int / 16, n);
            0 <= j < items.len() && holds_account(items[j], accounts[i], roots[i])
        }),
    decreases n,
{
    crate::laws::worker::law_worker_of_a_hash(accounts[i].0);
    let worker = accounts[i].0.nibble();
    let before = shard_items(accounts, roots, worker, n - 1);
    let items = shard_items(accounts, roots, worker, n);
    if i < n - 1 {
        let j = law_account_goes_to_its_worker(accounts, roots, n - 1, i);
        assert(items[j] == before[j]);
        j
    } else {
        items.len() - 1
    }
}

/// A worker is given nothing but accounts that its number names.
pub proof fn law_worker_is_given_its_accounts(
    accounts: Seq<HashedItem>,
    roots: Seq<Option<H256>>,
    worker: int,
    n: int,
    j: int,
) -> (i: int)
    requires
        0 <= n <= accounts.len(),
        accounts.len() == roots.len(),
        0 <= j < shard_items(accounts, roots, worker, n).len(),
    ensures
        0 <= i < n,
        accounts[i].0.bytes()[0] / 16 == worker,
        holds_account(shard_items(accounts, roots, worker, n)[j], accounts[i], roots[i]),
    decreases n,
{
    let before = shard_items(accounts, roots, worker, n - 1);
    let items = shard_items(accounts, roots, worker, n);
    if j < before.len() {
        assert(items[j] == before[j]);
        law_worker_is_given_its_accounts(accounts, roots, worker, n - 1, j)
    } else {
        crate::laws::worker::law_worker_of_a_hash(accounts[n - 1].0);
        n - 1
    }
}

/// An account that got a code has it among the new codes, under its hash.
pub proof fn law_new_code_is_kept(accounts: Seq<HashedItem>, n: int, i: int) -> (j: int)
    requires
        0 <= i < n <= accounts.len(),
        code_of(accounts[i]) is Some,
    ensures
        0 <= j < new_codes(accounts, n).len(),
        new_codes(accounts, n)[j] == code_of(accounts[i])->0,
    decreases n,
{
    if i < n - 1 {
        let j = law_new_code_is_kept(accounts, n - 1, i);
        assert(new_codes(accounts, n)[j] == new_codes(accounts, n - 1)[j]);
        j
    } else {
        new_codes(accounts, n).len() - 1
    }
}

/// A new code is that of an account.
pub proof fn law_new_code_is_that_of_an_account(accounts: Seq<HashedItem>, n: int, j: int) -> (i:
    int)
    requires
        0 <= n <= accounts.len(),
        0 <= j < new_codes(accounts, n).len(),
    ensures
        0 <= i < n,
        code_of(accounts[i]) == Some(new_codes(accounts, n)[j]),
    decreases n,
{
    let before = new_codes(accounts, n - 1);
    if j < before.len() {
        assert(new_codes(accounts, n)[j] == before[j]);
        law_new_code_is_that_of_an_account(accounts, n - 1, j)
    } else {
        n - 1
    }
}

/// The code that an account got, with its hash.
pub open spec fn code_of(account: HashedItem) -> Option<(H256, CodeView)> {
    match (account.1.code_hash, account.1.code) {
        (Some(hash), Some(code)) => Some((hash, code@)),
        _ => None,
    }
}

/// A worker is given no account that no piece of work names.
pub proof fn law_packed_account_has_work(work: Seq<Work>, b: int, i: int) -> (k: int)
    requires
        0 <= b < 16,
        0 <= i < packed(work).accounts[b].len(),
    ensures
        0 <= k < work.len(),
        work[k].account == packed(work).accounts[b][i],
    decreases work.len(),
{
    let rest = work.drop_last();
    let before = packed(rest);
    lemma_packed(rest);
    lemma_packed(work);
    lemma_lightest(before.weights, 16);
    let to = lightest(before.weights, 16);
    if work.len() == 0 {
        assert(packed(work).accounts[b].len() == 0);
        0
    } else if b == to && i == before.accounts[to].len() {
        work.len() - 1
    } else {
        let k = law_packed_account_has_work(rest, b, i);
        assert(rest[k] == work[k]);
        k
    }
}

/// Where no two pieces of work name the same account, no account is given out twice,
/// neither to two workers nor to one.
pub proof fn law_packing_gives_each_account_once(work: Seq<Work>, b: int, i: int, c: int, j: int)
    requires
        forall|x: int, y: int|
            0 <= x < y < work.len() ==> (#[trigger] work[x]).account != (
            #[trigger] work[y]).account,
        0 <= b < 16,
        0 <= c < 16,
        0 <= i < packed(work).accounts[b].len(),
        0 <= j < packed(work).accounts[c].len(),
        b != c || i != j,
    ensures
        packed(work).accounts[b][i] != packed(work).accounts[c][j],
    decreases work.len(),
{
    let rest = work.drop_last();
    let before = packed(rest);
    lemma_packed(rest);
    lemma_packed(work);
    lemma_lightest(before.weights, 16);
    let to = lightest(before.weights, 16);
    if work.len() > 0 {
        let end = work.len() - 1;
        let last_b = b == to && i == before.accounts[to].len();
        let last_c = c == to && j == before.accounts[to].len();
        assert forall|x: int, y: int| 0 <= x < y < rest.len() implies (
        #[trigger] rest[x]).account != (#[trigger] rest[y]).account by {
            assert(work[x].account != work[y].account);
        }
        if last_b {
            let k = law_packed_account_has_work(rest, c, j);
            assert(work[k].account != work[end].account);
        } else if last_c {
            let k = law_packed_account_has_work(rest, b, i);
            assert(work[k].account != work[end].account);
        } else {
            law_packing_gives_each_account_once(rest, b, i, c, j);
        }
    }
}

} // verus!
