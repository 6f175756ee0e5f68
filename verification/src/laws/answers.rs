//! What is answered where a part of the library is asked how things stand.

use crate::account::{Account, AccountStatus, CacheDB};
use crate::bal::AccountChanges;
use crate::blockchain::admission::{AdmissionLimits, Simulation};
use crate::blockchain::bal_merkle::{partition_accounts, weigh_accounts, HashedItem, Work};
use crate::blockchain::merkle_worker::{has_worker, Effect, Outgoing, SubtrieWorker};
use crate::blockchain::pool::NonceCache;
use crate::blockchain::trie_node::{
    attach, branchify, can_branch, find, law_attach_keeps_paths, law_branchify_keeps_paths,
    BranchNode, Found, Node,
};
use crate::database::Database;
use crate::gen_db::{seeded, DbView, GeneralizedDatabase};
use crate::laws::database::{last_told, law_the_last_change_is_told, listed, overlaid, says_all};
use crate::table::Table;
use crate::word::{Address, H256};
use std::sync::Arc;
use vstd::prelude::*;

verus! {

/// Someone other than the sender pays exactly where the prefix was run and passed and names
/// that account.
pub proof fn law_payer_of_a_run(simulation: Simulation, payer: Option<Address>)
    requires
        call_ensures(Simulation::payer, (&simulation,), payer),
    ensures
        match simulation {
            Simulation::Done { passed, paymaster, .. } => (payer is Some <==> passed && paymaster
                is Some) && (payer is Some ==> (paymaster matches Some((address, _)) && payer->0
                == address)),
            Simulation::Failed(_) => payer is None,
        },
{
}

/// The limits of a mempool that is not configured otherwise: 128 kilobytes for a
/// transaction, a megabyte with blobs, 48 and 64 kilobytes of init code, and 2^24 units of
/// gas.
pub proof fn law_standard_limits(limits: AdmissionLimits)
    requires
        call_ensures(AdmissionLimits::standard, (), limits),
    ensures
        limits.max_tx_size == 128 * 1024,
        limits.max_blob_tx_size == 1024 * 1024,
        limits.max_initcode_size == 48 * 1024,
        limits.amsterdam_max_initcode_size == 64 * 1024,
        limits.post_osaka_gas_limit_cap == 0x100_0000,
        limits.min_base_fee_per_blob_gas == 1,
        limits.frame_tx_max_verify_gas == 100000,
        limits.max_pending_noncanonical_paymaster == 1,
{
}

/// A worker has to be given an account that it does not hold; takes one as long as slots
/// can be sent on and no shard of it has come; waits for a shard exactly where one is to
/// come and has not; and only looks for messages while it sends or has changed something.
pub proof fn law_worker_answers(
    worker: SubtrieWorker,
    prefix: H256,
    from: u8,
    load: bool,
    send: bool,
    takes: bool,
    waits: bool,
    polls: bool,
)
    requires
        call_ensures(SubtrieWorker::must_load, (&worker, prefix), load),
        call_ensures(SubtrieWorker::can_send, (&worker,), send),
        call_ensures(SubtrieWorker::takes_account, (&worker, prefix), takes),
        call_ensures(SubtrieWorker::awaits, (&worker, prefix, from), waits),
        call_ensures(SubtrieWorker::polls, (&worker,), polls),
    ensures
        load <==> !worker.accounts@.contains_key(prefix),
        send <==> !worker.routing_complete || worker.collecting_storages,
        takes <==> send && !worker.received_shards@.contains_key(prefix),
        waits <==> from < 16 && worker.expected_shards@.contains_key(prefix) && has_worker(
            worker.expected_shards@[prefix],
            from,
        ) && !(worker.received_shards@.contains_key(prefix) && has_worker(
            worker.received_shards@[prefix],
            from,
        )),
        polls <==> worker.collecting_storages || worker.dirty,
{
}

/// A worker that sends no more slots tells all sixteen workers so, under its own number.
pub proof fn law_worker_tells_that_it_is_done(
    worker: SubtrieWorker,
    effects: Vec<Effect>,
    to: u8,
)
    requires
        call_ensures(SubtrieWorker::finish_routing, (&worker,), effects),
        to < 16,
    ensures
        effects@.len() == 16,
        effects@[to as int] == (Effect::Send {
            to,
            message: Outgoing::RoutingDone { from: worker.index },
        }),
{
}

/// A nonce is known of a sender exactly where it was learned.
pub proof fn law_known_nonce(cache: NonceCache, sender: Address, nonce: Option<u64>)
    requires
        call_ensures(NonceCache::known, (&cache, sender), nonce),
    ensures
        nonce is Some <==> cache.nonces@.contains_key(sender),
        nonce matches Some(n) ==> n == cache.nonces@[sender],
{
}

/// A node that is turned into a branch reads as before at every path, and one that gets a
/// nibble in front reads below that nibble as before, and nowhere else.
pub proof fn law_nodes_read_the_same(
    node: Node,
    branch: BranchNode,
    first: u8,
    whole: Node,
    path: Seq<u8>,
)
    requires
        can_branch(node),
        call_ensures(branchify, (node,), branch),
        call_ensures(attach, (first, node), whole),
    ensures
        find(Node::Branch(branch), path) == find(node, path),
        path.len() > 0 && path[0] == first ==> find(whole, path) == find(node, path.skip(1)),
        path.len() == 0 || path[0] != first ==> find(whole, path) == Found::Nothing,
{
    law_branchify_keeps_paths(node, branch, path);
    law_attach_keeps_paths(first, node, whole, path);
}

/// The work of an account is as heavy as it has slots.
pub proof fn law_work_is_weighed(
    accounts: Vec<HashedItem>,
    normal: Vec<usize>,
    work: Vec<Work>,
    i: int,
)
    requires
        call_ensures(weigh_accounts, (&accounts, &normal), work),
        0 <= i < normal@.len(),
        normal@[i] < accounts@.len(),
        accounts@[normal@[i] as int].1.added_storage@.dom().len() <= usize::MAX,
    ensures
        work@.len() == normal@.len(),
        work@[i].account == normal@[i],
        work@[i].weight == accounts@[normal@[i] as int].1.added_storage@.dom().len(),
{
}

/// Accounts with fewer than 2048 slots go to one worker each, and the others to all.
pub proof fn law_accounts_are_parted(
    accounts: Vec<HashedItem>,
    parts: (Vec<usize>, Vec<usize>),
    i: int,
)
    requires
        call_ensures(partition_accounts, (&accounts,), parts),
        0 <= i < accounts@.len() <= usize::MAX,
    ensures
        parts.0@.contains(i as usize) <==> accounts@[i].1.added_storage@.dom().len() < 2048,
        parts.1@.contains(i as usize) <==> accounts@[i].1.added_storage@.dom().len() >= 2048,
{
    crate::blockchain::bal_merkle::law_every_account_in_one_part(
        accounts@,
        accounts@.len() as int,
        i,
    );
}

/// The store has to be asked for an account exactly where neither the cache, the baseline
/// nor the shared base holds it and the block access list does not say all of it.
pub proof fn law_store_is_asked_last<D: Database>(
    db: GeneralizedDatabase<D>,
    address: Address,
    b: bool,
)
    requires
        call_ensures(GeneralizedDatabase::<D>::must_ask_store, (&db, address), b),
    ensures
        b <==> !db@.current.contains_key(address) && !db@.initial.contains_key(address) && !(
        db@.base is Some && db@.base->0.contains_key(address)) && !(listed(db@, address) is Some
            && says_all(listed(db@, address)->0, db@.lazy->0.max_idx())),
{
    if listed(db@, address) is Some {
        let changes = listed(db@, address)->0;
        let max_idx = db@.lazy->0.max_idx();
        law_the_last_change_is_told(changes.balance_changes@, max_idx);
        law_the_last_change_is_told(changes.nonce_changes@, max_idx);
        law_the_last_change_is_told(changes.code_changes@, max_idx);
    }
}

/// What a list says is laid over a cached account: each field that it tells is the one told
/// last, the others and the slots stay. The account exists and is marked as modified, the
/// last code is known under its hash, and no other account and no other code changes.
pub proof fn law_list_is_laid_over(
    db: DbView,
    changes: AccountChanges,
    max_idx: u32,
    other: Address,
    h: H256,
)
    requires
        db.current.contains_key(changes.address),
    ensures
        ({
            let after = seeded(db, changes, max_idx);
            let was = db.current[changes.address];
            let now = after.current[changes.address];
            &&& overlaid(was.info, changes, max_idx, now.info)
            &&& now.storage == was.storage
            &&& now.has_storage == was.has_storage
            &&& now.exists
            &&& now.status == if was.status == AccountStatus::Destroyed || was.status
                == AccountStatus::DestroyedModified {
                AccountStatus::DestroyedModified
            } else {
                AccountStatus::Modified
            }
            &&& other != changes.address ==> (after.current.contains_key(other)
                <==> db.current.contains_key(other)) && after.current[other] == db.current[other]
            &&& after.initial == db.initial
            &&& db.codes.contains_key(h) ==> after.codes.contains_key(h) && after.codes[h]
                == db.codes[h]
            &&& forall|i: int| #[trigger]
                last_told(changes.code_changes@, max_idx, i)
                    && changes.code_changes@[i].post.bytecode@.len() > 0
                    ==> after.codes.contains_key(changes.code_changes@[i].post.hash)
        }),
{
    law_the_last_change_is_told(changes.balance_changes@, max_idx);
    law_the_last_change_is_told(changes.nonce_changes@, max_idx);
    law_the_last_change_is_told(changes.code_changes@, max_idx);
}

/// A database that is made from accounts holds each of them in its cache and its baseline,
/// with its fields and all of its slots and unmodified, and its code under its code hash;
/// and no other account.
pub proof fn law_database_starts_with_its_accounts<D: Database>(
    store: D,
    accounts: Table<Address, Account>,
    db: GeneralizedDatabase<D>,
    a: Address,
)
    requires
        call_ensures(
            GeneralizedDatabase::<D>::new_with_account_state,
            (store, &accounts),
            db,
        ),
    ensures
        db.store == store,
        db@.current.contains_key(a) <==> accounts@.contains_key(a),
        db@.initial.contains_key(a) <==> accounts@.contains_key(a),
        accounts@.contains_key(a) ==> {
            let now = db@.current[a];
            &&& db@.initial[a] == now
            &&& now.info.nonce == accounts@[a].info.nonce
            &&& now.info.balance == accounts@[a].info.balance
            &&& now.info.code_hash == accounts@[a].info.code_hash
            &&& now.storage == accounts@[a].storage@
            &&& now.has_storage <==> exists|k: H256| #[trigger]
                accounts@[a].storage@.contains_key(k)
            &&& now.status == AccountStatus::Unmodified
            &&& now.exists
            &&& db@.codes.contains_key(accounts@[a].info.code_hash)
        },
        !db@.skip,
        db@.recorder is None,
        db@.lazy is None,
        db@.base is None,
{
    let slots = accounts@[a].storage@;
    if exists|k: H256| #[trigger] slots.contains_key(k) {
        let k = choose|k: H256| #[trigger] slots.contains_key(k);
        assert(slots.dom().contains(k));
    }
    if !slots.dom().is_empty() {
        let k = slots.dom().choose();
        assert(slots.contains_key(k));
    }
}

/// A database over a shared base starts empty, keeps no baseline, and sees the base.
pub proof fn law_database_over_a_base<D: Database>(
    store: D,
    base: Arc<CacheDB>,
    db: GeneralizedDatabase<D>,
    fresh: GeneralizedDatabase<D>,
    a: Address,
)
    requires
        call_ensures(GeneralizedDatabase::<D>::new_with_shared_base, (store, base), db),
        call_ensures(GeneralizedDatabase::<D>::new, (store,), fresh),
    ensures
        db.store == store,
        fresh.store == store,
        !db@.current.contains_key(a) && !db@.initial.contains_key(a),
        !fresh@.current.contains_key(a) && !fresh@.initial.contains_key(a),
        db@.skip && !fresh@.skip,
        fresh@.base is None,
        db@.base is Some,
        db@.base->0.contains_key(a) <==> base@.contains_key(a),
        base@.contains_key(a) ==> db@.base->0[a] == base@[a]@,
        db@.recorder is None && fresh@.recorder is None,
{
}

} // verus!
