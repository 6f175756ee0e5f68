//! Which blocks are taken, and in which steps.

use crate::account::{empty_trie, AccountState};
use crate::block::{Block, BlockHeader};
use crate::blockchain::checks::{
    find_parent_header, is_canonical, latest_canonical_block_hash, missing_parent,
    records_access_list, storage_root_of, validate_before_execution, validate_execution,
    validate_l1_transaction_types, validate_state_root, BlockChecks, BlockchainType,
    ExecutionChecks,
};
use crate::blockchain::phases::{time_phases, Phase, PhaseTimes, PipelineInstants};
use crate::blockchain::pipeline::{
    bal_to_store, import_result, imported_bal, imported_witness, join_results, plan, prewarmed_use,
    Import, ImportEvent, ImportPhase, Imported, PrewarmedEntry, WitnessPlan,
};
use crate::blockchain::BlockchainOptions;
use crate::chain_error::{ChainError, InvalidBlockError};
use crate::config::ChainConfig;
use crate::laws::admission::started;
use crate::transaction::Transaction;
use crate::word::H256;
use vstd::prelude::*;

verus! {

/// A block is taken for its state exactly where the state that it led to has the root that
/// its header names.
pub proof fn law_state_root_decides(header: BlockHeader, root: H256, r: Result<(), ChainError>)
    requires
        call_ensures(validate_state_root, (&header, root), r),
    ensures
        r is Ok <==> header.state_root == root,
        r matches Err(e) ==> e == ChainError::InvalidBlock(InvalidBlockError::StateRootMismatch),
{
}

/// A transaction of one of the two kinds that only a rollup knows.
pub open spec fn for_rollups(tx: Transaction) -> bool {
    tx.tx_type is FeeToken || tx.tx_type is Privileged
}

/// A block of a base layer is refused exactly where it holds a transaction of a kind that
/// only a rollup knows, and is told the kind of the first of them: 7d or 7e.
pub proof fn law_rollup_kinds_are_refused(
    kind: BlockchainType,
    block: Block,
    r: Result<(), ChainError>,
)
    requires
        call_ensures(validate_l1_transaction_types, (kind, &block), r),
    ensures
        r is Err <==> kind is L1 && exists|i: int|
            0 <= i < block.body.transactions@.len() && for_rollups(
                #[trigger] block.body.transactions@[i],
            ),
        r matches Err(e) ==> exists|i: int|
            {
                &&& 0 <= i < block.body.transactions@.len()
                &&& for_rollups(#[trigger] block.body.transactions@[i])
                &&& forall|j: int|
                    0 <= j < i ==> !for_rollups(#[trigger] block.body.transactions@[j])
                &&& e == ChainError::InvalidBlock(
                    InvalidBlockError::UnsupportedTransactionType(
                        if block.body.transactions@[i].tx_type is FeeToken {
                            0x7d
                        } else {
                            0x7e
                        },
                    ),
                )
            },
{
    let txs = block.body.transactions@;
    if r is Err {
        let at = choose|at: int|
            {
                &&& #[trigger] crate::blockchain::checks::first_l2_only(txs, at)
                &&& r->Err_0 == ChainError::InvalidBlock(
                    InvalidBlockError::UnsupportedTransactionType(txs[at].tx_type.wire()),
                )
            };
        assert(for_rollups(txs[at]));
        assert forall|j: int| 0 <= j < at implies !for_rollups(#[trigger] txs[j]) by {
            assert(!txs[j].tx_type.l2_only());
        }
    }
    if kind is L1 && exists|i: int| 0 <= i < txs.len() && for_rollups(#[trigger] txs[i]) {
        let i = choose|i: int| 0 <= i < txs.len() && for_rollups(#[trigger] txs[i]);
        assert(txs[i].tx_type.l2_only());
    }
}

/// A block may be executed exactly where its header was found to fit its parent, it holds
/// no transaction of a rollup on a base layer, and its body, where that was checked, was
/// found to fit its header; the first of these that fails is told.
pub proof fn law_block_is_checked_before_execution(
    kind: BlockchainType,
    block: Block,
    checks: BlockChecks,
    r: Result<(), ChainError>,
)
    requires
        call_ensures(validate_before_execution, (kind, &block, checks), r),
    ensures
        ({
            let foreign = kind is L1 && exists|i: int|
                0 <= i < block.body.transactions@.len() && for_rollups(
                    #[trigger] block.body.transactions@[i],
                );
            &&& r is Ok <==> checks.pre_execution is Ok && !foreign && !(checks.body is Some
                && checks.body->0 is Err)
            &&& checks.pre_execution matches Err(e) ==> r == Err::<(), ChainError>(
                ChainError::InvalidBlock(e),
            )
            &&& checks.pre_execution is Ok && foreign ==> (r matches Err(
                ChainError::InvalidBlock(InvalidBlockError::UnsupportedTransactionType(_)),
            ))
            &&& checks.pre_execution is Ok && !foreign && checks.body is Some && checks.body->0
                is Err ==> r == Err::<(), ChainError>(
                ChainError::InvalidBlock(InvalidBlockError::InvalidBody(checks.body->0->Err_0)),
            )
        }),
{
    let types = choose|types: Result<(), ChainError>|
        #[trigger] call_ensures(validate_l1_transaction_types, (kind, &block), types) && r
            == crate::blockchain::checks::admitted_block(checks, types);
    law_rollup_kinds_are_refused(kind, block, types);
}

/// An executed block is taken exactly where its gas, its receipts and its requests were
/// found right, and its access list: the one that the execution produced, or, where it
/// produced none and access lists have started, the one that came with the block, which
/// must hash to what the header names. The first of these that fails is told.
pub proof fn law_execution_is_checked(
    checks: ExecutionChecks,
    config: ChainConfig,
    timestamp: u64,
    r: Result<(), ChainError>,
)
    requires
        call_ensures(validate_execution, (checks, &config, timestamp), r),
    ensures
        ({
            let forged = checks.produced_bal is None && checks.header_bal_matches == Some(false)
                && started(config.amsterdam_time, timestamp);
            &&& r is Ok <==> checks.gas_used is Ok && checks.receipts is Ok && checks.requests
                is Ok && !(checks.produced_bal is Some && checks.produced_bal->0 is Err)
                && !forged
            &&& checks.gas_used matches Err(e) ==> r == Err::<(), ChainError>(
                ChainError::InvalidBlock(e),
            )
            &&& checks.gas_used is Ok && checks.receipts is Err ==> r == Err::<(), ChainError>(
                ChainError::InvalidBlock(checks.receipts->Err_0),
            )
            &&& checks.gas_used is Ok && checks.receipts is Ok && checks.requests is Err ==> r
                == Err::<(), ChainError>(ChainError::InvalidBlock(checks.requests->Err_0))
            &&& checks.gas_used is Ok && checks.receipts is Ok && checks.requests is Ok
                && checks.produced_bal is Some && checks.produced_bal->0 is Err ==> r == Err::<
                (),
                ChainError,
            >(ChainError::InvalidBlock(checks.produced_bal->0->Err_0))
            &&& checks.gas_used is Ok && checks.receipts is Ok && checks.requests is Ok && forged
                ==> r == Err::<(), ChainError>(
                ChainError::InvalidBlock(InvalidBlockError::BlockAccessListHashMismatch),
            )
        }),
{
}

/// What the store has is what is told: a header under the parent's hash, a hash under the
/// latest number, a storage root; and what is missing is told as missing.
pub proof fn law_answers_of_the_store(
    answer: Result<Option<BlockHeader>, String>,
    header: Result<BlockHeader, ChainError>,
    kept: Result<(), String>,
    e: ChainError,
    latest: Result<Option<H256>, String>,
    head: Result<H256, ChainError>,
    account: Option<AccountState>,
    root: H256,
)
    requires
        call_ensures(find_parent_header, (answer,), header),
        call_ensures(missing_parent, (kept,), e),
        call_ensures(latest_canonical_block_hash, (latest,), head),
        call_ensures(storage_root_of, (account,), root),
    ensures
        header is Ok <==> answer is Ok && answer->Ok_0 is Some,
        header matches Ok(h) ==> answer->Ok_0->0 == h,
        answer == Ok::<Option<BlockHeader>, String>(None) ==> header == Err::<
            BlockHeader,
            ChainError,
        >(ChainError::ParentNotFound),
        answer matches Err(why) ==> header == Err::<BlockHeader, ChainError>(
            ChainError::StoreError(why),
        ),
        kept is Ok ==> e is ParentNotFound,
        kept matches Err(why) ==> e == ChainError::StoreError(why),
        head is Ok <==> latest is Ok && latest->Ok_0 is Some,
        head matches Ok(h) ==> latest->Ok_0->0 == h,
        account matches Some(state) ==> root == state.storage_root,
        account is None ==> root == empty_trie(),
{
}

/// A block is canonical exactly where its hash is the one under its number, and has an
/// access list exactly where those have started at its time.
pub proof fn law_canonical_by_hash(
    canonical: Option<H256>,
    hash: H256,
    b: bool,
    config: ChainConfig,
    header: BlockHeader,
    records: bool,
)
    requires
        call_ensures(is_canonical, (canonical, hash), b),
        call_ensures(records_access_list, (&config, &header), records),
    ensures
        b <==> canonical is Some && canonical->0 == hash,
        records <==> started(config.amsterdam_time, header.timestamp),
{
}

/// The time from one instant to a later one.
pub open spec fn between(from: u64, to: u64) -> int {
    if to >= from {
        to - from
    } else {
        0
    }
}

/// Of an import that took time each phase is told with the time between its instants, and
/// the phase that held it up is one that took at least as long as every other: the last
/// such one. Work on the trie that was done while the block was executed does not count.
pub proof fn law_times_of_an_import(
    at: PipelineInstants,
    warmer: u64,
    times: Option<PhaseTimes>,
)
    requires
        call_ensures(time_phases, (&at, warmer), times),
    ensures
        times is Some <==> at.stored > at.start,
        times matches Some(t) ==> {
            let trie = between(at.exec_merkle_start, at.merkle_end);
            let held = match t.bottleneck {
                Phase::Validate => t.validate,
                Phase::Execute => t.execute,
                Phase::Merkle => t.merkle_drain,
                Phase::Store => t.store,
            };
            &&& t.total == between(at.start, at.stored)
            &&& t.validate == between(at.start, at.validated)
            &&& t.execute == between(at.exec_merkle_start, at.exec_end)
            &&& t.merkle_drain == between(at.exec_end, at.exec_merkle_end)
            &&& t.merkle_concurrent <= trie && t.merkle_concurrent <= t.execute && (
            t.merkle_concurrent == trie || t.merkle_concurrent == t.execute)
            &&& t.merkle_start_delay == between(at.exec_merkle_start, at.merkle_start)
            &&& t.store == between(at.exec_merkle_end, at.stored)
            &&& t.warmer_early <==> warmer <= t.execute
            &&& t.warmer_early ==> t.warmer_distance + warmer == t.execute
            &&& !t.warmer_early ==> t.warmer_distance + t.execute == warmer
            &&& held >= t.validate && held >= t.execute && held >= t.merkle_drain && held
                >= t.store
            &&& held == t.store ==> t.bottleneck is Store
            &&& held == t.merkle_drain && held > t.store ==> t.bottleneck is Merkle
            &&& held == t.execute && held > t.store && held > t.merkle_drain
                ==> t.bottleneck is Execute
        },
{
    if times is Some {
        let t = times->0;
        assert(crate::blockchain::phases::waited(t, Phase::Validate) == t.validate);
        assert(crate::blockchain::phases::waited(t, Phase::Execute) == t.execute);
        assert(crate::blockchain::phases::waited(t, Phase::Merkle) == t.merkle_drain);
        assert(crate::blockchain::phases::waited(t, Phase::Store) == t.store);
    }
}

/// A cache that was read ahead is used exactly where it was read for the same parent under
/// the same fork and no witness is collected. It is used once; for a witness it stays.
pub proof fn law_prewarmed_cache_is_of_the_same_state<C>(
    slot: Option<PrewarmedEntry<C>>,
    witness: bool,
    parent: H256,
    fork: u8,
)
    ensures
        ({
            let (left, cache) = prewarmed_use(slot, witness, parent, fork);
            &&& cache is Some <==> !witness && slot is Some && slot->0.parent_hash == parent
                && slot->0.fork == fork
            &&& cache is Some ==> cache->0 == slot->0.cache
            &&& witness ==> left == slot
            &&& !witness ==> left is None
        }),
{
}

/// Transactions run in parallel, the trie is brought up to date from the access list, and
/// slots are read ahead only where the options say so and no witness is collected, the
/// last two only where the block came with an access list. A thread reads ahead unless a
/// witness is collected, from the list where the options say so, and does nothing only
/// where transactions run in parallel by a list that is not to be read ahead. Updates are
/// streamed unless both the trie and the execution go by the list.
pub proof fn law_plan_follows_the_options(
    options: BlockchainOptions,
    with_bal: bool,
    witness: bool,
)
    ensures
        ({
            let p = plan(options, with_bal, witness);
            &&& p.parallel_exec <==> options.bal_parallel_exec_enabled && !witness
            &&& p.optimistic <==> options.bal_parallel_trie_enabled && !witness && with_bal
            &&& p.prefetch_storage <==> options.bal_prefetch_enabled && !witness && with_bal
            &&& p.warming is Absent <==> witness
            &&& p.warming is FromAccessList <==> !witness && with_bal
                && options.bal_prefetch_enabled
            &&& p.warming is Idle <==> !witness && with_bal && !options.bal_prefetch_enabled
                && options.bal_parallel_exec_enabled
            &&& p.channel <==> !(p.optimistic && p.parallel_exec)
        }),
{
}

/// What the threads came to is kept where both succeeded; an error of the trie comes
/// before one of the execution.
pub proof fn law_threads_are_joined<M, E>(
    merkle: Result<M, String>,
    execution: Result<E, ChainError>,
    r: Result<(M, E), ChainError>,
)
    requires
        call_ensures(join_results::<M, E>, (merkle, execution), r),
    ensures
        r is Ok <==> merkle is Ok && execution is Ok,
        r matches Ok(both) ==> merkle == Ok::<M, String>(both.0) && execution == Ok::<
            E,
            ChainError,
        >(both.1),
        merkle matches Err(why) ==> r == Err::<(M, E), ChainError>(ChainError::StoreError(why)),
        merkle is Ok && execution is Err ==> r == Err::<(M, E), ChainError>(execution->Err_0),
{
}

/// A witness is stored where the options ask for that and the node is in sync, and handed
/// back where the caller insists.
pub proof fn law_witness_is_planned(
    options: BlockchainOptions,
    synced: bool,
    force: bool,
    p: WitnessPlan,
    b: bool,
)
    requires
        call_ensures(WitnessPlan::new, (&options, synced, force), p),
        call_ensures(WitnessPlan::collect, (&p,), b),
    ensures
        p.store <==> options.precompute_witnesses && synced,
        p.hand_back <==> force,
        b <==> (options.precompute_witnesses && synced) || force,
{
}

/// The access list that is kept is the one that the execution produced, and the one that
/// came with the block only where it produced none.
pub proof fn law_produced_list_is_kept<B>(
    produced: Option<B>,
    input: Option<B>,
    bal: Option<B>,
)
    requires
        call_ensures(bal_to_store::<B>, (produced, input), bal),
    ensures
        produced is Some ==> bal == produced,
        produced is None ==> bal == input,
{
}

/// An import has succeeded exactly where the block was executed and stored; then its
/// access list and its witness are told, and otherwise the error.
pub proof fn law_import_is_told<B, W>(
    outcome: Result<Imported<B, W>, ChainError>,
    r: Result<(), ChainError>,
    bal: Result<Option<B>, ChainError>,
    witness: Result<W, ChainError>,
)
    requires
        call_ensures(import_result::<B, W>, (outcome,), r),
        call_ensures(imported_bal::<B, W>, (outcome,), bal),
        call_ensures(imported_witness::<B, W>, (outcome,), witness),
    ensures
        r is Ok <==> outcome is Ok && outcome->Ok_0.stored is Ok,
        bal is Ok <==> outcome is Ok && outcome->Ok_0.stored is Ok,
        witness is Ok <==> outcome is Ok && outcome->Ok_0.stored is Ok
            && outcome->Ok_0.witness is Some,
        bal matches Ok(b) ==> b == outcome->Ok_0.produced_bal,
        witness matches Ok(w) ==> outcome->Ok_0.witness == Some(w),
        outcome matches Err(e) ==> r == Err::<(), ChainError>(e) && bal == Err::<
            Option<B>,
            ChainError,
        >(e) && witness == Err::<W, ChainError>(e),
        outcome is Ok && outcome->Ok_0.stored is Err ==> r == Err::<(), ChainError>(
            outcome->Ok_0.stored->Err_0,
        ) && bal == Err::<Option<B>, ChainError>(outcome->Ok_0.stored->Err_0) && witness == Err::<
            W,
            ChainError,
        >(outcome->Ok_0.stored->Err_0),
{
}

/// The steps of an import follow each other. A block whose parent is known is executed,
/// one whose parent is not is kept and refused for that. A witness is made exactly where
/// one is to be stored or handed back and the updates of all accounts were gathered. It is
/// stored where that was planned, then the access list where there is one, and then the
/// block. Every failure on the way ends the import with it.
pub proof fn law_steps_of_an_import(import: Import, event: ImportEvent)
    ensures
        ({
            let next = import.after(event);
            let last = if import.with_bal {
                ImportPhase::StoreAccessList
            } else {
                ImportPhase::StoreBlock
            };
            &&& next.plan == import.plan
            &&& match (import.phase, event) {
                (ImportPhase::FindParent, ImportEvent::Parent(found)) => {
                    &&& found ==> next.phase is Execute
                    &&& !found ==> next.phase is KeepPending
                },
                (ImportPhase::KeepPending, ImportEvent::PendingKept(r)) => {
                    &&& r is Ok ==> next.phase == ImportPhase::Failed(ChainError::ParentNotFound)
                    &&& r matches Err(why) ==> next.phase == ImportPhase::Failed(
                        ChainError::StoreError(why),
                    )
                },
                (ImportPhase::Execute, ImportEvent::Executed(Ok(e))) => {
                    let wanted = (import.plan.store || import.plan.hand_back) && e.with_updates;
                    &&& next.with_bal == e.with_bal
                    &&& wanted ==> next.phase is MakeWitness
                    &&& !wanted && e.with_bal ==> next.phase is StoreAccessList
                    &&& !wanted && !e.with_bal ==> next.phase is StoreBlock
                },
                (ImportPhase::Execute, ImportEvent::Executed(Err(e))) => next.phase
                    == ImportPhase::Failed(e),
                (ImportPhase::MakeWitness, ImportEvent::WitnessMade(Ok(()))) => {
                    &&& import.plan.store ==> next.phase is StoreWitness
                    &&& !import.plan.store ==> next.phase == last
                    &&& next.hands_back == import.plan.hand_back
                    &&& next.with_bal == import.with_bal
                },
                (ImportPhase::MakeWitness, ImportEvent::WitnessMade(Err(e))) => next.phase
                    == ImportPhase::Failed(e),
                (ImportPhase::StoreWitness, ImportEvent::WitnessStored(Ok(()))) => next.phase
                    == last && next.hands_back == import.hands_back,
                (ImportPhase::StoreWitness, ImportEvent::WitnessStored(Err(why))) => next.phase
                    == ImportPhase::Failed(ChainError::StoreError(why)),
                (ImportPhase::StoreAccessList, ImportEvent::AccessListStored) => next.phase
                    is StoreBlock && next.hands_back == import.hands_back,
                (ImportPhase::StoreBlock, ImportEvent::BlockStored(r)) => next.phase
                    == ImportPhase::Stored(r) && next.hands_back == import.hands_back,
                _ => next == import,
            }
        }),
{
}

} // verus!
