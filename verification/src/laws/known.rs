//! Well-known hashes and limits, what faults say, and when the state of a worker is complete.

use crate::account::{empty_keccak, empty_trie};
use crate::blockchain::assembly::RLP_NULL;
use crate::blockchain::merkle_worker::{WorkerView, ALL_WORKERS, WORKERS};
use crate::blockchain::pool::PeerError;
use crate::blockchain::BlockchainOptions;
use crate::chain_error::{ChainError, EvmError, InvalidBlockError};
use crate::error::InternalError;
use crate::hex::short_form;
use crate::payload::create::{no_ommers, no_requests};
use crate::payload::fill::{MAX_RLP_BLOCK_SIZE, TX_MAX_GAS_LIMIT_AMSTERDAM};
use crate::word::H256;
use vstd::prelude::*;

verus! {

/// The hash of no bytes, the root of an empty trie, the hash of no ommers and the hash of no
/// requests, as the numbers that they spell.
pub proof fn law_well_known_hashes()
    ensures
        empty_keccak()@
            == 0xc5d2460186f7233c927e7db2dcc703c0e500b653ca82273b7bfad8045d85a470int,
        empty_trie()@ == 0x56e81f171bcc55a6ff8345e692c0f86e5b48e01b996cadc001622fb5e363b421int,
        no_ommers()@ == 0x1dcc4de8dec75d7aab85b567b6ccd41ad312451b948a7413f0a142fd40d49347int,
        no_requests()@ == 0xe3b0c44298fc1c149afbf4c8996fb92427ae41e4649b934ca495991b7852b855int,
{
}

/// A block takes eight megabytes on the wire at most, no more than 2^24 units of gas are set
/// aside for a transaction, no node is written as 80, and there are sixteen workers.
pub proof fn law_well_known_limits()
    ensures
        MAX_RLP_BLOCK_SIZE == 8 * 1024 * 1024,
        TX_MAX_GAS_LIMIT_AMSTERDAM == 0x100_0000,
        RLP_NULL == 0x80,
        WORKERS == 16,
        ALL_WORKERS == 0x1_0000 - 1,
{
}

/// A chain that is not configured is a base layer that uses access lists for all that they
/// are good for, keeps ten thousand transactions, 64 with a gap of each sender and none once
/// it is nine tenths full, and makes no witnesses.
pub proof fn law_default_options(options: BlockchainOptions)
    requires
        call_ensures(<BlockchainOptions as Default>::default, (), options),
    ensures
        options.max_mempool_size == 10000,
        options.max_queued_txs_per_account == 64,
        options.gap_admit_occupancy_threshold == 90,
        options.kind is L1,
        options.max_blobs_per_block is None,
        !options.precompute_witnesses,
        !options.perf_logs_enabled,
        options.precompile_cache_enabled,
        options.bal_parallel_exec_enabled,
        options.bal_prefetch_enabled,
        options.bal_parallel_trie_enabled,
{
}

/// The state of a worker is complete exactly where every worker has said that it sends no
/// more slots, its own storage tries are sent and no account waits. Then every shard that
/// was to come has come, and no storage root is being computed.
pub proof fn law_complete_worker_waits_for_nothing(worker: WorkerView, prefix: H256)
    requires
        worker.wf(),
    ensures
        worker.ready() <==> worker.pending == 0 && !worker.collecting && worker.routed,
        worker.ready() && worker.expected.contains_key(prefix) ==> worker.received.contains_key(
            prefix,
        ) && worker.received[prefix] == worker.expected[prefix],
        worker.ready() ==> worker.resolving is None && !worker.asked,
        worker.sends() <==> !worker.routed || worker.collecting,
{
    let waiting = worker.waiting();
    if worker.ready() {
        assert(waiting.subset_of(worker.expected.dom()));
        vstd::set_lib::lemma_len_subset(waiting, worker.expected.dom());
        assert(waiting.len() == 0);
        if waiting.contains(prefix) {
            assert(waiting.len() > 0) by {
                assert(waiting.remove(prefix).len() + 1 == waiting.len());
            }
        }
    }
}

/// A fault is told in words; what the store says, and what is told in words already, is told
/// as it is.
pub proof fn law_faults_in_words(e: InternalError, text: String)
    requires
        call_ensures(InternalError::to_text, (&e,), text),
    ensures
        e is AccountNotFound ==> text@ == "Account not found"@,
        e is Overflow ==> text@ == "Arithmetic operation overflowed"@,
        e is Underflow ==> text@ == "Arithmetic operation underflowed"@,
        e matches InternalError::Database(cause) ==> text@ == cause.message@,
        e matches InternalError::Custom(why) ==> text@ == why@,
{
}

/// A refused block is told why, an error of its execution or of the store with what that
/// said.
pub proof fn law_errors_in_words(e: ChainError, text: String)
    requires
        call_ensures(ChainError::to_text, (&e,), text),
    ensures
        e matches ChainError::StoreError(why) ==> text@ == "DB error: "@ + why@,
        e matches ChainError::Custom(why) ==> text@ == why@,
        e matches ChainError::EvmError(EvmError::Custom(why)) ==> text@ == "EVM error: "@ + why@,
        e matches ChainError::WitnessGeneration(why) ==> text@ == "Witness Generation Error: "@
            + why@,
        e is ParentNotFound ==> text@ == "Parent block not found"@,
        e is ParentStateNotFound ==> text@ == "Parent state not found"@,
        e is UnknownPayload ==> text@ == "Unknown Payload"@,
        e matches ChainError::InvalidBlock(InvalidBlockError::InvalidTransaction(why)) ==> text@
            == "Invalid Block: "@ + ("Invalid Transaction: "@ + why@),
        e matches ChainError::InvalidBlock(InvalidBlockError::InvalidBody(why)) ==> text@
            == "Invalid Block: "@ + ("Invalid Body: "@ + why@),
{
}

/// A peer that asks in vain is told why, with the hash that it asked for.
pub proof fn law_answers_to_peers_in_words(e: PeerError, text: String)
    requires
        call_ensures(PeerError::to_text, (&e,), text),
    ensures
        e matches PeerError::NotFound(hash) ==> text@ == "Hash "@ + short_form(hash.bytes())
            + " not found in the mempool"@,
        e matches PeerError::MissingBundle(hash) ==> text@
            == "Blob transaction present without its bundle: hash "@ + short_form(hash.bytes()),
        e is PrivilegedUnsupported ==> text@
            == "Privileged Transactions are not supported in P2P"@,
{
}

} // verus!
