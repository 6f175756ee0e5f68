//! The chain: importing blocks, keeping the state trie and admitting transactions.

pub mod admission;
pub mod assembly;
pub mod bal_merkle;
pub mod batch;
pub mod checks;
pub mod merkle_worker;
pub mod phases;
pub mod pipeline;
pub mod pool;
pub mod routing;
pub mod sorting;
pub mod trie_node;
pub mod witness;

use crate::blockchain::checks::BlockchainType;
use crate::blockchain::pipeline::PrewarmedEntry;
use crate::payload::slots::PayloadSlots;
use vstd::prelude::*;

verus! {

/// How many transactions wait at most, unless configured.
pub const MAX_MEMPOOL_SIZE_DEFAULT: usize = 10000;
/// How many transactions with a nonce gap a sender may have waiting, unless configured.
pub const DEFAULT_MAX_QUEUED_TXS_PER_ACCOUNT: usize = 64;
/// How full, in percent, the mempool is when transactions with a nonce gap are turned
/// away, unless configured.
pub const DEFAULT_GAP_ADMIT_OCCUPANCY_THRESHOLD: u8 = 90;

/// How a chain behaves.
#[derive(Copy, Clone, PartialEq, Eq, Structural, Debug)]
pub struct BlockchainOptions {
    /// How many transactions wait at most.
    pub max_mempool_size: usize,
    /// Whether to report how fast blocks are imported.
    pub perf_logs_enabled: bool,
    pub kind: BlockchainType,
    /// How many blobs a block that is built here holds at most. `None` for what the
    /// protocol allows.
    pub max_blobs_per_block: Option<u32>,
    /// Whether to make and keep a witness of every imported block.
    pub precompute_witnesses: bool,
    /// Whether results of precompiled contracts are shared between threads.
    pub precompile_cache_enabled: bool,
    /// How many transactions with a nonce gap a sender may have waiting.
    pub max_queued_txs_per_account: usize,
    /// Whether an access list lets transactions run in parallel.
    pub bal_parallel_exec_enabled: bool,
    /// Whether what an access list names is read ahead.
    pub bal_prefetch_enabled: bool,
    /// Whether the state trie is brought up to date from an access list.
    pub bal_parallel_trie_enabled: bool,
    /// How full, in percent, the mempool is when transactions with a nonce gap are turned
    /// away.
    pub gap_admit_occupancy_threshold: u8,
}

impl Default for BlockchainOptions {
    fn default() -> (options: BlockchainOptions)
        ensures
            options == (BlockchainOptions {
                max_mempool_size: MAX_MEMPOOL_SIZE_DEFAULT,
                perf_logs_enabled: false,
                kind: BlockchainType::L1,
                max_blobs_per_block: None,
                precompute_witnesses: false,
                precompile_cache_enabled: true,
                max_queued_txs_per_account: DEFAULT_MAX_QUEUED_TXS_PER_ACCOUNT,
                bal_parallel_exec_enabled: true,
                bal_prefetch_enabled: true,
                bal_parallel_trie_enabled: true,
                gap_admit_occupancy_threshold: DEFAULT_GAP_ADMIT_OCCUPANCY_THRESHOLD,
            }),
    {
        BlockchainOptions {
            max_mempool_size: MAX_MEMPOOL_SIZE_DEFAULT,
            perf_logs_enabled: false,
            kind: BlockchainType::L1,
            max_blobs_per_block: None,
            precompute_witnesses: false,
            precompile_cache_enabled: true,
            max_queued_txs_per_account: DEFAULT_MAX_QUEUED_TXS_PER_ACCOUNT,
            bal_parallel_exec_enabled: true,
            bal_prefetch_enabled: true,
            bal_parallel_trie_enabled: true,
            gap_admit_occupancy_threshold: DEFAULT_GAP_ADMIT_OCCUPANCY_THRESHOLD,
        }
    }
}

/// A chain: `P` is a payload that is being built or was built, `C` a cache of state that
/// was read ahead.
pub struct Blockchain<P, C> {
    pub options: BlockchainOptions,
    /// The node has caught up with the chain.
    pub synced: bool,
    /// The payloads that were built last.
    pub payloads: PayloadSlots<P>,
    pub prewarmed: Option<PrewarmedEntry<C>>,
}

impl<P, C> Blockchain<P, C> {
    /// A chain that has not caught up and has built nothing yet.
    pub fn new(options: BlockchainOptions) -> (chain: Blockchain<P, C>)
        ensures
            chain.options == options,
            !chain.synced,
            chain.payloads.slots@ == Seq::<(u64, P)>::empty(),
            chain.prewarmed is None,
    {
        Blockchain { options, synced: false, payloads: PayloadSlots::new(), prewarmed: None }
    }

    /// The node has caught up with the chain.
    pub fn set_synced(&mut self)
        ensures
            *final(self) == (Blockchain { synced: true, ..*old(self) }),
    {
        self.synced = true;
    }

    /// The node has fallen behind the chain.
    pub fn set_not_synced(&mut self)
        ensures
            *final(self) == (Blockchain { synced: false, ..*old(self) }),
    {
        self.synced = false;
    }

    /// Whether the node has caught up with the chain. Transactions of peers are taken only
    /// then.
    pub fn is_synced(&self) -> (b: bool)
        ensures
            b == self.synced,
    {
        self.synced
    }
}

} // verus!
