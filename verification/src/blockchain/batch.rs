//! Importing many blocks at once: only the state after the last one is stored.

use crate::block::BlockHeader;
use crate::blockchain::checks::validate_state_root;
use crate::chain_error::{ChainError, EvmError};
use crate::table::Table;
use crate::word::H256;
use vstd::prelude::*;
use vstd::string::*;

verus! {

/// Which block of a batch failed, and which one before it was the last to pass.
#[derive(Copy, Clone, PartialEq, Eq, Structural, Debug)]
pub struct BatchBlockProcessingFailure {
    pub last_valid_hash: H256,
    pub failed_block_hash: H256,
}

/// A block is the one at which so many percent of a batch are done.
pub open spec fn at_mark(batch_size: u32, current_block: u32, mark: u32) -> bool {
    (batch_size * mark) / 100 == current_block
}

/// The marks that a block reaches.
pub open spec fn marks_reached(batch_size: u32, current_block: u32) -> Seq<u32> {
    if batch_size > 10 {
        seq![20u32, 40u32, 60u32, 80u32].filter(
            |mark: u32| at_mark(batch_size, current_block, mark),
        )
    } else {
        Seq::empty()
    }
}

/// The percentages of a batch that are done with a block and worth reporting. A small
/// batch is not reported on.
pub fn log_batch_progress(batch_size: u32, current_block: u32) -> (marks: Vec<u32>)
    requires
        batch_size > 10 ==> batch_size * 80 <= u32::MAX,
    ensures
        marks@ == marks_reached(batch_size, current_block),
{
    let mut marks: Vec<u32> = Vec::new();
    if batch_size > 10 {
        let percent_marks: [u32; 4] = [20, 40, 60, 80];
        let ghost all = seq![20u32, 40u32, 60u32, 80u32];
        let ghost reached = |mark: u32| at_mark(batch_size, current_block, mark);
        let mut i: usize = 0;
        proof {
            assert(percent_marks@ =~= all);
            reveal(Seq::filter);
            assert(all.take(0) =~= Seq::empty());
        }
        while i < 4
            invariant
                i <= 4,
                batch_size > 10,
                batch_size * 80 <= u32::MAX,
                all == seq![20u32, 40u32, 60u32, 80u32],
                percent_marks@ == all,
                reached == (|mark: u32| at_mark(batch_size, current_block, mark)),
                marks@ == all.take(i as int).filter(reached),
            decreases 4 - i,
        {
            let mark: u32 = percent_marks[i];
            proof {
                assert(mark == all[i as int]);
                assert(0 <= batch_size * mark <= u32::MAX) by (nonlinear_arith)
                    requires
                        batch_size * 80 <= u32::MAX,
                        0 <= mark <= 80,
                        0 <= batch_size,
                ;
                reveal(Seq::filter);
                assert(all.take(i + 1).drop_last() =~= all.take(i as int));
                assert(all.take(i + 1).last() == mark);
            }
            if (batch_size * mark) / 100 == current_block {
                assert(reached(mark));
                marks.push(mark);
            }
            i += 1;
        }
        assert(all.take(4) =~= all);
    }
    marks
}

/// Hashes of blocks by their numbers, gathered while walking back from a batch.
pub struct HashWalk {
    pub cache: Table<u64, H256>,
    /// The hash and number of the block that is gathered next.
    pub hash: H256,
    pub number: u64,
    /// The walk ends at this number.
    pub lookback: u64,
    /// A header could not be had.
    pub stopped: bool,
}

/// What a walk holds.
#[verifier::ext_equal]
pub struct HashWalkView {
    pub cache: Map<u64, H256>,
    pub hash: H256,
    pub number: u64,
    pub lookback: u64,
    pub stopped: bool,
}

impl View for HashWalk {
    type V = HashWalkView;

    open spec fn view(&self) -> HashWalkView {
        HashWalkView {
            cache: self.cache@,
            hash: self.hash,
            number: self.number,
            lookback: self.lookback,
            stopped: self.stopped,
        }
    }
}

/// The hashes of blocks by their numbers. Of two with the same number the last counts.
pub open spec fn numbered(blocks: Seq<(u64, H256)>) -> Map<u64, H256>
    decreases blocks.len(),
{
    if blocks.len() == 0 {
        Map::empty()
    } else {
        numbered(blocks.drop_last()).insert(blocks.last().0, blocks.last().1)
    }
}

/// A map with an entry where there was none under its key.
pub open spec fn or_inserted(cache: Map<u64, H256>, number: u64, hash: H256) -> Map<u64, H256> {
    if cache.contains_key(number) {
        cache
    } else {
        cache.insert(number, hash)
    }
}

/// The difference of two numbers, and zero where it would be negative.
pub open spec fn minus(a: u64, b: u64) -> u64 {
    if a >= b {
        (a - b) as u64
    } else {
        0
    }
}

/// How many blocks back a program may ask for a hash.
pub const BLOCK_HASH_REACH: u64 = 256;

impl HashWalk {
    /// Sets out at the parent of the first block of a batch.
    pub fn start(blocks: &Vec<(u64, H256)>, parent: &BlockHeader, parent_own_hash: H256) -> (w:
        HashWalk)
        requires
            blocks@.len() > 0,
        ensures
            w@ == (HashWalkView {
                cache: or_inserted(numbered(blocks@), parent.number, parent_own_hash),
                hash: parent.parent_hash,
                number: minus(parent.number, 1),
                lookback: minus(blocks@[0].0, BLOCK_HASH_REACH),
                stopped: false,
            }),
    {
        let mut cache: Table<u64, H256> = Table::new();
        let mut i: usize = 0;
        proof {
            assert(blocks@.take(0) =~= Seq::empty());
        }
        while i < blocks.len()
            invariant
                i <= blocks@.len(),
                cache@ == numbered(blocks@.take(i as int)),
            decreases blocks@.len() - i,
        {
            let (number, hash) = blocks[i];
            cache.insert(number, hash);
            i += 1;
            proof {
                assert(blocks@.take(i as int).drop_last() =~= blocks@.take(i - 1));
            }
        }
        assert(blocks@.take(i as int) =~= blocks@);
        if !cache.contains_key(parent.number) {
            cache.insert(parent.number, parent_own_hash);
        }
        let number: u64 = if parent.number >= 1 {
            parent.number - 1
        } else {
            0
        };
        let lookback: u64 = if blocks[0].0 >= BLOCK_HASH_REACH {
            blocks[0].0 - BLOCK_HASH_REACH
        } else {
            0
        };
        HashWalk { cache, hash: parent.parent_hash, number, lookback, stopped: false }
    }

    /// Gathers the block that was arrived at. The hash to ask the header of, or `None`
    /// where the walk has ended.
    pub fn next(&mut self) -> (ask: Option<H256>)
        ensures
            if !old(self).stopped && old(self).number > old(self).lookback {
                &&& ask == Some(old(self).hash)
                &&& final(self)@ == (HashWalkView {
                    cache: or_inserted(old(self).cache@, old(self).number, old(self).hash),
                    ..old(self)@
                })
            } else {
                &&& ask is None
                &&& *final(self) == *old(self)
            },
    {
        if self.stopped || self.number <= self.lookback {
            return None;
        }
        if !self.cache.contains_key(self.number) {
            self.cache.insert(self.number, self.hash);
        }
        Some(self.hash)
    }

    /// Takes the header's parent hash in, or that there is no such header.
    pub fn answered(&mut self, parent_hash: Option<H256>)
        ensures
            final(self)@ == match parent_hash {
                Some(hash) => HashWalkView { hash, number: minus(old(self).number, 1), ..old(self)@ },
                None => HashWalkView { stopped: true, ..old(self)@ },
            },
    {
        match parent_hash {
            Some(hash) => {
                self.hash = hash;
                self.number = if self.number >= 1 {
                    self.number - 1
                } else {
                    0
                };
            },
            None => {
                self.stopped = true;
            },
        }
    }
}

/// A round of the walk: the block that was arrived at is gathered, and the header is
/// asked for.
pub open spec fn walked(w: HashWalkView, parent_hash: Option<H256>) -> HashWalkView {
    let gathered = HashWalkView { cache: or_inserted(w.cache, w.number, w.hash), ..w };
    match parent_hash {
        Some(hash) => HashWalkView { hash, number: minus(w.number, 1), ..gathered },
        None => HashWalkView { stopped: true, ..gathered },
    }
}

/// A round of the walk changes no hash that was known, and brings the walk nearer to its
/// end: it gathers the hashes of at most the blocks between its start and its lookback.
pub proof fn law_walk_gathers_each_number_once(w: HashWalkView, parent_hash: Option<H256>)
    requires
        !w.stopped,
        w.number > w.lookback,
    ensures
        forall|n: u64| #[trigger]
            w.cache.contains_key(n) ==> walked(w, parent_hash).cache.contains_key(n) && walked(
                w,
                parent_hash,
            ).cache[n] == w.cache[n],
        forall|n: u64| #[trigger]
            walked(w, parent_hash).cache.contains_key(n) ==> w.cache.contains_key(n) || n
                == w.number,
        walked(w, parent_hash).stopped || walked(w, parent_hash).number == w.number - 1,
{
}

/// The hash of the block before one of a batch, and zero before the first.
pub open spec fn last_valid(hashes: Seq<H256>, at: int) -> H256 {
    if at <= 0 {
        H256 { hi: 0, lo: 0 }
    } else {
        hashes[at - 1]
    }
}

/// A batch of blocks that is being executed.
pub struct BatchRun {
    /// The hashes of the blocks.
    pub hashes: Vec<H256>,
    /// How many blocks have been executed.
    pub at: usize,
    pub last_valid_hash: H256,
    pub total_gas_used: u64,
    pub transactions_count: usize,
}

/// What is to be done next with a batch.
#[derive(Copy, Clone, PartialEq, Eq, Structural, Debug)]
pub enum BatchStep {
    /// The header of the first block's parent is looked up, and the block executed.
    ExecuteFirst,
    /// The block is executed, its parent being the one before it.
    Execute { at: usize },
    /// All blocks have been executed.
    Finished,
}

/// Why a batch was given up: with the block that failed, where one did.
pub type BatchError = (ChainError, Option<BatchBlockProcessingFailure>);

impl BatchRun {
    pub open spec fn wf(self) -> bool {
        &&& self.at <= self.hashes@.len()
        &&& self.last_valid_hash == last_valid(self.hashes@, self.at as int)
    }

    /// A batch of which nothing has been executed. An empty one is an error.
    pub fn start(hashes: Vec<H256>) -> (r: Result<BatchRun, BatchError>)
        ensures
            if hashes@.len() > 0 {
                r matches Ok(run) && run.wf() && run.hashes == hashes && run.at == 0
                    && run.total_gas_used == 0 && run.transactions_count == 0
            } else {
                r matches Err((ChainError::Custom(why), None)) && why@
                    == "First block not found"@
            },
    {
        if hashes.len() == 0 {
            return Err((ChainError::Custom("First block not found".to_owned()), None));
        }
        Ok(
            BatchRun {
                hashes,
                at: 0,
                last_valid_hash: H256 { hi: 0, lo: 0 },
                total_gas_used: 0,
                transactions_count: 0,
            },
        )
    }

    /// What is to be done next, unless the import was cancelled.
    pub fn next(&self, cancelled: bool) -> (r: Result<BatchStep, BatchError>)
        ensures
            if self.at >= self.hashes@.len() {
                r == Ok::<BatchStep, BatchError>(BatchStep::Finished)
            } else if cancelled {
                r matches Err((ChainError::Custom(why), None)) && why@ == "shutdown signal"@
            } else if self.at == 0 {
                r == Ok::<BatchStep, BatchError>(BatchStep::ExecuteFirst)
            } else {
                r == Ok::<BatchStep, BatchError>(BatchStep::Execute { at: self.at })
            },
    {
        if self.at >= self.hashes.len() {
            Ok(BatchStep::Finished)
        } else if cancelled {
            Err((ChainError::Custom("shutdown signal".to_owned()), None))
        } else if self.at == 0 {
            Ok(BatchStep::ExecuteFirst)
        } else {
            Ok(BatchStep::Execute { at: self.at })
        }
    }

    /// Takes the outcome of the next block in: the gas it used and the transactions it
    /// holds, or why it failed.
    pub fn executed(&mut self, outcome: Result<(), ChainError>, gas_used: u64, transactions: usize)
        -> (r: Result<(), BatchError>)
        requires
            old(self).wf(),
            old(self).at < old(self).hashes@.len(),
            outcome is Ok ==> old(self).total_gas_used + gas_used <= u64::MAX
                && old(self).transactions_count + transactions <= usize::MAX,
        ensures
            final(self).wf(),
            match outcome {
                Ok(()) => {
                    &&& r is Ok
                    &&& final(self).hashes == old(self).hashes
                    &&& final(self).at == old(self).at + 1
                    &&& final(self).total_gas_used == old(self).total_gas_used + gas_used
                    &&& final(self).transactions_count == old(self).transactions_count
                        + transactions
                },
                Err(e) => {
                    &&& *final(self) == *old(self)
                    &&& r == Err::<(), BatchError>(
                        (
                            e,
                            Some(
                                BatchBlockProcessingFailure {
                                    failed_block_hash: old(self).hashes@[old(self).at as int],
                                    last_valid_hash: last_valid(
                                        old(self).hashes@,
                                        old(self).at as int,
                                    ),
                                },
                            ),
                        ),
                    )
                },
            },
    {
        match outcome {
            Ok(()) => {
                self.last_valid_hash = self.hashes[self.at];
                let count: usize = self.hashes.len();
                assert(self.at < count);
                self.at = self.at + 1;
                self.total_gas_used = self.total_gas_used + gas_used;
                self.transactions_count = self.transactions_count + transactions;
                Ok(())
            },
            Err(e) => Err(
                (
                    e,
                    Some(
                        BatchBlockProcessingFailure {
                            failed_block_hash: self.hashes[self.at],
                            last_valid_hash: self.last_valid_hash,
                        },
                    ),
                ),
            ),
        }
    }
}

/// The state that a batch led to, of which `U` are the updates: the account updates, then
/// the trie over the parent's state, then its root against the header of the last block.
pub fn batch_state<U>(
    transitions: Result<(), EvmError>,
    applied: Result<Option<(H256, U)>, String>,
    last_header: &BlockHeader,
) -> (r: Result<U, BatchError>)
    ensures
        r == match (transitions, applied) {
            (Err(e), _) => Err::<U, BatchError>((ChainError::EvmError(e), None)),
            (Ok(()), Err(why)) => Err((ChainError::StoreError(why), None)),
            (Ok(()), Ok(None)) => Err((ChainError::ParentStateNotFound, None)),
            (Ok(()), Ok(Some((root, updates)))) => if root == last_header.state_root {
                Ok(updates)
            } else {
                Err(
                    (
                        ChainError::InvalidBlock(
                            crate::chain_error::InvalidBlockError::StateRootMismatch,
                        ),
                        None,
                    ),
                )
            },
        },
{
    match transitions {
        Err(e) => Err((ChainError::EvmError(e), None)),
        Ok(()) => match applied {
            Err(why) => Err((ChainError::StoreError(why), None)),
            Ok(None) => Err((ChainError::ParentStateNotFound, None)),
            Ok(Some((root, updates))) => match validate_state_root(last_header, root) {
                Ok(()) => Ok(updates),
                Err(e) => Err((e, None)),
            },
        },
    }
}

/// The positions among the first `n` of the access lists that match their headers.
pub open spec fn matching(matches: Seq<Option<bool>>, n: int) -> Seq<usize>
    decreases n,
{
    if n <= 0 {
        Seq::empty()
    } else if matches[n - 1] == Some(true) {
        matching(matches, n - 1).push((n - 1) as usize)
    } else {
        matching(matches, n - 1)
    }
}

/// The positions of the access lists to keep: of each block it is given whether a list
/// came with it, and whether it hashes to what the header names.
pub fn bals_to_store(matches_header: &Vec<Option<bool>>) -> (kept: Vec<usize>)
    ensures
        kept@ == matching(matches_header@, matches_header@.len() as int),
{
    let mut kept: Vec<usize> = Vec::new();
    let mut i: usize = 0;
    while i < matches_header.len()
        invariant
            i <= matches_header@.len(),
            kept@ == matching(matches_header@, i as int),
        decreases matches_header@.len() - i,
    {
        match matches_header[i] {
            Some(true) => kept.push(i),
            _ => {},
        }
        i += 1;
    }
    kept
}

} // verus!
