//! What a block is held to before and after it is executed.

use crate::account::{empty_trie, empty_trie_hash, AccountState};
use crate::block::{Block, BlockHeader};
use crate::chain_error::{ChainError, InvalidBlockError};
use crate::config::ChainConfig;
use crate::transaction::Transaction;
use crate::word::H256;
use vstd::prelude::*;
use vstd::string::*;

verus! {

/// Whether a chain is a base layer or a rollup.
#[derive(Copy, Clone, PartialEq, Eq, Structural, Debug)]
pub enum BlockchainType {
    L1,
    L2,
}

/// The state that a block led to is the one that its header names.
pub fn validate_state_root(block_header: &BlockHeader, new_state_root: H256) -> (r: Result<
    (),
    ChainError,
>)
    ensures
        r == if new_state_root == block_header.state_root {
            Ok::<(), ChainError>(())
        } else {
            Err(ChainError::InvalidBlock(InvalidBlockError::StateRootMismatch))
        },
{
    if new_state_root == block_header.state_root {
        Ok(())
    } else {
        Err(ChainError::InvalidBlock(InvalidBlockError::StateRootMismatch))
    }
}

/// The first transaction that only a rollup knows stands at `at`.
pub open spec fn first_l2_only(transactions: Seq<Transaction>, at: int) -> bool {
    &&& 0 <= at < transactions.len()
    &&& transactions[at].tx_type.l2_only()
    &&& forall|i: int| 0 <= i < at ==> !(#[trigger] transactions[i]).tx_type.l2_only()
}

/// A block of a base layer holds no transaction that only a rollup knows.
pub fn validate_l1_transaction_types(kind: BlockchainType, block: &Block) -> (r: Result<
    (),
    ChainError,
>)
    ensures
        kind is L2 ==> r is Ok,
        kind is L1 ==> (r is Ok <==> forall|i: int|
            0 <= i < block.body.transactions@.len() ==> !(
            #[trigger] block.body.transactions@[i]).tx_type.l2_only()),
        r matches Err(e) ==> exists|at: int|
            {
                &&& #[trigger] first_l2_only(block.body.transactions@, at)
                &&& e == ChainError::InvalidBlock(
                    InvalidBlockError::UnsupportedTransactionType(
                        block.body.transactions@[at].tx_type.wire(),
                    ),
                )
            },
{
    match kind {
        BlockchainType::L2 => return Ok(()),
        BlockchainType::L1 => {},
    }
    let txs = &block.body.transactions;
    let mut i: usize = 0;
    while i < txs.len()
        invariant
            i <= txs@.len(),
            txs@ == block.body.transactions@,
            kind is L1,
            forall|j: int| 0 <= j < i ==> !(#[trigger] txs@[j]).tx_type.l2_only(),
        decreases txs@.len() - i,
    {
        if txs[i].tx_type.is_l2_only() {
            assert(first_l2_only(block.body.transactions@, i as int));
            return Err(
                ChainError::InvalidBlock(
                    InvalidBlockError::UnsupportedTransactionType(txs[i].tx_type.wire_byte()),
                ),
            );
        }
        i += 1;
    }
    Ok(())
}

/// The header of the parent of a block, `answer` being what the store has under the
/// parent's hash.
pub fn find_parent_header(answer: Result<Option<BlockHeader>, String>) -> (r: Result<
    BlockHeader,
    ChainError,
>)
    ensures
        r == match answer {
            Ok(Some(header)) => Ok::<BlockHeader, ChainError>(header),
            Ok(None) => Err(ChainError::ParentNotFound),
            Err(why) => Err(ChainError::StoreError(why)),
        },
{
    match answer {
        Ok(Some(header)) => Ok(header),
        Ok(None) => Err(ChainError::ParentNotFound),
        Err(why) => Err(ChainError::StoreError(why)),
    }
}

/// What a block whose parent cannot be had is answered, `stored` telling whether it could
/// be kept as pending.
pub fn missing_parent(stored: Result<(), String>) -> (e: ChainError)
    ensures
        e == match stored {
            Ok(()) => ChainError::ParentNotFound,
            Err(why) => ChainError::StoreError(why),
        },
{
    match stored {
        Ok(()) => ChainError::ParentNotFound,
        Err(why) => ChainError::StoreError(why),
    }
}

/// The hash of the head of the canonical chain, `latest` being the hash of the header
/// that the store has under the latest number.
pub fn latest_canonical_block_hash(latest: Result<Option<H256>, String>) -> (r: Result<
    H256,
    ChainError,
>)
    ensures
        match latest {
            Ok(Some(hash)) => r == Ok::<H256, ChainError>(hash),
            Ok(None) => r matches Err(ChainError::StoreError(why)) && why@
                == "Could not find latest valid hash"@,
            Err(e) => r == Err::<H256, ChainError>(ChainError::StoreError(e)),
        },
{
    match latest {
        Ok(Some(hash)) => Ok(hash),
        Ok(None) => Err(ChainError::StoreError("Could not find latest valid hash".to_owned())),
        Err(e) => Err(ChainError::StoreError(e)),
    }
}

/// Whether a block is on the canonical chain, `canonical` being the hash that the store
/// has under its number.
pub fn is_canonical(canonical: Option<H256>, block_hash: H256) -> (b: bool)
    ensures
        b == (canonical == Some(block_hash)),
{
    match canonical {
        Some(hash) => hash == block_hash,
        None => false,
    }
}

/// The storage root to open, `account` being what the state trie holds.
pub fn storage_root_of(account: Option<AccountState>) -> (root: H256)
    ensures
        root == match account {
            Some(state) => state.storage_root,
            None => empty_trie(),
        },
{
    match account {
        Some(state) => state.storage_root,
        None => empty_trie_hash(),
    }
}

/// What the checks of a block before its execution found.
pub struct BlockChecks {
    /// The header against its parent.
    pub pre_execution: Result<(), InvalidBlockError>,
    /// The body against the header, in words. `None` where it is not checked.
    pub body: Option<Result<(), String>>,
}

/// What a block whose checks came out so is answered.
pub open spec fn admitted_block(
    checks: BlockChecks,
    types: Result<(), ChainError>,
) -> Result<(), ChainError> {
    match (checks.pre_execution, types, checks.body) {
        (Err(e), _, _) => Err(ChainError::InvalidBlock(e)),
        (Ok(()), Err(e), _) => Err(e),
        (Ok(()), Ok(()), Some(Err(why))) => Err(
            ChainError::InvalidBlock(InvalidBlockError::InvalidBody(why)),
        ),
        _ => Ok(()),
    }
}

/// Whether a block may be executed: the first check that failed decides.
pub fn validate_before_execution(kind: BlockchainType, block: &Block, checks: BlockChecks) -> (r:
    Result<(), ChainError>)
    ensures
        exists|types: Result<(), ChainError>|
            #[trigger] call_ensures(validate_l1_transaction_types, (kind, block), types) && r
                == admitted_block(checks, types),
{
    let types = validate_l1_transaction_types(kind, block);
    let ghost found = types;
    assert(call_ensures(validate_l1_transaction_types, (kind, block), found));
    match checks.pre_execution {
        Err(e) => Err(ChainError::InvalidBlock(e)),
        Ok(()) => {
            match types {
                Err(e) => Err(e),
                Ok(()) => {
                    match checks.body {
                        Some(Err(why)) => Err(
                            ChainError::InvalidBlock(InvalidBlockError::InvalidBody(why)),
                        ),
                        _ => Ok(()),
                    }
                },
            }
        },
    }
}

/// What the checks of an executed block found.
pub struct ExecutionChecks {
    pub gas_used: Result<(), InvalidBlockError>,
    pub receipts: Result<(), InvalidBlockError>,
    pub requests: Result<(), InvalidBlockError>,
    /// The access list that the execution produced, where it produced one.
    pub produced_bal: Option<Result<(), InvalidBlockError>>,
    /// Whether the access list that came with the block hashes to what the header names,
    /// where one came.
    pub header_bal_matches: Option<bool>,
}

/// The first check of an executed block that failed, where the access list that came with
/// the block is trusted only as far as the header names it.
pub open spec fn broken_rule(
    checks: ExecutionChecks,
    amsterdam: bool,
) -> Option<InvalidBlockError> {
    match (checks.gas_used, checks.receipts, checks.requests, checks.produced_bal) {
        (Err(e), _, _, _) => Some(e),
        (Ok(()), Err(e), _, _) => Some(e),
        (Ok(()), Ok(()), Err(e), _) => Some(e),
        (Ok(()), Ok(()), Ok(()), Some(Err(e))) => Some(e),
        (Ok(()), Ok(()), Ok(()), Some(Ok(()))) => None,
        (Ok(()), Ok(()), Ok(()), None) => if amsterdam && checks.header_bal_matches
            == Some(false) {
            Some(InvalidBlockError::BlockAccessListHashMismatch)
        } else {
            None
        },
    }
}

/// Whether the execution of a block is what its header names: the first check that failed
/// decides.
pub fn validate_execution(checks: ExecutionChecks, config: &ChainConfig, timestamp: u64) -> (r:
    Result<(), ChainError>)
    ensures
        r == match broken_rule(checks, crate::config::in_force(config.amsterdam_time, timestamp)) {
            Some(e) => Err::<(), ChainError>(ChainError::InvalidBlock(e)),
            None => Ok(()),
        },
{
    if let Err(e) = checks.gas_used {
        return Err(ChainError::InvalidBlock(e));
    }
    if let Err(e) = checks.receipts {
        return Err(ChainError::InvalidBlock(e));
    }
    if let Err(e) = checks.requests {
        return Err(ChainError::InvalidBlock(e));
    }
    match checks.produced_bal {
        Some(Err(e)) => Err(ChainError::InvalidBlock(e)),
        Some(Ok(())) => Ok(()),
        None => {
            let mismatch = match checks.header_bal_matches {
                Some(matches) => !matches,
                None => false,
            };
            if mismatch && config.is_amsterdam_activated(timestamp) {
                Err(ChainError::InvalidBlock(InvalidBlockError::BlockAccessListHashMismatch))
            } else {
                Ok(())
            }
        },
    }
}

/// Whether the access list of a block can be had by executing it again: blocks before
/// the rules that introduced access lists have none.
pub fn records_access_list(config: &ChainConfig, header: &BlockHeader) -> (b: bool)
    ensures
        b == crate::config::in_force(config.amsterdam_time, header.timestamp),
{
    config.is_amsterdam_activated(header.timestamp)
}

/// Where the execution produced no access list of its own, a list that does not hash to
/// what the header names makes the block invalid.
pub proof fn law_forged_access_list_is_refused(checks: ExecutionChecks)
    requires
        checks.produced_bal is None,
        checks.header_bal_matches == Some(false),
    ensures
        broken_rule(checks, true) is Some,
{
}

} // verus!
