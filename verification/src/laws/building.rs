//! What the building of a payload decides from what it is handed.

use crate::block::BlockHeader;
use crate::chain_error::{ChainError, EvmError};
use crate::payload::context::{
    admit_blob_transaction, effective_max_blobs, overflows_block, payload_parent,
    ExecutionReport, PayloadBuildContext, PayloadBuildResult,
};
use crate::payload::fill::{explicit_head, mempool_filters, PendingTxFilter};
use crate::payload::queue::{first_of_each, tails, HeadTransaction};
use crate::payload::slots::PayloadLoop;
use crate::transaction::{MempoolTransaction, Transaction};
use crate::word::{Address, U256};
use vstd::prelude::*;

verus! {

/// A transaction that was given is refused exactly where it is one of a rollup on a base
/// layer; otherwise it goes in with its sender and its time, and with the smaller of its
/// tip cap and what its fee cap leaves above the base fee, nothing where that is below.
pub proof fn law_given_transaction_is_taken(
    tx: Transaction,
    sender: Address,
    time: u64,
    base_fee: Option<u64>,
    l1: bool,
    r: Result<HeadTransaction, ChainError>,
)
    requires
        call_ensures(explicit_head, (tx, sender, time, base_fee, l1), r),
    ensures
        r is Err <==> l1 && (tx.tx_type is FeeToken || tx.tx_type is Privileged),
        r matches Ok(head) ==> {
            let room = tx.gas_fee_cap@ - base_fee->0;
            &&& head.tx.transaction == tx
            &&& head.tx.sender == sender
            &&& head.tx.time == time
            &&& base_fee is None ==> head.tip@ == tx.gas_tip_cap@
            &&& base_fee is Some && room < 0 ==> head.tip@ == 0
            &&& base_fee is Some && room >= 0 ==> head.tip@ == (if room < tx.gas_tip_cap@ {
                room
            } else {
                tx.gas_tip_cap@ as int
            })
        },
{
    crate::laws::payload::law_given_transaction_earns_its_tip(tx, sender, time, base_fee);
}

/// The pool is asked for plain transactions and for those with blobs apart, both under the
/// base fee and the fee for blobs of the block.
pub proof fn law_filters_ask_for_both_kinds(
    base_fee: Option<u64>,
    blob_fee: U256,
    r: Result<(PendingTxFilter, PendingTxFilter), ChainError>,
)
    requires
        call_ensures(mempool_filters, (base_fee, blob_fee), r),
    ensures
        r is Ok <==> blob_fee@ < 0x1_0000_0000_0000_0000,
        r matches Ok((plain, blob)) ==> {
            &&& plain.base_fee == base_fee
            &&& blob.base_fee == base_fee
            &&& plain.blob_fee is Some && plain.blob_fee->0 == blob_fee@
            &&& blob.blob_fee is Some && blob.blob_fee->0 == blob_fee@
            &&& plain.only_plain_txs && !plain.only_blob_txs
            &&& !blob.only_plain_txs && blob.only_blob_txs
        },
{
}

/// A payload is built on the header that the store has.
pub proof fn law_payload_has_a_parent(
    answer: Result<Option<BlockHeader>, String>,
    r: Result<BlockHeader, EvmError>,
)
    requires
        call_ensures(payload_parent, (answer,), r),
    ensures
        r is Ok <==> answer is Ok && answer->Ok_0 is Some,
        r matches Ok(header) ==> answer->Ok_0->0 == header,
        answer matches Err(why) ==> r == Err::<BlockHeader, EvmError>(EvmError::DB(why)),
        r is Err ==> r->Err_0 is DB,
{
}

/// A transaction with blobs may be executed exactly where its blobs are known, those of its
/// bundle or, where the transactions are given, those that it names, and fit into the block
/// besides those that it holds. So many blobs are then told.
pub proof fn law_blobs_must_fit(
    context: PayloadBuildContext,
    tx: Transaction,
    bundle: Option<usize>,
    max: usize,
    r: Result<usize, ChainError>,
)
    requires
        call_ensures(admit_blob_transaction, (&context, &tx, bundle, max), r),
    ensures
        ({
            let n = if context.explicit_build {
                tx.blob_hash_count
            } else {
                bundle->0
            };
            let known = context.explicit_build || bundle is Some;
            &&& r is Ok <==> known && context.blob_count + n <= max
            &&& r is Ok ==> r->Ok_0 == n
            &&& !known ==> r is Err && r->Err_0 is StoreError
            &&& known && context.blob_count + n > max ==> r is Err && r->Err_0 is EvmError
        }),
{
}

/// The most blobs of a block are those that the rules allow, or fewer where the node is
/// told so.
pub proof fn law_most_blobs(protocol: Option<u32>, user: Option<u32>, max: usize)
    requires
        call_ensures(effective_max_blobs, (protocol, user), max),
    ensures
        ({
            let allowed = match protocol {
                Some(n) => n as int,
                None => 0,
            };
            max == match user {
                Some(n) => if n < allowed {
                    n as int
                } else {
                    allowed
                },
                None => allowed,
            }
        }),
{
}

/// An executed transaction does not fit where gas for state is counted apart and what the
/// block uses for anything else, or for state, would be above its limit.
pub proof fn law_block_overflows(context: PayloadBuildContext, report: ExecutionReport, b: bool)
    requires
        call_ensures(overflows_block, (&context, &report), b),
        report.state_gas_used <= report.gas_used,
        context.block_regular_gas_used + report.gas_used <= u64::MAX,
        context.block_state_gas_used + report.gas_used <= u64::MAX,
    ensures
        b <==> context.is_amsterdam && (context.block_regular_gas_used + report.gas_used
            - report.state_gas_used > context.payload.header.gas_limit
            || context.block_state_gas_used + report.state_gas_used
            > context.payload.header.gas_limit),
{
}

/// A finished payload is handed over as it was built: its block, its receipts, its value,
/// its requests and its blobs.
pub proof fn law_finished_payload_is_handed_over(
    context: PayloadBuildContext,
    r: PayloadBuildResult,
)
    requires
        call_ensures(PayloadBuildResult::from_context, (context,), r),
    ensures
        r.block_value == context.block_value,
        r.receipts@ == context.receipts@,
        r.payload@ == context.payload@,
        r.blob_count == context.blob_count,
        context.requests matches Some(list) ==> r.requests@ == list@,
        context.requests is None ==> r.requests@.len() == 0,
{
}

/// A payload is built anew for twelve seconds unless it is asked for, and once more where
/// the pool has seen a transaction since the last build was begun.
pub proof fn law_payload_is_rebuilt(
    l: PayloadLoop,
    elapsed: u64,
    cancelled: bool,
    on: bool,
    left: u64,
    seq: u64,
    owed: bool,
)
    requires
        call_ensures(PayloadLoop::goes_on, (&l, elapsed, cancelled), on),
        call_ensures(PayloadLoop::remaining, (&l, elapsed), left),
        call_ensures(PayloadLoop::owes_final_build, (&l, seq), owed),
    ensures
        on <==> elapsed < 12000 && !cancelled,
        elapsed <= 12000 ==> left + elapsed == 12000,
        elapsed > 12000 ==> left == 0,
        owed <==> seq > l.last_built_seq,
{
}

/// A queue starts with the first transaction of every sender and no other, each with the
/// tip that it earns: at most its tip cap, and with the base fee at most its fee cap.
pub proof fn law_queue_starts_with_the_first(
    heads: Seq<HeadTransaction>,
    txs: Map<Address, Seq<MempoolTransaction>>,
    base_fee: Option<u64>,
    i: int,
    sender: Address,
)
    requires
        first_of_each(heads, txs, base_fee),
        0 <= i < heads.len(),
    ensures
        txs.contains_key(heads[i].tx.sender),
        heads[i].tx == txs[heads[i].tx.sender][0],
        heads[i].tip@ <= heads[i].tx.transaction.gas_tip_cap@,
        base_fee is Some ==> heads[i].tip@ + base_fee->0 <= heads[i].tx.transaction.gas_fee_cap@,
        txs.contains_key(sender) ==> exists|k: int|
            0 <= k < heads.len() && (#[trigger] heads[k]).tx.sender == sender,
        txs.contains_key(sender) && txs[sender].len() > 0 ==> tails(txs).contains_key(sender)
            && tails(txs)[sender].len() == txs[sender].len() - 1,
        forall|k: int|
            txs.contains_key(sender) && 0 <= k < txs[sender].len() - 1 ==> #[trigger] tails(
                txs,
            )[sender][k] == txs[sender][k + 1],
{
    crate::laws::admission::law_tip_is_the_smaller_bound(heads[i].tx.transaction, base_fee);
}

} // verus!
