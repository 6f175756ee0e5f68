//! Filling a payload: which transaction is tried next, and what becomes of it.

use crate::bal::{told, BalEvent, EventView, RecorderView};
use crate::block::Withdrawal;
use crate::chain_error::{contains_text, is_nonce_mismatch, ChainError};
use crate::config::{in_force, ChainConfig};
use crate::database::Database;
use crate::gen_db::{DbView, GeneralizedDatabase};
use crate::payload::context::{plus, ContextView, PayloadBuildContext};
use crate::payload::queue::{filter_failed, HeadTransaction, QueueView, TransactionQueue};
use crate::transaction::{gas_tip, MempoolTransaction, Transaction, TxType};
use crate::word::{Address, H256, U256};
use vstd::prelude::*;
use vstd::string::*;

verus! {

/// The least gas that a transaction takes.
pub const TX_GAS_COST: u64 = 21000;

/// How many bytes a block may take on the wire.
pub const MAX_RLP_BLOCK_SIZE: u64 = 8388608;

/// The most gas that is set aside for one transaction where gas for state is counted
/// apart.
pub const TX_MAX_GAS_LIMIT_AMSTERDAM: u64 = 16777216;

/// The limits that a payload is filled under.
#[derive(Copy, Clone, PartialEq, Eq, Structural, Debug)]
pub struct FillRules {
    pub config: ChainConfig,
    /// How many blobs the block may hold.
    pub max_blobs: usize,
    /// How many bytes the block may take on the wire, where that is limited.
    pub max_block_size: u64,
    /// The most gas that is set aside for one transaction where gas for state is counted
    /// apart.
    pub tx_max_gas_limit: u64,
}

/// The transactions that wait for the payload, blob transactions apart.
pub struct FillQueues {
    pub plain: TransactionQueue,
    pub blob: TransactionQueue,
}

/// What is to be done next.
#[derive(Copy, Clone, PartialEq, Eq, Structural, Debug)]
pub enum FillStep {
    /// The payload is full or no transaction is left.
    Done,
    /// There is not enough gas for the next transaction; it and the others of its sender
    /// were passed over.
    Skipped,
    /// The next transaction can never go into this chain; it and the others of its
    /// sender were passed over, and it has to leave the pool.
    Drop(H256),
    /// The next transaction is to be executed.
    Run { head: HeadTransaction, is_blob: bool },
}

/// The blob transactions that may still be tried: none once the block holds as many
/// blobs as it may.
pub open spec fn blobs_left(blob: QueueView, context: ContextView, rules: FillRules) -> QueueView {
    if blob.heads.len() > 0 && context.blob_count >= rules.max_blobs {
        QueueView { heads: Seq::empty(), rest: Map::empty(), ..blob }
    } else {
        blob
    }
}

/// The next transaction, and whether it brings blobs: the first of either queue, the
/// plain one unless the other is ahead of it.
pub open spec fn next_transaction(plain: QueueView, blob: QueueView) -> Option<
    (HeadTransaction, bool),
> {
    if plain.heads.len() == 0 && blob.heads.len() == 0 {
        None
    } else if plain.heads.len() == 0 {
        Some((blob.heads[0], true))
    } else if blob.heads.len() > 0 && blob.heads[0].ahead_of(plain.heads[0]) {
        Some((blob.heads[0], true))
    } else {
        Some((plain.heads[0], false))
    }
}

/// The next transaction, where there is one.
pub open spec fn next_head(plain: QueueView, blob: QueueView) -> HeadTransaction {
    let (head, is_blob) = next_transaction(plain, blob)->0;
    head
}

/// Whether the next transaction, where there is one, brings blobs.
pub open spec fn next_is_blob(plain: QueueView, blob: QueueView) -> bool {
    let (head, is_blob) = next_transaction(plain, blob)->0;
    is_blob
}

/// The gas that is set aside for a transaction.
pub open spec fn reservation(context: ContextView, rules: FillRules, tx: Transaction) -> u64 {
    if context.amsterdam && tx.gas_limit > rules.tx_max_gas_limit {
        rules.tx_max_gas_limit
    } else {
        tx.gas_limit
    }
}

/// The size of the block with one more transaction.
pub open spec fn size_with(context: ContextView, tx: Transaction) -> u64 {
    plus(context.payload_size, tx.encoded_len as u64)
}

/// Whether a transaction can never go into this chain: it binds a chain before
/// signatures could, or it is a frame transaction before those exist or after it
/// expired.
pub open spec fn never_fits(context: ContextView, rules: FillRules, tx: Transaction) -> bool {
    let header = context.payload.header;
    ||| tx.protected && !in_force(rules.config.eip155_block, header.number)
    ||| tx.tx_type == TxType::Frame && !in_force(rules.config.hegota_time, header.timestamp)
    ||| tx.tx_type == TxType::Frame && (tx.expiry_deadline matches Some(deadline) && deadline
        < header.timestamp)
}

/// What is done with the next transaction.
pub open spec fn decision(
    context: ContextView,
    rules: FillRules,
    head: HeadTransaction,
    is_blob: bool,
) -> FillStep {
    let tx = head.tx.transaction;
    if context.remaining_gas < reservation(context, rules, tx) {
        FillStep::Skipped
    } else if in_force(rules.config.osaka_time, context.payload.header.timestamp) && size_with(
        context,
        tx,
    ) > rules.max_block_size {
        FillStep::Done
    } else if never_fits(context, rules, tx) {
        FillStep::Drop(tx.hash)
    } else {
        FillStep::Run { head, is_blob }
    }
}

/// What is to be done next, seen from the whole.
pub open spec fn step_of(
    plain: QueueView,
    blob: QueueView,
    context: ContextView,
    rules: FillRules,
) -> FillStep {
    if context.remaining_gas < TX_GAS_COST {
        FillStep::Done
    } else {
        match next_transaction(plain, blobs_left(blob, context, rules)) {
            None => FillStep::Done,
            Some((head, is_blob)) => decision(context, rules, head, is_blob),
        }
    }
}

/// The queues are what the pool gave.
pub open spec fn queues_wf(queues: FillQueues) -> bool {
    queues.plain@.wf() && queues.blob@.wf()
}

/// Whether a step passes over the transactions of a sender.
pub open spec fn passes_over(step: FillStep) -> bool {
    step is Skipped || step is Drop
}

/// Decides what is to be done next. Once a transaction was found that fits into the
/// gas left, the size of the block counts it, whether or not it is executed.
pub fn fill_step(
    queues: &mut FillQueues,
    context: &mut PayloadBuildContext,
    rules: &FillRules,
) -> (step: FillStep)
    requires
        queues_wf(*old(queues)),
    ensures
        queues_wf(*final(queues)),
        step == step_of(old(queues).plain@, old(queues).blob@, old(context)@, *rules),
        ({
            let plain = old(queues).plain@;
            let blob = blobs_left(old(queues).blob@, old(context)@, *rules);
            let is_blob = next_is_blob(plain, blob);
            if old(context)@.remaining_gas < TX_GAS_COST {
                *final(queues) == *old(queues)
            } else {
                &&& final(queues).plain@ == if passes_over(step) && !is_blob {
                    plain.popped()
                } else {
                    plain
                }
                &&& final(queues).blob@ == if passes_over(step) && is_blob {
                    blob.popped()
                } else {
                    blob
                }
            }
        }),
        final(context)@ == match step {
            FillStep::Drop(_) | FillStep::Run { .. } => ContextView {
                payload_size: size_with(
                    old(context)@,
                    next_head(
                        old(queues).plain@,
                        blobs_left(old(queues).blob@, old(context)@, *rules),
                    ).tx.transaction,
                ),
                ..old(context)@
            },
            _ => old(context)@,
        },
        step matches FillStep::Run { head, is_blob } ==> {
            &&& old(context)@.payload_size + head.tx.transaction.encoded_len <= u64::MAX
                ==> final(context)@.payload_size == old(context)@.payload_size
                + head.tx.transaction.encoded_len
            &&& queue_of(*final(queues), is_blob).heads.len() > 0
            &&& queue_of(*final(queues), is_blob).heads[0] == head
        },
{
    if context.remaining_gas < TX_GAS_COST {
        return FillStep::Done;
    }
    if !queues.blob.is_empty() && context.blob_count >= rules.max_blobs {
        queues.blob.clear();
    }
    let (head, is_blob) = match (queues.plain.peek(), queues.blob.peek()) {
        (None, None) => {
            return FillStep::Done;
        },
        (None, Some(b)) => (b, true),
        (Some(a), None) => (a, false),
        (Some(a), Some(b)) => if b.is_ahead_of(&a) {
            (b, true)
        } else {
            (a, false)
        },
    };
    let tx = head.tx.transaction;
    let reserved: u64 = if context.is_amsterdam && tx.gas_limit > rules.tx_max_gas_limit {
        rules.tx_max_gas_limit
    } else {
        tx.gas_limit
    };
    if context.remaining_gas < reserved {
        pass_over(queues, is_blob);
        return FillStep::Skipped;
    }
    let size: u64 = context.payload_size.saturating_add(tx.encoded_len as u64);
    let timestamp: u64 = context.payload.header.timestamp;
    if rules.config.is_osaka_activated(timestamp) && size > rules.max_block_size {
        return FillStep::Done;
    }
    context.payload_size = size;
    let is_frame = tx.tx_type == TxType::Frame;
    let expired = match tx.expiry_deadline {
        Some(deadline) => deadline < timestamp,
        None => false,
    };
    if (tx.protected && !rules.config.is_eip155_activated(context.payload.header.number)) || (
    is_frame && !rules.config.is_hegota_activated(timestamp)) || (is_frame && expired) {
        pass_over(queues, is_blob);
        return FillStep::Drop(tx.hash);
    }
    FillStep::Run { head, is_blob }
}

fn pass_over(queues: &mut FillQueues, is_blob: bool)
    requires
        queues_wf(*old(queues)),
    ensures
        queues_wf(*final(queues)),
        final(queues).plain@ == if is_blob {
            old(queues).plain@
        } else {
            old(queues).plain@.popped()
        },
        final(queues).blob@ == if is_blob {
            old(queues).blob@.popped()
        } else {
            old(queues).blob@
        },
{
    if is_blob {
        queues.blob.pop();
    } else {
        queues.plain.pop();
    }
}

/// The queue that a transaction came from.
pub open spec fn queue_of(queues: FillQueues, is_blob: bool) -> QueueView {
    if is_blob {
        queues.blob@
    } else {
        queues.plain@
    }
}

/// Enters what became of an executed transaction, which is still the first of its
/// queue.
///
/// After a success the next one of its sender takes its place. After a failure all
/// others of its sender are passed over, and a frame transaction has to leave the pool,
/// which its hash says: its failure is final, unless its nonce did not match, which
/// passes.
pub fn fill_outcome(
    queues: &mut FillQueues,
    is_blob: bool,
    failure: Option<&ChainError>,
) -> (r: Result<Option<H256>, ChainError>)
    requires
        queues_wf(*old(queues)),
        queue_of(*old(queues), is_blob).heads.len() > 0,
    ensures
        queues_wf(*final(queues)),
        queue_of(*final(queues), !is_blob) == queue_of(*old(queues), !is_blob),
        failure is None && r is Ok ==> queue_of(*old(queues), is_blob).shifts_to(
            queue_of(*final(queues), is_blob),
        ),
        ({
            let before = queue_of(*old(queues), is_blob);
            let after = queue_of(*final(queues), is_blob);
            let tx = before.heads[0].tx.transaction;
            match failure {
                Some(e) => {
                    &&& after == before.popped()
                    &&& r == Ok::<Option<H256>, ChainError>(
                        if tx.tx_type == TxType::Frame && !contains_text(
                            e.text(),
                            "Nonce mismatch"@,
                        ) {
                            Some(tx.hash)
                        } else {
                            None
                        },
                    )
                },
                None => {
                    &&& after.rest == before.shifted_rest()
                    &&& after.base_fee == before.base_fee
                    &&& match before.follower() {
                        None => after.heads == before.heads.drop_first() && r == Ok::<
                            Option<H256>,
                            ChainError,
                        >(None),
                        Some(next) => match gas_tip(next.transaction, before.base_fee) {
                            None => after.heads == before.heads.drop_first() && (r matches Err(e)
                                && filter_failed(e)),
                            Some(tip) => r == Ok::<Option<H256>, ChainError>(None) && exists|
                                at: int,
                            |
                                0 <= at <= before.heads.len() - 1 && after.heads
                                    == #[trigger] before.heads.drop_first().insert(
                                    at,
                                    HeadTransaction { tx: next, tip },
                                ),
                        },
                    }
                },
            }
        }),
{
    let first = if is_blob {
        queues.blob.peek()
    } else {
        queues.plain.peek()
    };
    match failure {
        Some(e) => {
            let mut gone: Option<H256> = None;
            match first {
                Some(head) => {
                    if head.tx.transaction.tx_type == TxType::Frame && !is_nonce_mismatch(e) {
                        gone = Some(head.tx.transaction.hash);
                    }
                },
                None => {},
            }
            pass_over(queues, is_blob);
            Ok(gone)
        },
        None => {
            let r = if is_blob {
                queues.blob.shift()
            } else {
                queues.plain.shift()
            };
            match r {
                Ok(_) => Ok(None),
                Err(e) => Err(e),
            }
        },
    }
}

/// A plain transaction is tried before a blob transaction that is not ahead of it, and
/// nothing that waits is ahead of what is tried.
pub proof fn law_best_transaction_is_tried(plain: QueueView, blob: QueueView)
    requires
        plain.wf(),
        blob.wf(),
        next_transaction(plain, blob) is Some,
    ensures
        ({
            let head = next_head(plain, blob);
            &&& forall|i: int|
                0 <= i < plain.heads.len() ==> !(#[trigger] plain.heads[i]).ahead_of(head)
            &&& forall|i: int|
                0 <= i < blob.heads.len() ==> !(#[trigger] blob.heads[i]).ahead_of(head)
        }),
{
    let head = next_head(plain, blob);
    assert forall|i: int| 0 <= i < plain.heads.len() implies !(
    #[trigger] plain.heads[i]).ahead_of(head) by {
        crate::payload::queue::law_order_is_a_weak_order(plain.heads[i], plain.heads[0], head);
        crate::payload::queue::law_order_is_a_weak_order(head, plain.heads[0], plain.heads[i]);
        crate::payload::queue::law_order_is_a_weak_order(plain.heads[i], head, plain.heads[0]);
    }
    assert forall|i: int| 0 <= i < blob.heads.len() implies !(#[trigger] blob.heads[i]).ahead_of(
        head,
    ) by {
        crate::payload::queue::law_order_is_a_weak_order(blob.heads[i], blob.heads[0], head);
        crate::payload::queue::law_order_is_a_weak_order(head, blob.heads[0], blob.heads[i]);
        crate::payload::queue::law_order_is_a_weak_order(blob.heads[i], head, blob.heads[0]);
    }
}

/// The head for a transaction that was given, not taken from the pool: it earns nothing
/// where its fee cap does not cover the base fee.
pub open spec fn given_head(
    tx: Transaction,
    sender: Address,
    time: u64,
    base_fee: Option<u64>,
) -> HeadTransaction {
    HeadTransaction {
        tx: MempoolTransaction { transaction: tx, sender, time },
        tip: match gas_tip(tx, base_fee) {
            Some(tip) => tip,
            None => U256 { hi: 0, lo: 0 },
        },
    }
}

/// Admits a transaction that was given, not taken from the pool. On the base chain the
/// types that only a rollup knows are refused.
pub fn explicit_head(
    tx: Transaction,
    sender: Address,
    time: u64,
    base_fee: Option<u64>,
    l1: bool,
) -> (r: Result<HeadTransaction, ChainError>)
    ensures
        match r {
            Ok(head) => !(l1 && tx.tx_type.l2_only()) && head == given_head(
                tx,
                sender,
                time,
                base_fee,
            ),
            Err(ChainError::Custom(why)) => l1 && tx.tx_type.l2_only() && why@ == if tx.tx_type
                is FeeToken {
                "transaction type 0x7d is not valid on L1"@
            } else {
                "transaction type 0x7e is not valid on L1"@
            },
            Err(_) => false,
        },
{
    if l1 && tx.tx_type.is_l2_only() {
        let text = if tx.tx_type == TxType::FeeToken {
            "transaction type 0x7d is not valid on L1"
        } else {
            "transaction type 0x7e is not valid on L1"
        };
        return Err(ChainError::Custom(text.to_owned()));
    }
    let tip = match tx.effective_gas_tip(base_fee) {
        Some(tip) => tip,
        None => U256::zero(),
    };
    Ok(HeadTransaction { tx: MempoolTransaction { transaction: tx, sender, time }, tip })
}

/// Which transactions of the pool are wanted.
#[derive(Copy, Clone, PartialEq, Eq, Structural, Debug)]
pub struct PendingTxFilter {
    pub base_fee: Option<u64>,
    pub blob_fee: Option<u64>,
    pub only_plain_txs: bool,
    pub only_blob_txs: bool,
}

/// The filters for plain and for blob transactions. Fails where the base fee of blobs
/// is beyond what a transaction can offer.
pub fn mempool_filters(base_fee: Option<u64>, base_fee_per_blob_gas: U256) -> (r: Result<
    (PendingTxFilter, PendingTxFilter),
    ChainError,
>)
    ensures
        match r {
            Ok((plain, blob)) => {
                &&& base_fee_per_blob_gas@ <= u64::MAX
                &&& plain == (PendingTxFilter {
                    base_fee,
                    blob_fee: Some(base_fee_per_blob_gas@ as u64),
                    only_plain_txs: true,
                    only_blob_txs: false,
                })
                &&& blob == (PendingTxFilter {
                    only_plain_txs: false,
                    only_blob_txs: true,
                    ..plain
                })
            },
            Err(ChainError::Custom(why)) => base_fee_per_blob_gas@ > u64::MAX && why@
                == "base_fee_per_blob_gas does not fit in u64"@,
            Err(_) => false,
        },
{
    match base_fee_per_blob_gas.to_u64() {
        Some(fee) => Ok(
            (
                PendingTxFilter {
                    base_fee,
                    blob_fee: Some(fee),
                    only_plain_txs: true,
                    only_blob_txs: false,
                },
                PendingTxFilter {
                    base_fee,
                    blob_fee: Some(fee),
                    only_plain_txs: false,
                    only_blob_txs: true,
                },
            ),
        ),
        None => Err(
            ChainError::Custom("base_fee_per_blob_gas does not fit in u64".to_owned()),
        ),
    }
}

/// The index under which the block access list files a transaction, or what follows
/// the last one: one more than the transactions before it.
pub open spec fn access_index(before: usize) -> u32 {
    if before + 1 > u32::MAX {
        u32::MAX
    } else {
        (before + 1) as u32
    }
}

fn next_access_index(before: usize) -> (index: u32)
    ensures
        index == access_index(before),
{
    if before >= u32::MAX as usize {
        u32::MAX
    } else {
        (before + 1) as u32
    }
}

/// A recorder after the start of a transaction: it files under the transaction's index,
/// and the sender and the account that is called are touched.
pub open spec fn tx_begun(recorder: Option<RecorderView>, before: usize, head: HeadTransaction) -> Option<
    RecorderView,
> {
    let filed = match recorder {
        Some(r) => Some(RecorderView { block_access_index: access_index(before), ..r }),
        None => None,
    };
    let sender = told(filed, EventView::TouchedAddress(head.tx.sender));
    match head.tx.transaction.to {
        Some(to) => told(sender, EventView::TouchedAddress(to)),
        None => sender,
    }
}

/// Begins a transaction. The mark that comes back leads the recorder back to where the
/// transaction left no trace.
pub fn begin_transaction<D: Database>(
    db: &mut GeneralizedDatabase<D>,
    before: usize,
    head: &HeadTransaction,
) -> (mark: Option<usize>)
    ensures
        final(db).store == old(db).store,
        final(db)@ == (DbView {
            recorder: tx_begun(old(db)@.recorder, before, *head),
            ..old(db)@
        }),
        mark == match old(db)@.recorder {
            Some(r) => Some(r.events.len() as usize),
            None => None,
        },
{
    db.set_bal_index(next_access_index(before));
    let mark: Option<usize> = match &db.bal_recorder {
        Some(recorder) => Some(recorder.tx_checkpoint()),
        None => None,
    };
    db.record(BalEvent::TouchedAddress(head.tx.sender));
    match head.tx.transaction.to {
        Some(to) => {
            db.record(BalEvent::TouchedAddress(to));
        },
        None => {},
    }
    mark
}

/// A recorder led back to a mark.
pub open spec fn led_back(recorder: Option<RecorderView>, mark: Option<usize>) -> Option<
    RecorderView,
> {
    match (recorder, mark) {
        (Some(r), Some(n)) => Some(RecorderView { events: r.events.take(n as int), ..r }),
        _ => recorder,
    }
}

/// Gives a transaction up that was begun: the recorder forgets everything since.
pub fn abandon_transaction<D: Database>(db: &mut GeneralizedDatabase<D>, mark: Option<usize>)
    requires
        old(db)@.recorder matches Some(r) ==> (mark matches Some(n) ==> n <= r.events.len()),
    ensures
        final(db).store == old(db).store,
        final(db)@ == (DbView { recorder: led_back(old(db)@.recorder, mark), ..old(db)@ }),
{
    match mark {
        Some(n) => match &mut db.bal_recorder {
            Some(recorder) => {
                recorder.tx_restore(n);
            },
            None => {},
        },
        None => {},
    }
    assert(db@ =~= (DbView { recorder: led_back(old(db)@.recorder, mark), ..old(db)@ }));
}

/// A transaction that was begun and then given up leaves no trace in the recorder but
/// the index, whatever it was told in between.
pub proof fn law_abandoned_transaction_leaves_no_trace(
    recorder: RecorderView,
    before: usize,
    head: HeadTransaction,
    later: RecorderView,
)
    requires
        recorder.events.len() <= usize::MAX,
        ({
            let begun = tx_begun(Some(recorder), before, head)->0;
            begun.events.len() <= later.events.len() && later.events.take(
                begun.events.len() as int,
            ) == begun.events && later.block_access_index == begun.block_access_index
        }),
    ensures
        led_back(Some(later), Some(recorder.events.len() as usize)) == Some(
            RecorderView { block_access_index: access_index(before), ..recorder },
        ),
{
    let begun = tx_begun(Some(recorder), before, head)->0;
    let n = recorder.events.len() as int;
    assert(begun.events.take(n) =~= recorder.events);
    assert(later.events.take(n) =~= recorder.events) by {
        assert forall|i: int| 0 <= i < n implies later.events[i] == recorder.events[i] by {
            assert(later.events.take(begun.events.len() as int)[i] == begun.events[i]);
        }
    }
}

/// A recorder after it was told that the recipients of withdrawals are touched.
pub open spec fn recipients_told(
    recorder: Option<RecorderView>,
    withdrawals: Seq<Withdrawal>,
) -> Option<RecorderView>
    decreases withdrawals.len(),
{
    if withdrawals.len() == 0 {
        recorder
    } else {
        told(
            recipients_told(recorder, withdrawals.drop_last()),
            EventView::TouchedAddress(withdrawals.last().address),
        )
    }
}

/// Begins what follows the last transaction, requests and withdrawals: it is filed
/// under the index after that of the last transaction, and the recipients of the
/// withdrawals are touched.
pub fn begin_post_transactions<D: Database>(
    db: &mut GeneralizedDatabase<D>,
    transactions: usize,
    withdrawals: &Vec<Withdrawal>,
)
    ensures
        final(db).store == old(db).store,
        final(db)@ == (DbView {
            recorder: recipients_told(
                match old(db)@.recorder {
                    Some(r) => Some(
                        RecorderView { block_access_index: access_index(transactions), ..r },
                    ),
                    None => None,
                },
                withdrawals@,
            ),
            ..old(db)@
        }),
{
    db.set_bal_index(next_access_index(transactions));
    let ghost filed = db@;
    let mut i: usize = 0;
    proof {
        assert(withdrawals@.take(0) =~= Seq::empty());
    }
    while i < withdrawals.len()
        invariant
            i <= withdrawals@.len(),
            db.store == old(db).store,
            db@ == (DbView {
                recorder: recipients_told(filed.recorder, withdrawals@.take(i as int)),
                ..filed
            }),
        decreases withdrawals@.len() - i,
    {
        db.record(BalEvent::TouchedAddress(withdrawals[i].address));
        i += 1;
        assert(withdrawals@.take(i as int).drop_last() =~= withdrawals@.take(i - 1));
        assert(withdrawals@.take(i as int).last() == withdrawals@[i - 1]);
    }
    assert(withdrawals@.take(i as int) =~= withdrawals@);
}

} // verus!
