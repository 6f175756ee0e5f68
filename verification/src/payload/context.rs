//! A payload under construction: its gas, its blobs and its value.

use crate::block::{
    all_logs, collect_logs, logs_view, Block, BlockHeader, BlockView, HeaderView, Log, Receipt,
};
use crate::chain_error::{decimal, decimal_text, ChainError, EvmError};
use crate::config::{in_force, ChainConfig};
use crate::hex::short_form;
use crate::payload::queue::HeadTransaction;
use crate::transaction::{Transaction, TxType, GAS_PER_BLOB};
use crate::word::{lemma_word_bound, two_256, word_of, H256, U256};
use vstd::prelude::*;
use vstd::string::*;

verus! {

/// A payload under construction.
pub struct PayloadBuildContext {
    pub payload: Block,
    /// The gas that transactions may still use, before refunds.
    pub remaining_gas: u64,
    /// The gas that transactions spent, after refunds.
    pub cumulative_gas_spent: u64,
    /// The gas that transactions used for anything but state.
    pub block_regular_gas_used: u64,
    /// The gas that transactions used for state.
    pub block_state_gas_used: u64,
    /// Whether gas for state is counted apart.
    pub is_amsterdam: bool,
    pub receipts: Vec<Receipt>,
    /// The requests of the block in their wire encoding, where it has any.
    pub requests: Option<Vec<Vec<u8>>>,
    /// What the builder earns with the block.
    pub block_value: U256,
    pub base_fee_per_blob_gas: U256,
    /// How many blobs come with the block.
    pub blob_count: usize,
    /// How many bytes the block takes on the wire.
    pub payload_size: u64,
    /// The transactions are given, not taken from the pool: the blobs that they name count
    /// for the gas of the block, and its bundle stays empty.
    pub explicit_build: bool,
}

/// What a payload under construction holds.
#[verifier::ext_equal]
pub struct ContextView {
    pub payload: BlockView,
    pub remaining_gas: u64,
    pub cumulative_gas_spent: u64,
    pub regular: u64,
    pub state: u64,
    pub amsterdam: bool,
    pub receipts: Seq<Receipt>,
    pub requests: Option<Seq<Vec<u8>>>,
    pub block_value: U256,
    pub base_fee_per_blob_gas: U256,
    pub blob_count: usize,
    pub payload_size: u64,
    pub explicit_build: bool,
}

impl View for PayloadBuildContext {
    type V = ContextView;

    open spec fn view(&self) -> ContextView {
        ContextView {
            payload: self.payload@,
            remaining_gas: self.remaining_gas,
            cumulative_gas_spent: self.cumulative_gas_spent,
            regular: self.block_regular_gas_used,
            state: self.block_state_gas_used,
            amsterdam: self.is_amsterdam,
            receipts: self.receipts@,
            requests: crate::block::optional_view(self.requests),
            block_value: self.block_value,
            base_fee_per_blob_gas: self.base_fee_per_blob_gas,
            blob_count: self.blob_count,
            payload_size: self.payload_size,
            explicit_build: self.explicit_build,
        }
    }
}

/// The larger of two numbers.
pub open spec fn larger(a: u64, b: u64) -> u64 {
    if a >= b {
        a
    } else {
        b
    }
}

fn max_u64(a: u64, b: u64) -> (m: u64)
    ensures
        m == larger(a, b),
{
    if a >= b {
        a
    } else {
        b
    }
}

impl ContextView {
    /// The gas left and the gas used make up the gas limit of the block.
    pub open spec fn wf(self) -> bool {
        let limit = self.payload.header.gas_limit;
        &&& self.remaining_gas <= limit
        &&& self.amsterdam ==> {
            &&& larger(self.regular, self.state) <= limit
            &&& self.remaining_gas == limit - larger(self.regular, self.state)
        }
    }

    /// The gas that the block uses: where gas for state is counted apart, the larger of
    /// the two sums.
    pub open spec fn gas_used(self) -> int {
        if self.amsterdam {
            larger(self.regular, self.state) as int
        } else {
            self.payload.header.gas_limit - self.remaining_gas
        }
    }
}

/// A payload with nothing in it yet.
pub open spec fn context_start(
    payload: BlockView,
    config: ChainConfig,
    base_fee_per_blob_gas: U256,
    payload_size: u64,
) -> ContextView {
    ContextView {
        remaining_gas: payload.header.gas_limit,
        cumulative_gas_spent: 0,
        regular: 0,
        state: 0,
        amsterdam: in_force(config.amsterdam_time, payload.header.timestamp),
        receipts: Seq::empty(),
        requests: if in_force(config.prague_time, payload.header.timestamp) {
            Some(Seq::empty())
        } else {
            None
        },
        block_value: U256 { hi: 0, lo: 0 },
        base_fee_per_blob_gas,
        payload,
        blob_count: 0,
        payload_size,
        explicit_build: false,
    }
}

impl PayloadBuildContext {
    /// A payload with nothing in it yet. `payload_size` is the size of its block on the
    /// wire.
    pub fn new(
        payload: Block,
        config: &ChainConfig,
        base_fee_per_blob_gas: U256,
        payload_size: u64,
    ) -> (context: PayloadBuildContext)
        ensures
            context@ == context_start(payload@, *config, base_fee_per_blob_gas, payload_size),
            context@.wf(),
    {
        let timestamp: u64 = payload.header.timestamp;
        let context = PayloadBuildContext {
            remaining_gas: payload.header.gas_limit,
            cumulative_gas_spent: 0,
            block_regular_gas_used: 0,
            block_state_gas_used: 0,
            is_amsterdam: config.is_amsterdam_activated(timestamp),
            receipts: Vec::new(),
            requests: if config.is_prague_activated(timestamp) {
                Some(Vec::new())
            } else {
                None
            },
            block_value: U256::zero(),
            base_fee_per_blob_gas,
            payload,
            blob_count: 0,
            payload_size,
            explicit_build: false,
        };
        assert(context@ =~= context_start(
            payload@,
            *config,
            base_fee_per_blob_gas,
            payload_size,
        ));
        context
    }

    /// The gas that the block uses.
    pub fn gas_used(&self) -> (gas: u64)
        requires
            self@.wf(),
        ensures
            gas == self@.gas_used(),
            gas <= self@.payload.header.gas_limit,
    {
        if self.is_amsterdam {
            max_u64(self.block_regular_gas_used, self.block_state_gas_used)
        } else {
            self.payload.header.gas_limit - self.remaining_gas
        }
    }

    pub fn parent_hash(&self) -> (hash: H256)
        ensures
            hash == self@.payload.header.parent_hash,
    {
        self.payload.header.parent_hash
    }

    pub fn block_number(&self) -> (number: u64)
        ensures
            number == self@.payload.header.number,
    {
        self.payload.header.number
    }

    pub fn base_fee_per_gas(&self) -> (fee: Option<u64>)
        ensures
            fee == self@.payload.header.base_fee_per_gas,
    {
        self.payload.header.base_fee_per_gas
    }
}

/// The header of the block that a payload is built on, `answer` being what the store has
/// for its hash.
pub fn payload_parent(answer: Result<Option<BlockHeader>, String>) -> (r: Result<
    BlockHeader,
    EvmError,
>)
    ensures
        match answer {
            Ok(Some(header)) => r == Ok::<BlockHeader, EvmError>(header),
            Ok(None) => r matches Err(EvmError::DB(why)) && why@ == "parent header not found"@,
            Err(why) => r == Err::<BlockHeader, EvmError>(EvmError::DB(why)),
        },
{
    match answer {
        Ok(Some(header)) => Ok(header),
        Ok(None) => Err(EvmError::DB("parent header not found".to_owned())),
        Err(why) => Err(EvmError::DB(why)),
    }
}

/// What an executed transaction used and spent.
#[derive(Copy, Clone, PartialEq, Eq, Structural, Debug)]
pub struct ExecutionReport {
    /// The gas used, before refunds.
    pub gas_used: u64,
    /// The gas that the sender pays for.
    pub gas_spent: u64,
    /// How much of the gas used was for state.
    pub state_gas_used: u64,
}

/// The sum, at most what a counter holds.
pub open spec fn plus(a: u64, b: u64) -> u64 {
    if a + b > u64::MAX {
        u64::MAX
    } else {
        (a + b) as u64
    }
}

/// The difference, at least zero.
pub open spec fn minus(a: u64, b: u64) -> u64 {
    if a < b {
        0
    } else {
        (a - b) as u64
    }
}

/// The two sums of gas after a transaction.
pub open spec fn sums_after(context: ContextView, report: ExecutionReport) -> (u64, u64) {
    (
        plus(context.regular, minus(report.gas_used, report.state_gas_used)),
        plus(context.state, report.state_gas_used),
    )
}

/// Whether an executed transaction does not fit into the block after all.
pub open spec fn overflows(context: ContextView, report: ExecutionReport) -> bool {
    let (regular, state) = sums_after(context, report);
    context.amsterdam && larger(regular, state) > context.payload.header.gas_limit
}

/// Whether an executed transaction does not fit into the block after all. Whoever executed
/// it takes it back then.
pub fn overflows_block(context: &PayloadBuildContext, report: &ExecutionReport) -> (b: bool)
    ensures
        b == overflows(context@, *report),
{
    let regular_gas: u64 = report.gas_used.saturating_sub(report.state_gas_used);
    let regular: u64 = context.block_regular_gas_used.saturating_add(regular_gas);
    let state: u64 = context.block_state_gas_used.saturating_add(report.state_gas_used);
    context.is_amsterdam && max_u64(regular, state) > context.payload.header.gas_limit
}

/// What a transaction that does not fit after all is told.
pub open spec fn overflow_text(context: ContextView, report: ExecutionReport) -> Seq<char> {
    let (regular, state) = sums_after(context, report);
    "block gas limit exceeded (state gas overflow): max("@ + decimal(regular as nat) + ", "@
        + decimal(state as nat) + ") = "@ + decimal(larger(regular, state) as nat)
        + " > gas_limit "@ + decimal(context.payload.header.gas_limit as nat)
}

/// The payload after an executed transaction that fits, `spent` being the gas spent by
/// then.
pub open spec fn settled(
    context: ContextView,
    report: ExecutionReport,
    tip: U256,
    spent: u64,
) -> ContextView {
    let (regular, state) = sums_after(context, report);
    ContextView {
        cumulative_gas_spent: spent,
        regular,
        state,
        remaining_gas: if context.amsterdam {
            minus(context.payload.header.gas_limit, larger(regular, state))
        } else {
            minus(context.remaining_gas, report.gas_used)
        },
        block_value: word_of((context.block_value@ + report.gas_spent * tip@) as int),
        ..context
    }
}

/// Enters an executed transaction into the counters of the payload. `spent` is the gas
/// that transactions spent, this one counted.
///
/// Where gas for state is counted apart, a transaction that does not fit is refused:
/// the caller takes it back, and its gas is not counted.
pub fn apply_plain_transaction(
    head: &HeadTransaction,
    context: &mut PayloadBuildContext,
    report: &ExecutionReport,
    spent: u64,
) -> (r: Result<(), ChainError>)
    requires
        overflows(old(context)@, *report) || old(context)@.block_value@ + report.gas_spent
            * head.tip@ < two_256(),
    ensures
        r is Err <==> overflows(old(context)@, *report),
        r matches Err(e) ==> e matches ChainError::EvmError(EvmError::Custom(why)) && why@
            == overflow_text(old(context)@, *report),
        r is Ok ==> final(context)@ == settled(old(context)@, *report, head.tip, spent),
        r is Err ==> final(context)@ == (ContextView {
            cumulative_gas_spent: minus(spent, report.gas_spent),
            ..old(context)@
        }),
        r is Err && spent >= report.gas_spent ==> final(context).cumulative_gas_spent
            + report.gas_spent == spent,
        old(context)@.wf() ==> final(context)@.wf(),
{
    let state_gas: u64 = report.state_gas_used;
    let regular_gas: u64 = report.gas_used.saturating_sub(state_gas);
    let new_regular: u64 = context.block_regular_gas_used.saturating_add(regular_gas);
    let new_state: u64 = context.block_state_gas_used.saturating_add(state_gas);
    let used: u64 = max_u64(new_regular, new_state);
    if overflows_block(context, report) {
        context.cumulative_gas_spent = spent.saturating_sub(report.gas_spent);
        let mut why = "block gas limit exceeded (state gas overflow): max(".to_owned();
        why.append(decimal_text(new_regular).as_str());
        why.append(", ");
        why.append(decimal_text(new_state).as_str());
        why.append(") = ");
        why.append(decimal_text(used).as_str());
        why.append(" > gas_limit ");
        why.append(decimal_text(context.payload.header.gas_limit).as_str());
        return Err(ChainError::EvmError(EvmError::Custom(why)));
    }
    context.cumulative_gas_spent = spent;
    context.block_regular_gas_used = new_regular;
    context.block_state_gas_used = new_state;
    if context.is_amsterdam {
        context.remaining_gas = context.payload.header.gas_limit.saturating_sub(used);
    } else {
        context.remaining_gas = context.remaining_gas.saturating_sub(report.gas_used);
    }
    proof {
        lemma_word_bound(head.tip);
        assert(head.tip@ * report.gas_spent == report.gas_spent * head.tip@)
            by (nonlinear_arith);
    }
    match head.tip.checked_mul_u64(report.gas_spent) {
        Some(earned) => match context.block_value.checked_add(earned) {
            Some(value) => {
                proof {
                    lemma_word_bound(value);
                    crate::word::lemma_word_ext(value, word_of(value@ as int));
                }
                context.block_value = value;
            },
            None => {},
        },
        None => {},
    }
    Ok(())
}

/// How many blobs a block holds at most: what the rules in force allow, or less where
/// this node is told so.
pub open spec fn blob_limit(protocol_max: Option<u32>, user_max: Option<u32>) -> u32 {
    let protocol: u32 = match protocol_max {
        Some(max) => max,
        None => 0,
    };
    match user_max {
        Some(max) => if max < protocol {
            max
        } else {
            protocol
        },
        None => protocol,
    }
}

pub fn effective_max_blobs(protocol_max: Option<u32>, user_max: Option<u32>) -> (max: usize)
    ensures
        max == blob_limit(protocol_max, user_max),
{
    let protocol: u32 = match protocol_max {
        Some(max) => max,
        None => 0,
    };
    match user_max {
        Some(max) => if max < protocol {
            max as usize
        } else {
            protocol as usize
        },
        None => protocol as usize,
    }
}

/// How many blobs a blob transaction brings: those of its bundle, which it must have, or,
/// where the transactions are given, those that it names. A bundle that the pool may have
/// does not matter then.
pub open spec fn blobs_brought(
    context: ContextView,
    tx: Transaction,
    bundle: Option<usize>,
) -> Option<usize> {
    if context.explicit_build {
        Some(tx.blob_hash_count)
    } else {
        bundle
    }
}

/// What a blob transaction without a bundle is told.
pub open spec fn no_bundle_text(tx: Transaction) -> Seq<char> {
    "No blobs bundle found for blob tx "@ + short_form(tx.hash.bytes())
}

/// Whether a blob transaction may be executed, `bundle` being the number of blobs in
/// its bundle. Gives the number of blobs that it brings.
pub fn admit_blob_transaction(
    context: &PayloadBuildContext,
    tx: &Transaction,
    bundle: Option<usize>,
    max_blobs: usize,
) -> (r: Result<usize, ChainError>)
    ensures
        match r {
            Ok(n) => blobs_brought(context@, *tx, bundle) == Some(n) && context@.blob_count + n
                <= max_blobs,
            Err(ChainError::StoreError(why)) => blobs_brought(context@, *tx, bundle) is None
                && why@ == no_bundle_text(*tx),
            Err(ChainError::EvmError(EvmError::Custom(why))) => (blobs_brought(
                context@,
                *tx,
                bundle,
            ) matches Some(n) && context@.blob_count + n > max_blobs) && why@
                == "max data blobs reached"@,
            Err(_) => false,
        },
{
    let n: usize = if context.explicit_build {
        tx.blob_hash_count
    } else {
        match bundle {
            Some(n) => n,
            None => {
                let mut why = "No blobs bundle found for blob tx ".to_owned();
                why.append(tx.hash.short_text().as_str());
                return Err(ChainError::StoreError(why));
            },
        }
    };
    if n > max_blobs || context.blob_count > max_blobs - n {
        return Err(ChainError::EvmError(EvmError::Custom("max data blobs reached".to_owned())));
    }
    Ok(n)
}

/// The gas of the blobs of a block after `n` more.
pub open spec fn blob_gas_after(header: HeaderView, n: usize) -> int {
    (match header.blob_gas_used {
        Some(gas) => gas as int,
        None => 0,
    }) + n * GAS_PER_BLOB
}

/// The payload after `n` blobs of an executed transaction. Blobs without their data, and
/// all blobs where the transactions are given, count for the gas of the block and not for
/// its bundle.
pub open spec fn blobs_settled(context: ContextView, n: usize, with_data: bool) -> ContextView {
    ContextView {
        payload: BlockView {
            header: HeaderView {
                blob_gas_used: Some(blob_gas_after(context.payload.header, n) as u64),
                ..context.payload.header
            },
            ..context.payload
        },
        blob_count: if with_data && !context.explicit_build {
            (context.blob_count + n) as usize
        } else {
            context.blob_count
        },
        ..context
    }
}

/// Enters the blobs of an executed transaction.
pub fn settle_blobs(context: &mut PayloadBuildContext, n: usize, with_data: bool)
    requires
        blob_gas_after(old(context)@.payload.header, n) <= u64::MAX,
        with_data && !old(context)@.explicit_build ==> old(context)@.blob_count + n <= usize::MAX,
    ensures
        final(context)@ == blobs_settled(old(context)@, n, with_data),
{
    let before: u64 = match context.payload.header.blob_gas_used {
        Some(gas) => gas,
        None => 0,
    };
    context.payload.header.blob_gas_used = Some(before + n as u64 * GAS_PER_BLOB);
    if with_data && !context.explicit_build {
        context.blob_count = context.blob_count + n;
    }
}

/// The payload with one more transaction and its receipt.
pub open spec fn appended(
    context: ContextView,
    head: HeadTransaction,
    receipt: Receipt,
) -> ContextView {
    ContextView {
        payload: BlockView {
            body: crate::block::BodyView {
                transactions: context.payload.body.transactions.push(head.tx.transaction),
                ..context.payload.body
            },
            ..context.payload
        },
        receipts: context.receipts.push(receipt),
        ..context
    }
}

/// Adds an executed transaction and its receipt to the payload.
pub fn add_to_payload(context: &mut PayloadBuildContext, head: &HeadTransaction, receipt: Receipt)
    ensures
        final(context)@ == appended(old(context)@, *head, receipt),
{
    context.payload.body.transactions.push(head.tx.transaction);
    context.receipts.push(receipt);
}

/// A transaction that was executed for a payload, with what is known of it.
pub struct Inclusion {
    pub head: HeadTransaction,
    /// How many blobs the pool has for it.
    pub bundle: Option<usize>,
    /// Whether its blobs come with their data.
    pub with_data: bool,
    pub report: ExecutionReport,
    /// The gas that transactions spent by then.
    pub spent: u64,
    pub receipt: Receipt,
}

impl Inclusion {
    pub open spec fn is_blob(self) -> bool {
        self.head.tx.transaction.tx_type == TxType::EIP4844
    }

    /// How many blobs the transaction names, where it is one with blobs.
    pub open spec fn named_blobs(self) -> nat {
        if self.is_blob() {
            self.head.tx.transaction.blob_hash_count as nat
        } else {
            0
        }
    }
}

/// The payload after a transaction that fits: its gas is counted, then its blobs, and it
/// is added.
pub open spec fn included(context: ContextView, one: Inclusion) -> ContextView {
    let counted = settled(context, one.report, one.head.tip, one.spent);
    let brought = blobs_brought(context, one.head.tx.transaction, one.bundle);
    appended(
        if one.is_blob() {
            blobs_settled(counted, brought->0, one.with_data)
        } else {
            counted
        },
        one.head,
        one.receipt,
    )
}

/// The payload after transactions that fit, one after another.
pub open spec fn all_included(context: ContextView, list: Seq<Inclusion>) -> ContextView
    decreases list.len(),
{
    if list.len() == 0 {
        context
    } else {
        included(all_included(context, list.drop_last()), list.last())
    }
}

/// How many blobs transactions name.
pub open spec fn all_named_blobs(list: Seq<Inclusion>) -> nat
    decreases list.len(),
{
    if list.len() == 0 {
        0
    } else {
        all_named_blobs(list.drop_last()) + list.last().named_blobs()
    }
}

/// A payload of given transactions holds all of them in their order. Its gas for blobs is
/// that of the blobs which they name, and its bundle stays as it was, whatever the pool
/// has for them.
pub proof fn law_given_transactions_bring_no_bundle(context: ContextView, list: Seq<Inclusion>)
    requires
        context.explicit_build,
        blob_gas_after(context.payload.header, 0) + all_named_blobs(list) * GAS_PER_BLOB
            <= u64::MAX,
    ensures
        all_included(context, list).explicit_build,
        all_included(context, list).blob_count == context.blob_count,
        all_included(context, list).payload.body.transactions
            == context.payload.body.transactions + Seq::new(
            list.len(),
            |i: int| list[i].head.tx.transaction,
        ),
        blob_gas_after(all_included(context, list).payload.header, 0) == blob_gas_after(
            context.payload.header,
            0,
        ) + all_named_blobs(list) * GAS_PER_BLOB,
    decreases list.len(),
{
    let after = all_included(context, list).payload.body.transactions;
    if list.len() == 0 {
        assert(after =~= context.payload.body.transactions + Seq::new(
            list.len(),
            |i: int| list[i].head.tx.transaction,
        ));
    } else {
        let rest = list.drop_last();
        law_given_transactions_bring_no_bundle(context, rest);
        assert(after =~= context.payload.body.transactions + Seq::new(
            list.len(),
            |i: int| list[i].head.tx.transaction,
        ));
    }
}

/// The hashes that a finished payload commits to.
pub struct PayloadRoots {
    pub state_root: H256,
    pub transactions_root: H256,
    pub receipts_root: H256,
    /// The hash of the requests, where the payload has any.
    pub requests_hash: Option<H256>,
    /// The hash of the block access list, where one was recorded.
    pub block_access_list_hash: Option<H256>,
    pub logs_bloom: Vec<u8>,
}

/// The header of a finished payload.
pub open spec fn finalized(context: ContextView, roots: PayloadRoots) -> HeaderView {
    HeaderView {
        state_root: roots.state_root,
        transactions_root: roots.transactions_root,
        receipts_root: roots.receipts_root,
        requests_hash: roots.requests_hash,
        gas_used: context.gas_used() as u64,
        block_access_list_hash: roots.block_access_list_hash,
        logs_bloom: roots.logs_bloom@,
        ..context.payload.header
    }
}

/// Writes the hashes that a finished payload commits to, and the gas that it uses, into
/// its header.
pub fn finalize_payload(context: &mut PayloadBuildContext, roots: PayloadRoots)
    requires
        old(context)@.wf(),
        old(context)@.requests is Some <==> roots.requests_hash is Some,
    ensures
        final(context)@.payload.header.requests_hash is Some <==> final(context)@.requests is Some,
        final(context)@ == (ContextView {
            payload: BlockView {
                header: finalized(old(context)@, roots),
                ..old(context)@.payload
            },
            ..old(context)@
        }),
        final(context)@.wf(),
        final(context).payload.header.state_root == roots.state_root,
        final(context).payload.header.transactions_root == roots.transactions_root,
        final(context).payload.header.receipts_root == roots.receipts_root,
        final(context).payload.header.requests_hash == roots.requests_hash,
        final(context).payload.header.block_access_list_hash == roots.block_access_list_hash,
        final(context).payload.header.logs_bloom@ == roots.logs_bloom@,
{
    let gas_used: u64 = context.gas_used();
    context.payload.header.state_root = roots.state_root;
    context.payload.header.transactions_root = roots.transactions_root;
    context.payload.header.receipts_root = roots.receipts_root;
    context.payload.header.requests_hash = roots.requests_hash;
    context.payload.header.gas_used = gas_used;
    context.payload.header.block_access_list_hash = roots.block_access_list_hash;
    context.payload.header.logs_bloom = roots.logs_bloom;
}

/// The logs of the payload, in their order, over which its bloom filter is taken.
pub fn payload_logs(context: &PayloadBuildContext) -> (logs: Vec<Log>)
    ensures
        logs_view(logs@) == all_logs(context@.receipts),
{
    collect_logs(&context.receipts)
}

/// A finished payload.
pub struct PayloadBuildResult {
    pub block_value: U256,
    pub receipts: Vec<Receipt>,
    pub requests: Vec<Vec<u8>>,
    pub payload: Block,
    pub blob_count: usize,
}

impl PayloadBuildResult {
    /// What is left of a payload under construction when it is finished.
    pub fn from_context(context: PayloadBuildContext) -> (r: PayloadBuildResult)
        ensures
            r.block_value == context@.block_value,
            r.receipts@ == context@.receipts,
            r.requests@ == match context@.requests {
                Some(requests) => requests,
                None => Seq::empty(),
            },
            r.payload@ == context@.payload,
            r.blob_count == context@.blob_count,
    {
        let PayloadBuildContext { block_value, receipts, requests, payload, blob_count, .. } = context;
        PayloadBuildResult {
            block_value,
            receipts,
            requests: match requests {
                Some(requests) => requests,
                None => Vec::new(),
            },
            payload,
            blob_count,
        }
    }
}

} // verus!
