//! What the functions at the centre of the library give, whatever they are given.

use crate::account::{
    codes_view, AccountInfo, AccountStatus, AccountUpdate, Code, LevmAccount,
};
use crate::block::{collect_logs, Block, Log, Receipt};
use crate::blockchain::admission::{
    validate_transaction, AdmissionFacts, AdmissionRules, Admitted, Head, MempoolError,
};
use crate::blockchain::assembly::{contents_after, slot_writes, SlotWrite};
use crate::blockchain::batch::{bals_to_store, log_batch_progress};
use crate::blockchain::pipeline::{plan_pipeline, PipelinePlan};
use crate::blockchain::witness::{deduplicate, embedded_root};
use crate::blockchain::BlockchainOptions;
use crate::chain_error::ChainError;
use crate::config::ChainConfig;
use crate::error::InternalError;
use crate::laws::admission::{
    authorizes, fits, full_cost, law_full_cost, law_sound_transactions_are_admitted,
    may_send, no_gap_under_pressure, priced, started, word_limit,
};
use crate::laws::transitions::{law_update_tells_the_difference, nothing_left};
use crate::payload::create::{
    calc_gas_limit, create_payload, BuildPayloadArgs, BuildPayloadArgsError, PayloadParent,
};
use crate::payload::slots::{build_phases, BuildPhase};
use crate::table::Table;
use crate::transaction::{Transaction, TxType};
use crate::transitions::account_update;
use crate::word::{be_value, Address, H256, U256};
use vstd::prelude::*;

verus! {

/// Whether an ordinary transaction is taken into the mempool: exactly where it is for this
/// chain, fits, is priced well, sets code where it should, has a nonce that is not used and
/// a sender that may send it and can pay for it besides all that waits, and leaves no gap
/// under pressure.
pub proof fn law_ordinary_transaction_is_validated(
    tx: Transaction,
    rules: AdmissionRules,
    facts: AdmissionFacts,
    head: Head,
    info: AccountInfo,
    gas: u64,
    pending: U256,
    replaces: Option<H256>,
    r: Result<Admitted, MempoolError>,
)
    requires
        call_ensures(validate_transaction, (&tx, &rules, facts), r),
        !(tx.tx_type is Privileged),
        !(tx.tx_type is Frame),
        facts.before.head == Ok::<Option<Head>, MempoolError>(Some(head)),
        facts.before.sender == Ok::<Option<AccountInfo>, MempoolError>(Some(info)),
        facts.before.intrinsic_gas == Ok::<u64, MempoolError>(gas),
        facts.before.pool.pending_cost == Ok::<U256, MempoolError>(pending),
        facts.before.pool.replaces == Ok::<Option<H256>, MempoolError>(replaces),
    ensures
        r is Ok <==> {
            &&& rules.kind is L1 ==> !(tx.tx_type is FeeToken)
            &&& fits(tx, rules.config, rules.limits, head)
            &&& priced(tx, rules.limits, gas)
            &&& authorizes(tx, rules.config, head)
            &&& info.nonce <= tx.nonce < 0xffff_ffff_ffff_ffff
            &&& may_send(info, facts.before.sender_code)
            &&& pending@ + full_cost(tx) <= info.balance@
            &&& tx.chain_id is Some ==> tx.chain_id->0 == rules.config.chain_id
            &&& no_gap_under_pressure(tx, info.nonce, rules.gap_threshold, facts.before.pool)
        },
        r matches Ok(admitted) ==> admitted.replaces == replaces && admitted.reservation is None
            && admitted.account_nonce == Some(info.nonce),
{
    law_sound_transactions_are_admitted(
        tx,
        rules,
        facts,
        head,
        info,
        gas,
        pending,
        replaces,
        r,
    );
}

/// How a cached account is compared with its baseline: nothing is told exactly where the two
/// agree, and otherwise an update with the new fields where one differs, the code that is
/// cached under the new hash where the hash differs, empty baseline or not, and every slot
/// whose value differs.
pub proof fn law_accounts_are_compared(
    address: Address,
    initial: LevmAccount,
    current: LevmAccount,
    codes: Table<H256, Code>,
    detailed: bool,
    r: Result<Option<AccountUpdate>, InternalError>,
    k: H256,
)
    requires
        call_ensures(account_update, (address, &initial, &current, &codes, detailed), r),
    ensures
        ({
            let recoded = initial.info.code_hash != current.info.code_hash;
            let differs = initial.info.nonce != current.info.nonce || initial.info.balance@
                != current.info.balance@ || recoded;
            let reborn = current.status == AccountStatus::DestroyedModified;
            let old = if reborn {
                0
            } else {
                initial.storage@[k]@
            };
            let written = current.storage@.contains_key(k) && current.storage@[k]@ != old;
            let lost = reborn && initial.has_storage;
            let gone = nothing_left(current@) && !nothing_left(initial@);
            &&& recoded && !codes@.contains_key(current.info.code_hash) ==> r is Err
            &&& !reborn && current.storage@.contains_key(k) && !initial.storage@.contains_key(k)
                ==> r is Err
            &&& r == Ok::<Option<AccountUpdate>, InternalError>(None) ==> !differs && !written
                && !lost && !gone
            &&& r matches Ok(Some(update)) ==> {
                &&& update.address == address
                &&& update.removed <==> gone
                &&& update.removed_storage <==> lost
                &&& update.info is Some <==> differs
                &&& update.info matches Some(info) ==> info == current.info
                &&& update.code is Some <==> recoded
                &&& update.code matches Some(code) ==> codes@.contains_key(
                    current.info.code_hash,
                ) && code@ == codes@[current.info.code_hash]@
                &&& update.added_storage@.contains_key(k) <==> written
                &&& written ==> update.added_storage@[k] == current.storage@[k]
            }
        }),
{
    let view = crate::transitions::update_of(
        address,
        initial@,
        current@,
        codes_view(codes@),
    );
    law_update_tells_the_difference(
        address,
        initial@,
        current@,
        codes_view(codes@),
        view,
        k,
    );
    if !(current.status == AccountStatus::DestroyedModified) && current.storage@.contains_key(k)
        && !initial.storage@.contains_key(k) {
        assert(crate::transitions::unmatched(initial@, current@, k));
    }
}

/// The block that a payload starts from is the child that was asked for.
pub proof fn law_payload_is_created(
    args: BuildPayloadArgs,
    parent: PayloadParent,
    config: ChainConfig,
    extra_data: Vec<u8>,
    block: Block,
)
    requires
        call_ensures(create_payload, (&args, &parent, &config, extra_data), block),
        parent.gas_limit >= 1024,
    ensures
        block.header.parent_hash == args.parent,
        block.header.coinbase == args.fee_recipient,
        block.header.state_root == parent.state_root,
        parent.number < u64::MAX ==> block.header.number == parent.number + 1,
        block.header.timestamp == args.timestamp,
        block.header.prev_randao == args.random,
        block.header.base_fee_per_gas == parent.base_fee_per_gas,
        block.header.excess_blob_gas == parent.excess_blob_gas,
        block.header.parent_beacon_block_root == args.beacon_root,
        block.header.slot_number == args.slot_number,
        block.header.extra_data@ == extra_data@,
        block.header.gas_used == 0,
        block.header.withdrawals_root is Some <==> started(config.shanghai_time, args.timestamp),
        block.header.blob_gas_used is Some <==> started(config.cancun_time, args.timestamp),
        block.header.requests_hash is Some <==> started(config.prague_time, args.timestamp),
        block.body.transactions@.len() == 0,
        block.body.withdrawals is Some <==> args.withdrawals is Some,
        args.withdrawals matches Some(list) ==> block.body.withdrawals->0@ == list@,
{
    let view = crate::payload::create::payload_start(args, parent, config, extra_data@);
    assert(block@ == view);
    assert(block@.header == view.header);
    assert(block@.body == view.body);
    assert(block@.header.parent_hash == block.header.parent_hash);
    assert(block@.body.withdrawals == crate::block::optional_view(block.body.withdrawals));
}

/// The next gas limit goes towards the ceiling by less than a 1024th of the parent's.
pub proof fn law_gas_limit_is_computed(parent: u64, ceil: u64, limit: u64)
    requires
        call_ensures(calc_gas_limit, (parent, ceil), limit),
        parent >= 1024,
    ensures
        ({
            let aim = if ceil > 5000 {
                ceil as int
            } else {
                5000
            };
            let step = parent as int / 1024 - 1;
            limit == if aim > parent + step {
                parent + step
            } else if aim < parent - step {
                parent - step
            } else {
                aim
            }
        }),
{
}

/// The identifier of a payload is its version and seven bytes of the digest.
pub proof fn law_identifier_is_made(
    args: BuildPayloadArgs,
    digest: &[u8],
    r: Result<u64, BuildPayloadArgsError>,
)
    requires
        call_ensures(BuildPayloadArgs::id, (&args, digest), r),
    ensures
        digest@.len() < 8 ==> r is Err,
        digest@.len() >= 8 ==> r is Ok && r->Ok_0 == be_value(
            seq![
                args.version,
                digest@[1],
                digest@[2],
                digest@[3],
                digest@[4],
                digest@[5],
                digest@[6],
                digest@[7],
            ],
        ),
{
    if digest@.len() >= 8 {
        assert(seq![args.version] + digest@.subrange(1, 8) =~= seq![
            args.version,
            digest@[1],
            digest@[2],
            digest@[3],
            digest@[4],
            digest@[5],
            digest@[6],
            digest@[7],
        ]);
    }
}

/// What a transaction earns and can cost.
pub proof fn law_fees_of_a_transaction(
    tx: Transaction,
    base_fee: Option<u64>,
    tip: Option<U256>,
    cost: Option<U256>,
    byte: u8,
    rollup: bool,
)
    requires
        call_ensures(Transaction::effective_gas_tip, (&tx, base_fee), tip),
        call_ensures(Transaction::cost_without_base_fee, (&tx,), cost),
        call_ensures(TxType::wire_byte, (&tx.tx_type,), byte),
        call_ensures(TxType::is_l2_only, (&tx.tx_type,), rollup),
    ensures
        tip is Some <==> base_fee is None || tx.gas_fee_cap@ >= base_fee->0,
        tip matches Some(t) ==> t@ <= tx.gas_tip_cap@ && (base_fee is Some ==> t@ + base_fee->0
            <= tx.gas_fee_cap@) && (t@ == tx.gas_tip_cap@ || (base_fee is Some && t@
            + base_fee->0 == tx.gas_fee_cap@)),
        cost is Some <==> full_cost(tx) < word_limit(),
        cost matches Some(c) ==> c@ == full_cost(tx),
        byte == match tx.tx_type {
            TxType::Legacy => 0u8,
            TxType::EIP2930 => 1,
            TxType::EIP1559 => 2,
            TxType::EIP4844 => 3,
            TxType::EIP7702 => 4,
            TxType::Frame => 6,
            TxType::FeeToken => 125,
            TxType::Privileged => 126,
        },
        rollup <==> tx.tx_type is FeeToken || tx.tx_type is Privileged,
{
    law_full_cost(tx);
    crate::laws::admission::law_tip_is_the_smaller_bound(tx, base_fee);
    if cost is Some {
        crate::word::lemma_word_bound(cost->0);
    }
}

/// The parts of the building of a payload.
pub proof fn law_phases_are_built(
    l1: bool,
    explicit: bool,
    amsterdam: bool,
    prague: bool,
    list: Vec<BuildPhase>,
)
    requires
        call_ensures(build_phases, (l1, explicit, amsterdam, prague), list),
    ensures
        list@.len() >= 3,
        list@[list@.len() - 1] is Finalize,
        list@[list@.len() - 2] is Withdrawals,
        prague ==> list@[list@.len() - 3] is ExtractRequests,
        l1 ==> list@[0] is SystemOperations,
        !l1 && explicit ==> list@[0] is FillExplicit,
        !l1 && !explicit ==> list@[0] is FillFromPool,
        l1 && explicit ==> list@[1] is FillExplicit,
        l1 && !explicit ==> list@[1] is FillFromPool,
{
}

/// The plan for a block, from the options.
pub proof fn law_pipeline_is_planned(
    options: BlockchainOptions,
    with_bal: bool,
    witness: bool,
    p: PipelinePlan,
)
    requires
        call_ensures(plan_pipeline, (&options, with_bal, witness), p),
    ensures
        p.parallel_exec <==> options.bal_parallel_exec_enabled && !witness,
        p.optimistic <==> options.bal_parallel_trie_enabled && !witness && with_bal,
        p.prefetch_storage <==> options.bal_prefetch_enabled && !witness && with_bal,
        p.channel <==> !(p.optimistic && p.parallel_exec),
        witness ==> p.warming is Absent,
        !witness && !with_bal ==> p.warming is Speculative,
        !witness && with_bal && options.bal_prefetch_enabled ==> p.warming is FromAccessList,
        !witness && with_bal && !options.bal_prefetch_enabled
            && !options.bal_parallel_exec_enabled ==> p.warming is Speculative,
        !witness && with_bal && !options.bal_prefetch_enabled
            && options.bal_parallel_exec_enabled ==> p.warming is Idle,
{
}

/// What is done to the slots of an account leads its storage trie to hold exactly the value
/// of a slot under its key, nothing where it is zero, where no other slot has the key.
pub proof fn law_slots_are_written(
    slots: Vec<(H256, U256)>,
    writes: Vec<SlotWrite>,
    trie: Map<H256, U256>,
    i: int,
)
    requires
        call_ensures(slot_writes, (&slots,), writes),
        0 <= i < slots@.len(),
        forall|j: int|
            0 <= j < slots@.len() && j != i ==> (#[trigger] slots@[j]).0 != slots@[i].0,
    ensures
        slots@[i].1@ == 0 ==> !contents_after(trie, writes@).contains_key(slots@[i].0),
        slots@[i].1@ != 0 ==> contents_after(trie, writes@).contains_key(slots@[i].0)
            && contents_after(trie, writes@)[slots@[i].0] == slots@[i].1,
{
    crate::laws::storage::law_storage_trie_holds_the_slot(trie, slots@, i);
}

/// The access lists of a batch that are kept are those that hash to what their headers name.
pub proof fn law_lists_of_a_batch_are_kept(
    matches: Vec<Option<bool>>,
    kept: Vec<usize>,
    i: int,
    k: int,
) -> (at: int)
    requires
        call_ensures(bals_to_store, (&matches,), kept),
        0 <= i < matches@.len() <= usize::MAX,
        matches@[i] == Some(true),
        0 <= k < kept@.len(),
    ensures
        0 <= at < kept@.len(),
        kept@[at] == i,
        kept@[k] < matches@.len(),
        matches@[kept@[k] as int] == Some(true),
{
    crate::laws::batch::law_kept_list_matches(matches@, matches@.len() as int, k);
    crate::laws::batch::law_matching_list_is_kept(matches@, matches@.len() as int, i)
}

/// A block of a batch is reported on at a fifth, two, three and four fifths of it.
pub proof fn law_batch_is_reported_on(size: u32, current: u32, marks: Vec<u32>, mark: u32)
    requires
        call_ensures(log_batch_progress, (size, current), marks),
    ensures
        marks@.contains(mark) <==> size > 10 && (mark == 20 || mark == 40 || mark == 60 || mark
            == 80) && size * mark / 100 == current,
{
    crate::laws::batch::law_batch_marks(size, current, mark);
}

/// Every key that was read is there once, and no other.
pub proof fn law_keys_are_deduplicated(keys: Vec<H256>, distinct: Vec<H256>, key: H256)
    requires
        call_ensures(deduplicate, (&keys,), distinct),
    ensures
        distinct@.no_duplicates(),
        distinct@.contains(key) <==> keys@.contains(key),
{
    crate::blockchain::witness::law_deduplicated_keys(keys@);
    assert(distinct@.to_set().contains(key) <==> keys@.to_set().contains(key));
}

/// A witness without the root of a storage trie is an error.
pub proof fn law_root_must_be_there<N>(node: Option<N>, r: Result<N, ChainError>)
    requires
        call_ensures(embedded_root::<N>, (node,), r),
    ensures
        r is Ok <==> node is Some,
        r matches Ok(n) ==> node->0 == n,
{
}

/// The logs of receipts are gathered: each is there, behind those of the receipts before it
/// and the earlier ones of its own receipt.
pub proof fn law_logs_are_gathered(receipts: Vec<Receipt>, logs: Vec<Log>, i: int, j: int)
    requires
        call_ensures(collect_logs, (&receipts,), logs),
        0 <= i < receipts@.len(),
        0 <= j < receipts@[i].logs@.len(),
    ensures
        ({
            let at = crate::block::all_logs(receipts@.take(i)).len() + j;
            &&& at < logs@.len()
            &&& logs@[at].address == receipts@[i].logs@[j].address
            &&& logs@[at].topics@ == receipts@[i].logs@[j].topics@
            &&& logs@[at].data@ == receipts@[i].logs@[j].data@
        }),
{
    crate::laws::texts::law_logs_keep_their_order(receipts@, i, j);
    let at = crate::block::all_logs(receipts@.take(i)).len() + j;
    let seen = crate::block::logs_view(logs@);
    assert(seen == crate::block::all_logs(receipts@));
    assert(seen[at] == logs@[at]@);
}

} // verus!
