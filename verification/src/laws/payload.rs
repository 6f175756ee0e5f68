//! What goes into a payload, and what its block says of it.

use crate::account::empty_trie;
use crate::bal::{EventView, RecorderView};
use crate::block::{Block, BlockView, HeaderView, Receipt, Withdrawal};
use crate::config::ChainConfig;
use crate::laws::admission::started;
use crate::payload::context::{
    appended, blob_limit, blobs_brought, blobs_settled, context_start, finalized,
    minus, overflows, plus, settled, ContextView, ExecutionReport, PayloadRoots,
};
use crate::payload::create::{
    id_of, next_gas_limit, payload_start, BuildPayloadArgs, PayloadParent,
};
use crate::payload::fill::{
    access_index, given_head, recipients_told, step_of, tx_begun, FillRules, FillStep,
};
use crate::payload::queue::{HeadTransaction, QueueView};
use crate::payload::slots::{phases, with_payload};
use crate::transaction::Transaction;
use crate::word::{
    be_value, law_bytes_spell_their_number, law_hash_and_address_bytes, lemma_pow256_values,
    lemma_word_of, Address, U256,
};
use vstd::prelude::*;

verus! {

/// A block is seen as it is: every field of its header, its transactions and its
/// withdrawals.
pub proof fn law_block_is_seen_as_it_is(block: Block)
    ensures
        ({
            let header = block.header;
            let seen = block@.header;
            &&& seen.parent_hash == header.parent_hash
            &&& seen.ommers_hash == header.ommers_hash
            &&& seen.coinbase == header.coinbase
            &&& seen.state_root == header.state_root
            &&& seen.transactions_root == header.transactions_root
            &&& seen.receipts_root == header.receipts_root
            &&& seen.logs_bloom == header.logs_bloom@
            &&& seen.difficulty == header.difficulty
            &&& seen.number == header.number
            &&& seen.gas_limit == header.gas_limit
            &&& seen.gas_used == header.gas_used
            &&& seen.timestamp == header.timestamp
            &&& seen.extra_data == header.extra_data@
            &&& seen.prev_randao == header.prev_randao
            &&& seen.nonce == header.nonce
            &&& seen.base_fee_per_gas == header.base_fee_per_gas
            &&& seen.withdrawals_root == header.withdrawals_root
            &&& seen.blob_gas_used == header.blob_gas_used
            &&& seen.excess_blob_gas == header.excess_blob_gas
            &&& seen.parent_beacon_block_root == header.parent_beacon_block_root
            &&& seen.requests_hash == header.requests_hash
            &&& seen.block_access_list_hash == header.block_access_list_hash
            &&& seen.slot_number == header.slot_number
            &&& block@.body.transactions == block.body.transactions@
            &&& block@.body.withdrawals is Some <==> block.body.withdrawals is Some
            &&& block.body.withdrawals matches Some(list) ==> block@.body.withdrawals->0 == list@
        }),
{
}

/// Two headers agree in what is fixed when a payload is begun.
pub open spec fn same_beginning(a: HeaderView, b: HeaderView) -> bool {
    &&& a.parent_hash == b.parent_hash
    &&& a.ommers_hash == b.ommers_hash
    &&& a.coinbase == b.coinbase
    &&& a.difficulty == b.difficulty
    &&& a.number == b.number
    &&& a.gas_limit == b.gas_limit
    &&& a.timestamp == b.timestamp
    &&& a.extra_data == b.extra_data
    &&& a.prev_randao == b.prev_randao
    &&& a.nonce == b.nonce
    &&& a.base_fee_per_gas == b.base_fee_per_gas
    &&& a.withdrawals_root == b.withdrawals_root
    &&& a.excess_blob_gas == b.excess_blob_gas
    &&& a.parent_beacon_block_root == b.parent_beacon_block_root
    &&& a.slot_number == b.slot_number
}

/// A finished payload commits to what was computed of its content: the roots of the
/// state, of the transactions and of the receipts, the hashes of the requests and of the
/// block access list, and the bloom filter of the logs are those that were computed. The
/// gas that it uses is the larger of the two sums where gas for state is counted apart,
/// and otherwise what is missing of its limit. The rest of its header stays.
pub proof fn law_finished_header_commits_to_its_content(context: ContextView, roots: PayloadRoots)
    requires
        context.wf(),
    ensures
        ({
            let header = finalized(context, roots);
            let was = context.payload.header;
            &&& header.state_root == roots.state_root
            &&& header.transactions_root == roots.transactions_root
            &&& header.receipts_root == roots.receipts_root
            &&& header.requests_hash == roots.requests_hash
            &&& header.block_access_list_hash == roots.block_access_list_hash
            &&& header.logs_bloom == roots.logs_bloom@
            &&& context.amsterdam ==> header.gas_used >= context.regular && header.gas_used
                >= context.state && (header.gas_used == context.regular || header.gas_used
                == context.state)
            &&& header.gas_used + context.remaining_gas == header.gas_limit
            &&& header.blob_gas_used == was.blob_gas_used
            &&& same_beginning(header, was)
        }),
{
}

/// The block that a payload starts from is the child of the parent that was asked for: it
/// has the parent's hash and state root and the next number, the recipient, the time, the
/// randomness, the beacon root and the slot that were asked for, and the fees of the
/// parent. It holds nothing yet: the roots of empty tries, an empty bloom filter, no gas
/// used and no transactions, and the fields of each set of rules exactly where those have
/// started. The withdrawals that were asked for wait in its body.
pub proof fn law_payload_starts_as_asked(
    args: BuildPayloadArgs,
    parent: PayloadParent,
    config: ChainConfig,
    extra_data: Seq<u8>,
)
    requires
        parent.gas_limit >= 1024,
    ensures
        ({
            let block = payload_start(args, parent, config, extra_data);
            let header = block.header;
            &&& header.parent_hash == args.parent
            &&& header.coinbase == args.fee_recipient
            &&& header.state_root == parent.state_root
            &&& header.transactions_root == empty_trie()
            &&& header.receipts_root == empty_trie()
            &&& header.logs_bloom.len() == 256
            &&& forall|i: int| 0 <= i < 256 ==> #[trigger] header.logs_bloom[i] == 0
            &&& header.difficulty@ == 0
            &&& parent.number < 0xffff_ffff_ffff_ffff ==> header.number == parent.number + 1
            &&& header.gas_used == 0
            &&& header.timestamp == args.timestamp
            &&& header.extra_data == extra_data
            &&& header.prev_randao == args.random
            &&& header.nonce == 0
            &&& header.base_fee_per_gas == parent.base_fee_per_gas
            &&& header.excess_blob_gas == parent.excess_blob_gas
            &&& header.parent_beacon_block_root == args.beacon_root
            &&& header.slot_number == args.slot_number
            &&& header.block_access_list_hash is None
            &&& header.withdrawals_root == if started(config.shanghai_time, args.timestamp) {
                Some(parent.withdrawals_root)
            } else {
                None
            }
            &&& header.blob_gas_used == if started(config.cancun_time, args.timestamp) {
                Some(0u64)
            } else {
                None
            }
            &&& header.requests_hash is Some <==> started(config.prague_time, args.timestamp)
            &&& block.body.transactions.len() == 0
            &&& block.body.withdrawals is Some <==> args.withdrawals is Some
            &&& args.withdrawals matches Some(list) ==> block.body.withdrawals->0 == list@
        }),
{
}

/// The next gas limit is the one that the builder aims at, 5000 at least, where that is
/// less than a 1024th of the parent's away, and otherwise the one closest to it that is.
pub proof fn law_gas_limit_moves_to_the_ceiling(parent: u64, ceil: u64)
    requires
        parent >= 1024,
    ensures
        ({
            let aim = if ceil > 5000 {
                ceil as int
            } else {
                5000
            };
            let step = parent as int / 1024;
            let next = next_gas_limit(parent, ceil);
            &&& -step < aim - parent < step ==> next == aim
            &&& aim - parent >= step ==> next == parent + step - 1
            &&& parent - aim >= step ==> next == parent - step + 1
        }),
{
}

/// The identifier of a payload is spelled by its version and the second to eighth byte of
/// the digest.
pub proof fn law_identifier_bytes(version: u8, digest: Seq<u8>, bytes: Seq<u8>)
    requires
        digest.len() >= 8,
        bytes.len() == 8,
        bytes[0] == version,
        forall|i: int| 1 <= i < 8 ==> bytes[i] == #[trigger] digest[i],
    ensures
        id_of(version, digest) == be_value(bytes),
{
    assert(seq![version] + digest.subrange(1, 8) =~= bytes);
}

/// What identifies a payload spells, one after the other, the parent's hash, the
/// timestamp, the randomness and the fee recipient; then come the withdrawals, where there
/// are any, and the beacon root; and from version four on the slot number and the gas
/// ceiling end it.
pub proof fn law_preimage_spells_the_arguments(args: BuildPayloadArgs, withdrawals: Seq<u8>)
    ensures
        ({
            let bytes = args.preimage(withdrawals);
            let listed = if args.withdrawals is Some {
                withdrawals
            } else {
                Seq::<u8>::empty()
            };
            let middle = (92 + listed.len()) as int;
            let root = if args.beacon_root is Some {
                32int
            } else {
                0
            };
            let slot = if args.slot_number is Some {
                8int
            } else {
                0
            };
            let end = middle + root;
            &&& bytes.len() == end + if args.version >= 4 {
                slot + 8
            } else {
                0
            }
            &&& be_value(bytes.subrange(0, 32)) == args.parent@
            &&& be_value(bytes.subrange(32, 40)) == args.timestamp
            &&& be_value(bytes.subrange(40, 72)) == args.random@
            &&& be_value(bytes.subrange(72, 92)) == args.fee_recipient@
            &&& bytes.subrange(92, middle) == listed
            &&& args.beacon_root matches Some(hash) ==> be_value(
                bytes.subrange(middle, middle + 32),
            ) == hash@
            &&& args.version >= 4 ==> be_value(bytes.subrange(end + slot, end + slot + 8))
                == args.gas_ceil
            &&& args.version >= 4 && args.slot_number is Some ==> be_value(
                bytes.subrange(end, end + 8),
            ) == args.slot_number->0
        }),
{
    let bytes = args.preimage(withdrawals);
    let listed = if args.withdrawals is Some {
        withdrawals
    } else {
        Seq::<u8>::empty()
    };
    lemma_pow256_values();
    law_hash_and_address_bytes(args.parent, args.fee_recipient);
    law_hash_and_address_bytes(args.random, args.fee_recipient);
    law_bytes_spell_their_number(args.timestamp as nat, 8);
    law_bytes_spell_their_number(args.gas_ceil as nat, 8);
    let middle = (92 + listed.len()) as int;
    let root = if args.beacon_root is Some {
        32int
    } else {
        0
    };
    let slot = if args.slot_number is Some {
        8int
    } else {
        0
    };
    let end = middle + root;
    if args.beacon_root is Some {
        law_hash_and_address_bytes(args.beacon_root->0, args.fee_recipient);
    }
    if args.slot_number is Some {
        law_bytes_spell_their_number(args.slot_number->0 as nat, 8);
    }
    assert(bytes.subrange(0, 32) =~= args.parent.bytes());
    assert(bytes.subrange(32, 40) =~= crate::word::be_bytes(args.timestamp as nat, 8));
    assert(bytes.subrange(40, 72) =~= args.random.bytes());
    assert(bytes.subrange(72, 92) =~= args.fee_recipient.bytes());
    assert(bytes.subrange(92, middle) =~= listed);
    if args.beacon_root is Some {
        assert(bytes.subrange(middle, middle + 32) =~= args.beacon_root->0.bytes());
    }
    if args.version >= 4 {
        assert(bytes.subrange(end + slot, end + slot + 8) =~= crate::word::be_bytes(
            args.gas_ceil as nat,
            8,
        ));
        if args.slot_number is Some {
            assert(bytes.subrange(end, end + 8) =~= crate::word::be_bytes(
                args.slot_number->0 as nat,
                8,
            ));
        }
    }
}

/// A payload begins with all of its gas left, nothing spent, earned or received, no blobs
/// and the size of its block; gas for state is counted apart, and requests are gathered,
/// where the rules for that have started.
pub proof fn law_context_starts_empty(
    payload: BlockView,
    config: ChainConfig,
    fee: U256,
    size: u64,
)
    ensures
        ({
            let context = context_start(payload, config, fee, size);
            &&& context.payload == payload
            &&& context.remaining_gas == payload.header.gas_limit
            &&& context.cumulative_gas_spent == 0
            &&& context.regular == 0
            &&& context.state == 0
            &&& context.amsterdam <==> started(config.amsterdam_time, payload.header.timestamp)
            &&& context.receipts.len() == 0
            &&& context.requests is Some <==> started(
                config.prague_time,
                payload.header.timestamp,
            )
            &&& context.requests matches Some(list) ==> list.len() == 0
            &&& context.block_value@ == 0
            &&& context.base_fee_per_blob_gas == fee
            &&& context.blob_count == 0
            &&& context.payload_size == size
            &&& !context.explicit_build
        }),
{
}

/// Two payloads under construction differ at most in their counters of gas and in what
/// they earn.
pub open spec fn same_content(a: ContextView, b: ContextView) -> bool {
    &&& a.payload == b.payload
    &&& a.amsterdam == b.amsterdam
    &&& a.receipts == b.receipts
    &&& a.requests == b.requests
    &&& a.base_fee_per_blob_gas == b.base_fee_per_blob_gas
    &&& a.blob_count == b.blob_count
    &&& a.payload_size == b.payload_size
    &&& a.explicit_build == b.explicit_build
}

/// An executed transaction that fits earns its tip for each unit of gas that its sender
/// pays for. Where gas for state is counted apart, its gas goes to the two sums, and what
/// is left of the limit is what the larger sum leaves; otherwise what it used is taken off
/// what was left. It does not fit exactly where gas for state is counted apart and one of
/// the two sums would be above the limit.
pub proof fn law_transaction_is_entered(
    context: ContextView,
    report: ExecutionReport,
    tip: U256,
    spent: u64,
)
    requires
        context.block_value@ + report.gas_spent * tip@ < crate::word::two_256(),
        report.state_gas_used <= report.gas_used,
        context.regular + report.gas_used <= u64::MAX,
        context.state + report.gas_used <= u64::MAX,
    ensures
        ({
            let after = settled(context, report, tip, spent);
            let limit = context.payload.header.gas_limit;
            let regular = context.regular + (report.gas_used - report.state_gas_used);
            let state = context.state + report.state_gas_used;
            &&& overflows(context, report) <==> context.amsterdam && (regular > limit || state
                > limit)
            &&& after.block_value@ == context.block_value@ + report.gas_spent * tip@
            &&& after.cumulative_gas_spent == spent
            &&& after.regular == regular
            &&& after.state == state
            &&& context.amsterdam && !overflows(context, report) ==> after.remaining_gas == limit
                - (if regular >= state {
                regular
            } else {
                state
            })
            &&& !context.amsterdam && report.gas_used <= context.remaining_gas
                ==> after.remaining_gas == context.remaining_gas - report.gas_used
            &&& !context.amsterdam && report.gas_used > context.remaining_gas
                ==> after.remaining_gas == 0
            &&& same_content(after, context)
        }),
{
    lemma_word_of((context.block_value@ + report.gas_spent * tip@) as int);
}

/// A block holds at most as many blobs as the rules allow, and as this node is told.
pub proof fn law_blob_limit_is_the_smaller(protocol: Option<u32>, user: Option<u32>)
    ensures
        ({
            let limit = blob_limit(protocol, user);
            let allowed = match protocol {
                Some(n) => n as int,
                None => 0,
            };
            &&& limit <= allowed
            &&& user matches Some(n) ==> limit <= n
            &&& limit == allowed || (user is Some && limit == user->0)
        }),
{
}

/// The blobs of a transaction are those of its bundle, or those that it names where the
/// transactions are given. Each adds 131072 to the gas for blobs in the header, and to the
/// blobs of the bundle where they come with their data and the transactions are not given.
/// Nothing else changes.
pub proof fn law_blobs_are_entered(
    context: ContextView,
    tx: Transaction,
    bundle: Option<usize>,
    n: usize,
    with_data: bool,
)
    requires
        (match context.payload.header.blob_gas_used {
            Some(gas) => gas as int,
            None => 0,
        }) + n * 131072 <= u64::MAX,
        context.blob_count + n <= usize::MAX,
    ensures
        blobs_brought(context, tx, bundle) == if context.explicit_build {
            Some(tx.blob_hash_count)
        } else {
            bundle
        },
        ({
            let after = blobs_settled(context, n, with_data);
            let was = context.payload.header;
            let now = after.payload.header;
            &&& now.blob_gas_used is Some
            &&& now.blob_gas_used->0 == (match was.blob_gas_used {
                Some(gas) => gas as int,
                None => 0,
            }) + n * 131072
            &&& after.blob_count == if with_data && !context.explicit_build {
                context.blob_count + n
            } else {
                context.blob_count as int
            }
            &&& same_beginning(now, was)
            &&& now.state_root == was.state_root
            &&& now.transactions_root == was.transactions_root
            &&& now.receipts_root == was.receipts_root
            &&& now.logs_bloom == was.logs_bloom
            &&& now.gas_used == was.gas_used
            &&& now.requests_hash == was.requests_hash
            &&& now.block_access_list_hash == was.block_access_list_hash
            &&& after.payload.body == context.payload.body
            &&& after.remaining_gas == context.remaining_gas
            &&& after.cumulative_gas_spent == context.cumulative_gas_spent
            &&& after.regular == context.regular
            &&& after.state == context.state
            &&& after.amsterdam == context.amsterdam
            &&& after.receipts == context.receipts
            &&& after.requests == context.requests
            &&& after.block_value == context.block_value
            &&& after.payload_size == context.payload_size
            &&& after.explicit_build == context.explicit_build
        }),
{
    assert(crate::transaction::GAS_PER_BLOB == 131072);
}

/// A transaction that is added comes last, and so does its receipt; nothing else of the
/// payload changes.
pub proof fn law_transaction_is_added_last(
    context: ContextView,
    head: HeadTransaction,
    receipt: Receipt,
)
    ensures
        ({
            let after = appended(context, head, receipt);
            let was = context.payload.body.transactions;
            let now = after.payload.body.transactions;
            &&& now.len() == was.len() + 1
            &&& now[was.len() as int] == head.tx.transaction
            &&& forall|i: int| 0 <= i < was.len() ==> #[trigger] now[i] == was[i]
            &&& after.receipts.len() == context.receipts.len() + 1
            &&& after.receipts[context.receipts.len() as int] == receipt
            &&& forall|i: int|
                0 <= i < context.receipts.len() ==> #[trigger] after.receipts[i]
                    == context.receipts[i]
            &&& after.payload.header == context.payload.header
            &&& after.payload.body.withdrawals == context.payload.body.withdrawals
            &&& after.remaining_gas == context.remaining_gas
            &&& after.cumulative_gas_spent == context.cumulative_gas_spent
            &&& after.regular == context.regular
            &&& after.state == context.state
            &&& after.block_value == context.block_value
            &&& after.requests == context.requests
            &&& after.blob_count == context.blob_count
            &&& after.payload_size == context.payload_size
        }),
{
}

/// The queue of blob transactions while the block can take more blobs.
pub open spec fn takes_blobs(blob: QueueView, context: ContextView, rules: FillRules) -> bool {
    blob.heads.len() > 0 && context.blob_count < rules.max_blobs
}

/// Where 21000 units of gas are left and a transaction waits, the first plain one or the
/// first one with blobs is next: the one with blobs where no plain one waits or it is
/// ahead of it, as long as the block can take more blobs. It is passed over where its gas
/// limit, or the most that is set aside, is more than what is left. The payload is full
/// where the limit on its size has started and would be passed. A transaction that binds a
/// chain too early, or a frame transaction that comes too early or too late, has to leave.
/// Every other one is run.
pub proof fn law_next_transaction_is_run(
    plain: QueueView,
    blob: QueueView,
    context: ContextView,
    rules: FillRules,
)
    requires
        context.payload_size <= u64::MAX - 0x1_0000_0000,
    ensures
        ({
            let step = step_of(plain, blob, context, rules);
            let blobs = takes_blobs(blob, context, rules);
            let chosen = blobs && (plain.heads.len() == 0 || blob.heads[0].ahead_of(
                plain.heads[0],
            ));
            let head = if chosen {
                blob.heads[0]
            } else {
                plain.heads[0]
            };
            let tx = head.tx.transaction;
            let header = context.payload.header;
            let aside = if context.amsterdam && rules.tx_max_gas_limit < tx.gas_limit {
                rules.tx_max_gas_limit
            } else {
                tx.gas_limit
            };
            let frame = tx.tx_type is Frame;
            let early = (tx.protected && !started(rules.config.eip155_block, header.number)) || (
            frame && !started(rules.config.hegota_time, header.timestamp)) || (frame
                && tx.expiry_deadline is Some && tx.expiry_deadline->0 < header.timestamp);
            &&& context.remaining_gas < 21000 ==> step is Done
            &&& plain.heads.len() == 0 && !blobs ==> step is Done
            &&& context.remaining_gas >= 21000 && (plain.heads.len() > 0 || blobs) ==> {
                &&& context.remaining_gas < aside <==> step is Skipped
                &&& context.remaining_gas >= aside && tx.encoded_len < 0x1_0000_0000 ==> {
                    let full = started(rules.config.osaka_time, header.timestamp)
                        && context.payload_size + tx.encoded_len > rules.max_block_size;
                    &&& full ==> step is Done
                    &&& !full && early ==> step == FillStep::Drop(tx.hash)
                    &&& !full && !early ==> step == (FillStep::Run { head, is_blob: chosen })
                }
            }
        }),
{
}

/// Privileged transactions come first, by their nonces; of others the one with the higher
/// tip comes first, and of equal tips the one that arrived earlier.
pub proof fn law_order_of_transactions(a: HeadTransaction, b: HeadTransaction)
    ensures
        a.tx.transaction.tx_type is Privileged && b.tx.transaction.tx_type is Privileged ==> (
        a.ahead_of(b) <==> a.tx.transaction.nonce < b.tx.transaction.nonce),
        a.tx.transaction.tx_type is Privileged && !(b.tx.transaction.tx_type is Privileged)
            ==> a.ahead_of(b) && !b.ahead_of(a),
        !(a.tx.transaction.tx_type is Privileged) && !(b.tx.transaction.tx_type is Privileged)
            ==> {
            &&& a.tip@ > b.tip@ ==> a.ahead_of(b)
            &&& a.tip@ < b.tip@ ==> !a.ahead_of(b)
            &&& a.tip@ == b.tip@ ==> (a.ahead_of(b) <==> a.tx.time < b.tx.time)
        },
{
}

/// A queue that passes a transaction over loses it and all others of its sender, and
/// keeps every other one in its place.
pub proof fn law_passed_over_with_its_sender(queue: QueueView, other: Address)
    requires
        queue.heads.len() > 0,
    ensures
        ({
            let after = queue.popped();
            let sender = queue.heads[0].tx.sender;
            &&& after.heads.len() == queue.heads.len() - 1
            &&& forall|i: int|
                0 <= i < after.heads.len() ==> #[trigger] after.heads[i] == queue.heads[i + 1]
            &&& !after.rest.contains_key(sender)
            &&& other != sender ==> (after.rest.contains_key(other) <==> queue.rest.contains_key(
                other,
            )) && after.rest[other] == queue.rest[other]
            &&& after.base_fee == queue.base_fee
        }),
{
}

/// After a transaction of a queue was taken, the next one of its sender, where there is
/// one, is the first of that sender's list, and the list begins behind it; the lists of
/// others stay.
pub proof fn law_next_of_the_sender_follows(queue: QueueView, after: QueueView, other: Address)
    requires
        queue.heads.len() > 0,
        queue.shifts_to(after),
    ensures
        ({
            let sender = queue.heads[0].tx.sender;
            let waits = queue.rest.contains_key(sender) && queue.rest[sender].len() > 0;
            &&& !waits ==> after.heads == queue.heads.drop_first() && after.rest == queue.rest
            &&& waits ==> {
                let next = queue.rest[sender][0];
                &&& after.heads.len() == queue.heads.len()
                &&& exists|i: int|
                    0 <= i < after.heads.len() && (#[trigger] after.heads[i]).tx == next
                &&& after.rest[sender] == queue.rest[sender].drop_first()
                &&& other != sender ==> after.rest[other] == queue.rest[other]
            }
            &&& forall|i: int|
                1 <= i < queue.heads.len() ==> after.heads.contains(#[trigger] queue.heads[i])
            &&& forall|i: int, j: int|
                0 <= i < j < after.heads.len() ==> !(#[trigger] after.heads[j]).ahead_of(
                    #[trigger] after.heads[i],
                )
        }),
{
    let sender = queue.heads[0].tx.sender;
    let rest = queue.heads.drop_first();
    if queue.follower() is Some {
        let tx = queue.follower()->0;
        let tip = crate::transaction::gas_tip(tx.transaction, queue.base_fee)->0;
        let at = choose|at: int|
            0 <= at <= queue.heads.len() - 1 && after.heads
                == #[trigger] queue.heads.drop_first().insert(at, HeadTransaction { tx, tip });
        assert(after.heads[at].tx == tx);
        assert forall|i: int| 1 <= i < queue.heads.len() implies after.heads.contains(
            #[trigger] queue.heads[i],
        ) by {
            let j = i - 1;
            assert(rest[j] == queue.heads[i]);
            if j < at {
                assert(after.heads[j] == rest[j]);
            } else {
                assert(after.heads[j + 1] == rest[j]);
            }
        }
    } else {
        assert forall|i: int| 1 <= i < queue.heads.len() implies after.heads.contains(
            #[trigger] queue.heads[i],
        ) by {
            assert(after.heads[i - 1] == queue.heads[i]);
        }
    }
}

/// A transaction that was given keeps its sender and its time, and earns the smaller of
/// its tip cap and what its fee cap leaves above the base fee, nothing where that is
/// below.
pub proof fn law_given_transaction_earns_its_tip(
    tx: Transaction,
    sender: Address,
    time: u64,
    base_fee: Option<u64>,
)
    ensures
        ({
            let head = given_head(tx, sender, time, base_fee);
            let room = tx.gas_fee_cap@ - base_fee->0;
            &&& head.tx.transaction == tx
            &&& head.tx.sender == sender
            &&& head.tx.time == time
            &&& base_fee is None ==> head.tip == tx.gas_tip_cap
            &&& base_fee is Some && room < 0 ==> head.tip@ == 0
            &&& base_fee is Some && 0 <= room <= tx.gas_tip_cap@ ==> head.tip@ == room
            &&& base_fee is Some && room > tx.gas_tip_cap@ ==> head.tip == tx.gas_tip_cap
        }),
{
    crate::word::lemma_word_bound(tx.gas_fee_cap);
    crate::laws::admission::law_tip_is_the_smaller_bound(tx, base_fee);
    if base_fee is Some && tx.gas_fee_cap@ >= base_fee->0 {
        lemma_word_of(tx.gas_fee_cap@ - base_fee->0);
    }
}

/// A transaction is filed in the block access list under one more than the transactions
/// before it. Its sender, and then the account that it calls, is touched, and nothing that
/// was recorded is lost.
pub proof fn law_transaction_is_filed(
    recorder: RecorderView,
    before: usize,
    head: HeadTransaction,
)
    requires
        before < 0xffff_ffff,
    ensures
        access_index(before) == before + 1,
        ({
            let after = tx_begun(Some(recorder), before, head);
            let n = recorder.events.len() as int;
            let index = (before + 1) as u32;
            let calls = head.tx.transaction.to is Some;
            &&& after is Some
            &&& after->0.block_access_index == before + 1
            &&& after->0.events.len() == n + if calls {
                2int
            } else {
                1
            }
            &&& forall|i: int| 0 <= i < n ==> #[trigger] after->0.events[i] == recorder.events[i]
            &&& after->0.events[n] == (index, EventView::TouchedAddress(head.tx.sender))
            &&& calls ==> after->0.events[n + 1] == (
                index,
                EventView::TouchedAddress(head.tx.transaction.to->0),
            )
        }),
        tx_begun(None, before, head) is None,
{
}

/// The recipients of withdrawals are touched in their order, under the recorder's index.
pub proof fn law_recipients_are_touched(recorder: RecorderView, withdrawals: Seq<Withdrawal>)
    ensures
        ({
            let after = recipients_told(Some(recorder), withdrawals);
            let n = recorder.events.len() as int;
            &&& after is Some
            &&& after->0.block_access_index == recorder.block_access_index
            &&& after->0.events.len() == n + withdrawals.len()
            &&& forall|i: int| 0 <= i < n ==> #[trigger] after->0.events[i] == recorder.events[i]
            &&& forall|i: int|
                0 <= i < withdrawals.len() ==> after->0.events[n + i] == (
                    recorder.block_access_index,
                    EventView::TouchedAddress((#[trigger] withdrawals[i]).address),
                )
        }),
    decreases withdrawals.len(),
{
    if withdrawals.len() > 0 {
        let rest = withdrawals.drop_last();
        law_recipients_are_touched(recorder, rest);
        let n = recorder.events.len() as int;
        let was = recipients_told(Some(recorder), rest)->0;
        let now = recipients_told(Some(recorder), withdrawals)->0;
        assert(now.events == was.events.push(
            (
                recorder.block_access_index,
                EventView::TouchedAddress(withdrawals.last().address),
            ),
        ));
        assert forall|i: int| 0 <= i < withdrawals.len() implies now.events[n + i] == (
            recorder.block_access_index,
            EventView::TouchedAddress((#[trigger] withdrawals[i]).address),
        ) by {
            if i < rest.len() {
                assert(rest[i] == withdrawals[i]);
                assert(was.events[n + i] == now.events[n + i]);
            }
        }
    }
}

/// Ten payloads are kept: a new one comes last, and where there are ten the oldest goes.
pub proof fn law_ten_payloads_are_kept<P>(slots: Seq<(u64, P)>, id: u64, payload: P)
    requires
        slots.len() <= 10,
    ensures
        ({
            let after = with_payload(slots, id, payload);
            let gone = if slots.len() == 10 {
                1int
            } else {
                0
            };
            &&& after.len() == slots.len() + 1 - gone
            &&& after.last() == (id, payload)
            &&& forall|i: int|
                0 <= i < after.len() - 1 ==> #[trigger] after[i] == slots[i + gone]
        }),
{
}

/// The system contracts are called first, on the base chain only; then the payload is
/// filled, from the pool or with the given transactions; then what follows is filed, and
/// the requests are extracted, where the rules for that have started; and withdrawals come
/// before the end.
pub proof fn law_parts_of_a_payload_are_in_order(
    l1: bool,
    explicit: bool,
    amsterdam: bool,
    prague: bool,
)
    ensures
        ({
            let list = phases(l1, explicit, amsterdam, prague);
            let n = list.len() as int;
            let fill = if l1 {
                1int
            } else {
                0
            };
            &&& n == 3 + fill + (if amsterdam {
                1int
            } else {
                0
            }) + (if prague {
                1int
            } else {
                0
            })
            &&& l1 ==> list[0] is SystemOperations
            &&& explicit ==> list[fill] is FillExplicit
            &&& !explicit ==> list[fill] is FillFromPool
            &&& amsterdam ==> list[fill + 1] is PostTransactions
            &&& prague ==> list[n - 3] is ExtractRequests
            &&& list[n - 2] is Withdrawals
            &&& list[n - 1] is Finalize
        }),
{
}

/// Counters stop at what they can hold, and at zero.
pub proof fn law_counters_saturate(a: u64, b: u64)
    ensures
        plus(a, b) == if a + b <= 0xffff_ffff_ffff_ffff {
            a + b
        } else {
            0xffff_ffff_ffff_ffff
        },
        minus(a, b) == if a >= b {
            a - b
        } else {
            0
        },
{
}

} // verus!
