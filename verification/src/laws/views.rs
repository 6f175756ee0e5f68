//! What is seen of a value is what it holds, field by field.

use crate::account::{AccountUpdate, Code, LevmAccount};
use crate::backup::CallFrameBackup;
use crate::blockchain::batch::HashWalk;
use crate::blockchain::merkle_worker::SubtrieWorker;
use crate::blockchain::routing::UpdateRouter;
use crate::database::Database;
use crate::frame::CallFrame;
use crate::gen_db::GeneralizedDatabase;
use crate::payload::context::PayloadBuildContext;
use crate::payload::queue::TransactionQueue;
use crate::vm::{Substate, VM};
use crate::word::{Address, H256};
use vstd::prelude::*;

verus! {

/// An account, a code and an update are seen with all of their fields.
pub proof fn law_accounts_are_seen_as_they_are(
    account: LevmAccount,
    code: Code,
    update: AccountUpdate,
)
    ensures
        account@.info == account.info,
        account@.storage == account.storage@,
        account@.has_storage == account.has_storage,
        account@.status == account.status,
        account@.exists == account.exists,
        code@.hash == code.hash,
        code@.bytecode == code.bytecode@,
        update@.address == update.address,
        update@.removed == update.removed,
        update@.info == update.info,
        update@.code is Some <==> update.code is Some,
        update.code matches Some(new) ==> update@.code->0 == new@,
        update@.added_storage == update.added_storage@,
        update@.removed_storage == update.removed_storage,
{
}

/// A database is seen with its caches, its baseline, its codes and all that it records.
pub proof fn law_database_is_seen_as_it_is<D: Database>(
    db: GeneralizedDatabase<D>,
    a: Address,
    h: H256,
)
    ensures
        db@.current.contains_key(a) <==> db.current_accounts_state@.contains_key(a),
        db@.current.contains_key(a) ==> db@.current[a] == db.current_accounts_state@[a]@,
        db@.initial.contains_key(a) <==> db.initial_accounts_state@.contains_key(a),
        db@.initial.contains_key(a) ==> db@.initial[a] == db.initial_accounts_state@[a]@,
        db@.codes.contains_key(h) <==> db.codes@.contains_key(h),
        db@.codes.contains_key(h) ==> db@.codes[h] == db.codes@[h]@,
        db@.metadata == db.code_metadata@,
        db@.base is Some <==> db.shared_base is Some,
        db.shared_base matches Some(base) ==> (db@.base->0.contains_key(a) <==> base@.contains_key(
            a,
        )) && (base@.contains_key(a) ==> db@.base->0[a] == base@[a]@),
        db@.backup is Some <==> db.tx_backup is Some,
        db.tx_backup matches Some(backup) ==> db@.backup->0 == backup@,
        db@.recorder is Some <==> db.bal_recorder is Some,
        db.bal_recorder matches Some(recorder) ==> db@.recorder->0 == recorder@,
        db@.skip == db.skip_initial_tracking,
        db@.accessed is Some <==> db.accessed_accounts is Some,
        db.accessed_accounts matches Some(set) ==> (db@.accessed->0.contains(a)
            <==> set@.contains_key(a)),
        db@.balance_reads is Some <==> db.balance_reads is Some,
        db.balance_reads matches Some(set) ==> (db@.balance_reads->0.contains(a)
            <==> set@.contains_key(a)),
        db@.lazy == db.lazy_bal,
{
}

/// A machine is seen with its database, its frame, what it accessed, the values that slots
/// had, and its observer; a backup and what was accessed with all that they hold.
pub proof fn law_machine_is_seen_as_it_is<D: Database>(
    vm: VM<D>,
    frame: CallFrame,
    backup: CallFrameBackup,
    substate: Substate,
    a: Address,
    k: H256,
)
    ensures
        vm@.db == vm.db@,
        vm@.frame == vm.current_call_frame@,
        vm@.substate == vm.substate@,
        vm@.observer == vm.validation_observer,
        vm@.originals.contains_key(a) <==> vm.storage_original_values@.contains_key(a),
        vm@.originals.contains_key(a) ==> vm@.originals[a] == vm.storage_original_values@[a]@,
        frame@.gas == frame.gas_remaining,
        frame@.stack == frame.stack@,
        frame@.memory == frame.memory@,
        frame@.calldata == frame.calldata@,
        frame@.bytecode == frame.bytecode@,
        frame@.sub_return_data == frame.sub_return_data@,
        frame@.to == frame.to,
        frame@.msg_sender == frame.msg_sender,
        frame@.msg_value == frame.msg_value,
        frame@.backup == frame.call_frame_backup@,
        backup@.infos.contains_key(a) <==> backup.original_accounts_info@.contains_key(a),
        backup@.infos.contains_key(a) ==> backup@.infos[a] == backup.original_accounts_info@[a]@,
        backup@.slots.contains_key(a) <==> backup.original_account_storage_slots@.contains_key(a),
        backup@.slots.contains_key(a) ==> backup@.slots[a]
            == backup.original_account_storage_slots@[a]@,
        backup@.inserted_codes == backup.inserted_code_hashes@,
        substate@.addresses.contains(a) <==> substate.accessed_addresses@.contains_key(a),
        substate@.slots.contains_key(a) <==> substate.accessed_storage_slots@.contains_key(a),
        substate@.slots.contains_key(a) ==> (substate@.slots[a].contains(k)
            <==> substate.accessed_storage_slots@[a]@.contains_key(k)),
{
}

/// A worker is seen with all of its fields, a router and a walk too.
pub proof fn law_workers_are_seen_as_they_are(
    worker: SubtrieWorker,
    router: UpdateRouter,
    walk: HashWalk,
    h: H256,
    i: int,
)
    ensures
        worker@.index == worker.index,
        worker@.accounts == worker.accounts@,
        worker@.expected == worker.expected_shards@,
        worker@.received == worker.received_shards@,
        worker@.pending == worker.pending_storage_accounts,
        worker@.resolving == worker.resolving,
        worker@.open.contains(h) <==> worker.storage_tries@.contains_key(h),
        worker@.to_collect == worker.storage_to_collect@,
        worker@.asked == worker.pending_collect,
        worker@.dirty == worker.dirty,
        worker@.collecting == worker.collecting_storages,
        worker@.routed == worker.routing_complete,
        worker@.done_mask == worker.routing_done_mask,
        router@.codes.len() == router.code_updates@.len(),
        0 <= i < router.code_updates@.len() ==> router@.codes[i] == (
            router.code_updates@[i].0,
            router.code_updates@[i].1@,
        ),
        router@.accounts.contains(h) <==> router.accounts@.contains_key(h),
        router@.has_storage.contains(h) <==> router.has_storage@.contains_key(h),
        router@.accumulator is Some <==> router.accumulator is Some,
        walk@.cache == walk.cache@,
        walk@.hash == walk.hash,
        walk@.number == walk.number,
        walk@.lookback == walk.lookback,
        walk@.stopped == walk.stopped,
{
}

/// A payload under construction and a queue are seen with all of their fields.
pub proof fn law_payloads_are_seen_as_they_are(
    context: PayloadBuildContext,
    queue: TransactionQueue,
    a: Address,
)
    ensures
        context@.payload == context.payload@,
        context@.remaining_gas == context.remaining_gas,
        context@.cumulative_gas_spent == context.cumulative_gas_spent,
        context@.regular == context.block_regular_gas_used,
        context@.state == context.block_state_gas_used,
        context@.amsterdam == context.is_amsterdam,
        context@.receipts == context.receipts@,
        context@.requests is Some <==> context.requests is Some,
        context.requests matches Some(list) ==> context@.requests->0 == list@,
        context@.block_value == context.block_value,
        context@.base_fee_per_blob_gas == context.base_fee_per_blob_gas,
        context@.blob_count == context.blob_count,
        context@.payload_size == context.payload_size,
        context@.explicit_build == context.explicit_build,
        queue@.heads == queue.heads@,
        queue@.rest.contains_key(a) <==> queue.txs@.contains_key(a),
        queue@.rest.contains_key(a) ==> queue@.rest[a] == queue.txs@[a]@,
        queue@.base_fee == queue.base_fee,
{
}

} // verus!
