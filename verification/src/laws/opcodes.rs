//! What the instructions put on the stack and into memory, and what they cost.

use crate::bal::EventView;
use crate::database::Database;
use crate::error::{
    reported, DatabaseError, ErrorView, ExceptionalHalt, OpcodeResult, VMError, VmErrorView,
};
use crate::gen_db::{account_loaded, DbView};
use crate::laws::machine::told_events;
use crate::opcode_handlers::block::{
    hash_word, OpBaseFeeHandler, OpBlobBaseFeeHandler, OpBlobHashHandler, OpBlockHashHandler,
    OpChainIdHandler, OpCoinbaseHandler, OpGasLimitHandler, OpNumberHandler, OpPrevRandaoHandler,
    OpSelfBalanceHandler, OpSlotNumHandler, OpTimestampHandler,
};
use crate::opcode_handlers::environment::{
    OpAddressHandler, OpCallDataSizeHandler, OpCallValueHandler, OpCallerHandler,
    OpCodeSizeHandler, OpGasPriceHandler, OpOriginHandler, OpReturnDataSizeHandler,
};
use crate::opcode_handlers::{
    balance_noted, failed, paid, popped, push_word, OpcodeHandler, VmStep,
};
use crate::vm::{Environment, VmView};
use crate::word::{be_value, law_hash_and_address_bytes, word_of, H256};
use vstd::prelude::*;

verus! {

/// Nothing of a call frame but its stack, its gas and its memory differs.
pub open spec fn call_kept(before: VmView, after: VmView) -> bool {
    &&& after.frame.calldata == before.frame.calldata
    &&& after.frame.bytecode == before.frame.bytecode
    &&& after.frame.sub_return_data == before.frame.sub_return_data
    &&& after.frame.to == before.frame.to
    &&& after.frame.msg_sender == before.frame.msg_sender
    &&& after.frame.msg_value == before.frame.msg_value
    &&& after.frame.backup == before.frame.backup
    &&& after.originals == before.originals
    &&& after.observer == before.observer
}

/// `taken` words have left the stack and a word that is worth `value` lies on top of
/// what was below them, for `gas`.
pub open spec fn replaced_top(
    before: VmView,
    after: VmView,
    taken: int,
    gas: int,
    value: nat,
) -> bool {
    let was = before.frame.stack;
    let now = after.frame.stack;
    &&& now.len() == was.len() - taken + 1
    &&& forall|i: int| 0 <= i < was.len() - taken ==> #[trigger] now[i] == was[i]
    &&& now[now.len() - 1]@ == value
    &&& after.frame.gas == before.frame.gas - gas
    &&& after.frame.memory == before.frame.memory
    &&& call_kept(before, after)
}

/// An instruction that takes nothing off the stack puts `value` on it for two units of
/// gas, where there is that much gas and a stack of fewer than 1024 words. Without the
/// gas nothing happens, without the room the gas is gone.
pub open spec fn gives(
    before: VmView,
    after: VmView,
    r: Result<OpcodeResult, VMError>,
    value: nat,
) -> bool {
    &&& after.db == before.db
    &&& after.substate == before.substate
    &&& if before.frame.gas < 2 {
        &&& r == Err::<OpcodeResult, VMError>(VMError::ExceptionalHalt(ExceptionalHalt::OutOfGas))
        &&& after == before
    } else if before.frame.stack.len() >= 1024 {
        &&& r == Err::<OpcodeResult, VMError>(
            VMError::ExceptionalHalt(ExceptionalHalt::StackOverflow),
        )
        &&& after.frame.gas == before.frame.gas - 2
        &&& after.frame.stack == before.frame.stack
        &&& after.frame.memory == before.frame.memory
        &&& call_kept(before, after)
    } else {
        &&& r == Ok::<OpcodeResult, VMError>(OpcodeResult::Continue)
        &&& replaced_top(before, after, 0, 2, value)
    }
}

/// `COINBASE`, `ORIGIN`, `ADDRESS` and `CALLER` give the number that the 20 bytes of an
/// address spell: that of the fee recipient, of the sender of the transaction, of the
/// account whose program runs and of the account that made the call.
pub proof fn law_address_instructions<D: Database>(
    store: D,
    env: Environment,
    before: VmView,
    after: VmView,
    r: Result<OpcodeResult, VMError>,
)
    ensures
        <OpCoinbaseHandler as OpcodeHandler<D>>::effect(store, env, before, after, r) ==> gives(
            before,
            after,
            r,
            be_value(env.coinbase.bytes()),
        ),
        <OpOriginHandler as OpcodeHandler<D>>::effect(store, env, before, after, r) ==> gives(
            before,
            after,
            r,
            be_value(env.origin.bytes()),
        ),
        <OpAddressHandler as OpcodeHandler<D>>::effect(store, env, before, after, r) ==> gives(
            before,
            after,
            r,
            be_value(before.frame.to.bytes()),
        ),
        <OpCallerHandler as OpcodeHandler<D>>::effect(store, env, before, after, r) ==> gives(
            before,
            after,
            r,
            be_value(before.frame.msg_sender.bytes()),
        ),
{
    let any = H256 { hi: 0, lo: 0 };
    law_hash_and_address_bytes(any, env.coinbase);
    law_hash_and_address_bytes(any, env.origin);
    law_hash_and_address_bytes(any, before.frame.to);
    law_hash_and_address_bytes(any, before.frame.msg_sender);
}

/// `TIMESTAMP`, `NUMBER`, `GASLIMIT`, `CHAINID`, `BASEFEE`, `BLOBBASEFEE`, `SLOTNUM` and
/// `GASPRICE` give the number of that name, and `CALLVALUE` the value of the call.
pub proof fn law_number_instructions<D: Database>(
    store: D,
    env: Environment,
    before: VmView,
    after: VmView,
    r: Result<OpcodeResult, VMError>,
)
    ensures
        <OpTimestampHandler as OpcodeHandler<D>>::effect(store, env, before, after, r) ==> gives(
            before,
            after,
            r,
            env.timestamp as nat,
        ),
        <OpNumberHandler as OpcodeHandler<D>>::effect(store, env, before, after, r) ==> gives(
            before,
            after,
            r,
            env.block_number as nat,
        ),
        <OpGasLimitHandler as OpcodeHandler<D>>::effect(store, env, before, after, r) ==> gives(
            before,
            after,
            r,
            env.block_gas_limit as nat,
        ),
        <OpChainIdHandler as OpcodeHandler<D>>::effect(store, env, before, after, r) ==> gives(
            before,
            after,
            r,
            env.chain_id@,
        ),
        <OpBaseFeeHandler as OpcodeHandler<D>>::effect(store, env, before, after, r) ==> gives(
            before,
            after,
            r,
            env.base_fee_per_gas@,
        ),
        <OpBlobBaseFeeHandler as OpcodeHandler<D>>::effect(store, env, before, after, r)
            ==> gives(before, after, r, env.base_blob_fee_per_gas@),
        <OpSlotNumHandler as OpcodeHandler<D>>::effect(store, env, before, after, r) ==> gives(
            before,
            after,
            r,
            env.slot_number@,
        ),
        <OpGasPriceHandler as OpcodeHandler<D>>::effect(store, env, before, after, r) ==> gives(
            before,
            after,
            r,
            env.gas_price@,
        ),
        <OpCallValueHandler as OpcodeHandler<D>>::effect(store, env, before, after, r) ==> gives(
            before,
            after,
            r,
            before.frame.msg_value@,
        ),
{
    assert(word_of(env.timestamp as int)@ == env.timestamp);
    assert(word_of(env.block_number as int)@ == env.block_number);
    assert(word_of(env.block_gas_limit as int)@ == env.block_gas_limit);
}

/// `CALLDATASIZE`, `CODESIZE` and `RETURNDATASIZE` give how many bytes the data of the
/// call, the running program and the data that the last call returned have.
pub proof fn law_size_instructions<D: Database>(
    store: D,
    env: Environment,
    before: VmView,
    after: VmView,
    r: Result<OpcodeResult, VMError>,
)
    requires
        before.frame.calldata.len() <= usize::MAX,
        before.frame.bytecode.bytecode.len() <= usize::MAX,
        before.frame.sub_return_data.len() <= usize::MAX,
    ensures
        <OpCallDataSizeHandler as OpcodeHandler<D>>::effect(store, env, before, after, r)
            ==> gives(before, after, r, before.frame.calldata.len()),
        <OpCodeSizeHandler as OpcodeHandler<D>>::effect(store, env, before, after, r) ==> gives(
            before,
            after,
            r,
            before.frame.bytecode.bytecode.len(),
        ),
        <OpReturnDataSizeHandler as OpcodeHandler<D>>::effect(store, env, before, after, r)
            ==> gives(before, after, r, before.frame.sub_return_data.len()),
{
    assert(word_of(before.frame.calldata.len() as int)@
        == before.frame.calldata.len());
    assert(word_of(before.frame.bytecode.bytecode.len() as int)@
        == before.frame.bytecode.bytecode.len());
    assert(word_of(before.frame.sub_return_data.len() as int)@
        == before.frame.sub_return_data.len());
}

/// `PREVRANDAO` gives the number that all 32 bytes of the randomness spell, zero where
/// there is none.
pub proof fn law_prev_randao<D: Database>(
    store: D,
    env: Environment,
    before: VmView,
    after: VmView,
    r: Result<OpcodeResult, VMError>,
)
    requires
        <OpPrevRandaoHandler as OpcodeHandler<D>>::effect(store, env, before, after, r),
    ensures
        env.prev_randao matches Some(hash) ==> gives(before, after, r, be_value(hash.bytes())),
        env.prev_randao is None ==> gives(before, after, r, 0),
{
    if env.prev_randao is Some {
        law_hash_and_address_bytes(env.prev_randao->0, env.coinbase);
    }
}

/// An instruction that takes one word off the stack does so for `gas` units of gas,
/// which come first.
pub open spec fn takes_one(
    before: VmView,
    after: VmView,
    r: Result<OpcodeResult, VMError>,
    gas: int,
) -> bool {
    &&& before.frame.gas < gas ==> r == Err::<OpcodeResult, VMError>(
        VMError::ExceptionalHalt(ExceptionalHalt::OutOfGas),
    ) && after == before
    &&& before.frame.gas >= gas && before.frame.stack.len() == 0 ==> r == Err::<
        OpcodeResult,
        VMError,
    >(VMError::ExceptionalHalt(ExceptionalHalt::StackUnderflow)) && after.frame.gas
        == before.frame.gas - gas
}

/// `BLOCKHASH` takes a block number off the stack for twenty units of gas. Where that
/// block is one of the 256 before the current one, the number on top of the stack is
/// then the one that all 32 bytes of the store's hash of exactly that block spell, most
/// significant byte first, and it fails only where the store does. Otherwise it is zero.
pub proof fn law_block_hash_is_the_whole_hash<D: Database>(
    store: D,
    env: Environment,
    before: VmView,
    after: VmView,
    r: Result<OpcodeResult, VMError>,
)
    requires
        <OpBlockHashHandler as OpcodeHandler<D>>::effect(store, env, before, after, r),
        before.frame.stack.len() <= 1024,
    ensures
        takes_one(before, after, r, 20),
        after.db == before.db,
        after.substate == before.substate,
        before.frame.gas >= 20 && before.frame.stack.len() > 0 ==> {
            let number = before.frame.stack[before.frame.stack.len() - 1]@;
            let available = number < env.block_number && env.block_number <= number + 256;
            &&& !available ==> r == Ok::<OpcodeResult, VMError>(OpcodeResult::Continue)
                && replaced_top(before, after, 1, 20, 0)
            &&& available && r is Ok ==> r == Ok::<OpcodeResult, VMError>(OpcodeResult::Continue)
                && exists|hash: H256|
                call_ensures(
                    D::get_block_hash,
                    (&store, number as u64),
                    Ok::<H256, DatabaseError>(hash),
                ) && #[trigger] replaced_top(before, after, 1, 20, be_value(hash.bytes()))
            &&& available && r is Err ==> exists|e: DatabaseError|
                call_ensures(
                    D::get_block_hash,
                    (&store, number as u64),
                    Err::<H256, DatabaseError>(e),
                ) && r->Err_0@ == #[trigger] internal(ErrorView::Database(e))
        },
{
    if before.frame.gas >= 20 && before.frame.stack.len() > 0 {
        let number = before.frame.stack[before.frame.stack.len() - 1]@;
        let available = number < env.block_number && env.block_number <= number + 256;
        if available {
            let answer = choose|answer: Result<H256, DatabaseError>| #[trigger]
                call_ensures(D::get_block_hash, (&store, number as u64), answer) && (
                VmStep { vm: after, result: reported(r) })
                    == match answer {
                    Ok(hash) => push_word(
                        popped(
                            paid(before, 20),
                            1,
                        ),
                        hash_word(hash),
                    ),
                    Err(e) => failed(
                        popped(
                            paid(before, 20),
                            1,
                        ),
                        ErrorView::Database(e),
                    ),
                };
            match answer {
                Ok(hash) => {
                    law_hash_and_address_bytes(hash, env.coinbase);
                    assert(replaced_top(before, after, 1, 20, be_value(hash.bytes())));
                },
                Err(e) => {
                    assert(r->Err_0@ == internal(ErrorView::Database(e)));
                },
            }
        }
    }
}

/// An error of the machine itself.
pub open spec fn internal(e: ErrorView) -> VmErrorView {
    VmErrorView::Internal(e)
}

/// `BLOBHASH` takes an index off the stack for three units of gas, and gives the number
/// that all 32 bytes of the blob hash at that index spell, zero where there is none.
pub proof fn law_blob_hash_is_the_whole_hash<D: Database>(
    store: D,
    env: Environment,
    before: VmView,
    after: VmView,
    r: Result<OpcodeResult, VMError>,
)
    requires
        <OpBlobHashHandler as OpcodeHandler<D>>::effect(store, env, before, after, r),
        before.frame.stack.len() <= 1024,
    ensures
        takes_one(before, after, r, 3),
        after.db == before.db,
        after.substate == before.substate,
        before.frame.gas >= 3 && before.frame.stack.len() > 0 ==> {
            let index = before.frame.stack[before.frame.stack.len() - 1]@;
            &&& r == Ok::<OpcodeResult, VMError>(OpcodeResult::Continue)
            &&& index < env.tx_blob_hashes@.len() ==> replaced_top(
                before,
                after,
                1,
                3,
                be_value(env.tx_blob_hashes@[index as int].bytes()),
            )
            &&& index >= env.tx_blob_hashes@.len() ==> replaced_top(before, after, 1, 3, 0)
        },
{
    if before.frame.stack.len() > 0 {
        let index = before.frame.stack[before.frame.stack.len() - 1]@;
        if index < env.tx_blob_hashes@.len() {
            law_hash_and_address_bytes(env.tx_blob_hashes@[index as int], env.coinbase);
        }
    }
}

/// `SELFBALANCE` gives the balance that is known of the account whose program runs once
/// it was loaded, for five units of gas, and fails only where there is no gas, no room or
/// no account.
pub proof fn law_self_balance<D: Database>(
    store: D,
    env: Environment,
    before: VmView,
    after: VmView,
    r: Result<OpcodeResult, VMError>,
)
    requires
        <OpSelfBalanceHandler as OpcodeHandler<D>>::effect(store, env, before, after, r),
    ensures
        before.frame.gas < 5 ==> r == Err::<OpcodeResult, VMError>(
            VMError::ExceptionalHalt(ExceptionalHalt::OutOfGas),
        ) && after == before,
        after.substate == before.substate,
        r is Ok ==> before.frame.gas >= 5 && before.frame.stack.len() < 1024 && exists|
            loaded: DbView,
        | #[trigger]
            account_loaded(store, before.db, before.frame.to, loaded, None)
                && after.db == (DbView {
                recorder: after.db.recorder,
                balance_reads: after.db.balance_reads,
                ..loaded
            }) && told_events(
                loaded.recorder,
                after.db.recorder,
                seq![EventView::TouchedAddress(before.frame.to)],
            ) && replaced_top(
                before,
                after,
                0,
                5,
                loaded.current[before.frame.to].info.balance@,
            ),
        r is Ok ==> (before.db.balance_reads is Some ==> after.db.balance_reads is Some
            && after.db.balance_reads->0.contains(before.frame.to)),
        before.frame.gas >= 5 && before.frame.stack.len() < 1024 && r is Err ==> exists|
            loaded: DbView,
            e: ErrorView,
        | #[trigger]
            account_loaded(store, before.db, before.frame.to, loaded, Some(e)) && r->Err_0@
                == internal(e),
{
    if before.frame.gas >= 5 {
        let address = before.frame.to;
        let vm = paid(before, 5);
        let (loaded, error) = choose|loaded: DbView, error: Option<ErrorView>| #[trigger]
            account_loaded(store, before.db, address, loaded, error) && (
            VmStep { vm: after, result: reported(r) })
                == match error {
                Some(e) => failed(VmView { db: loaded, ..vm }, e),
                None => push_word(
                    VmView { db: balance_noted(loaded, address), ..vm },
                    loaded.current[address].info.balance,
                ),
            };
        match error {
            Some(e) => {
                assert(account_loaded(store, before.db, before.frame.to, loaded, Some(e)));
            },
            None => {
                assert(account_loaded(store, before.db, before.frame.to, loaded, None));
            },
        }
    }
}

} // verus!
