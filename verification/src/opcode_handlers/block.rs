//! Instructions that read the block: `BLOCKHASH`, `COINBASE`, `TIMESTAMP`, `NUMBER`,
//! `PREVRANDAO`, `GASLIMIT`, `CHAINID`, `SELFBALANCE`, `BASEFEE`, `BLOBHASH`,
//! `BLOBBASEFEE` and `SLOTNUM`.

use crate::database::Database;
use crate::error::{
    reported, DatabaseError, ErrorView, ExceptionalHalt, InternalError, OpcodeResult, VMError,
};
use crate::frame::nth;
use crate::gas_cost;
use crate::gen_db::{account_loaded, DbView};
use crate::opcode_handlers::{
    balance_noted, failed, halted, paid, pay_and_push, popped, push_word, OpcodeHandler, VmStep,
};
use crate::vm::{Environment, VmView, VM};
use crate::word::{address_to_word, address_word, word_of, H256, U256};
use vstd::prelude::*;

verus! {

/// How many blocks back a block hash can be asked for.
pub const LAST_AVAILABLE_BLOCK_LIMIT: u64 = 256;

/// A hash as a word.
pub open spec fn hash_word(hash: H256) -> U256 {
    U256 { hi: hash.hi, lo: hash.lo }
}

/// The word zero.
pub open spec fn zero_word() -> U256 {
    U256 { hi: 0, lo: 0 }
}

/// Whether the hash of a block can be asked for: it is one of the last 256 before the
/// current one.
pub open spec fn hash_available(env: Environment, number: nat) -> bool {
    number < env.block_number && env.block_number - number <= LAST_AVAILABLE_BLOCK_LIMIT
}

/// `BLOCKHASH`: the hash of the block whose number is on top of the stack, zero where
/// it cannot be asked for.
pub struct OpBlockHashHandler;

impl<D: Database> OpcodeHandler<D> for OpBlockHashHandler {
    open spec fn effect(
        store: D,
        env: Environment,
        before: VmView,
        after: VmView,
        r: Result<OpcodeResult, VMError>,
    ) -> bool {
        let step = VmStep { vm: after, result: reported(r) };
        let vm = paid(before, gas_cost::BLOCKHASH as int);
        let number = nth(before.frame.stack, 0)@;
        if before.frame.gas < gas_cost::BLOCKHASH {
            step == halted(before, ExceptionalHalt::OutOfGas)
        } else if before.frame.stack.len() < 1 {
            step == halted(vm, ExceptionalHalt::StackUnderflow)
        } else if !hash_available(env, number) {
            step == push_word(popped(vm, 1), zero_word())
        } else {
            exists|answer: Result<H256, DatabaseError>| #[trigger]
                call_ensures(D::get_block_hash, (&store, number as u64), answer) && step
                    == match answer {
                    Ok(hash) => push_word(popped(vm, 1), hash_word(hash)),
                    Err(e) => failed(popped(vm, 1), ErrorView::Database(e)),
                }
        }
    }

    fn eval(vm: &mut VM<D>) -> (r: Result<OpcodeResult, VMError>) {
        match vm.pay(gas_cost::BLOCKHASH) {
            Ok(_) => {},
            Err(e) => {
                return Err(e);
            },
        }
        let word = match vm.current_call_frame.stack.pop1() {
            Ok(word) => word,
            Err(halt) => {
                return Err(VMError::ExceptionalHalt(halt));
            },
        };
        match word.to_u64() {
            Some(number) => {
                if number < vm.env.block_number && vm.env.block_number - number
                    <= LAST_AVAILABLE_BLOCK_LIMIT {
                    return match vm.db.store.get_block_hash(number) {
                        Ok(hash) => vm.push(hash.to_word()),
                        Err(e) => Err(VMError::Internal(InternalError::Database(e))),
                    };
                }
            },
            None => {},
        }
        vm.push(U256::zero())
    }
}

/// `COINBASE`: the address that the fees of the block go to.
pub struct OpCoinbaseHandler;

impl<D: Database> OpcodeHandler<D> for OpCoinbaseHandler {
    open spec fn effect(
        store: D,
        env: Environment,
        before: VmView,
        after: VmView,
        r: Result<OpcodeResult, VMError>,
    ) -> bool {
        (VmStep { vm: after, result: reported(r) }) == pay_and_push(
            before,
            gas_cost::COINBASE,
            address_word(env.coinbase),
        )
    }

    fn eval(vm: &mut VM<D>) -> (r: Result<OpcodeResult, VMError>) {
        vm.pay_push(gas_cost::COINBASE, address_to_word(vm.env.coinbase))
    }
}

/// `TIMESTAMP`: the timestamp of the block.
pub struct OpTimestampHandler;

impl<D: Database> OpcodeHandler<D> for OpTimestampHandler {
    open spec fn effect(
        store: D,
        env: Environment,
        before: VmView,
        after: VmView,
        r: Result<OpcodeResult, VMError>,
    ) -> bool {
        (VmStep { vm: after, result: reported(r) }) == pay_and_push(
            before,
            gas_cost::TIMESTAMP,
            word_of(env.timestamp as int),
        )
    }

    fn eval(vm: &mut VM<D>) -> (r: Result<OpcodeResult, VMError>) {
        vm.pay_push(gas_cost::TIMESTAMP, U256::from_u64(vm.env.timestamp))
    }
}

/// `NUMBER`: the number of the block.
pub struct OpNumberHandler;

impl<D: Database> OpcodeHandler<D> for OpNumberHandler {
    open spec fn effect(
        store: D,
        env: Environment,
        before: VmView,
        after: VmView,
        r: Result<OpcodeResult, VMError>,
    ) -> bool {
        (VmStep { vm: after, result: reported(r) }) == pay_and_push(
            before,
            gas_cost::NUMBER,
            word_of(env.block_number as int),
        )
    }

    fn eval(vm: &mut VM<D>) -> (r: Result<OpcodeResult, VMError>) {
        vm.pay_push(gas_cost::NUMBER, U256::from_u64(vm.env.block_number))
    }
}

/// `PREVRANDAO`: the randomness of the block before, zero where there is none.
pub struct OpPrevRandaoHandler;

impl<D: Database> OpcodeHandler<D> for OpPrevRandaoHandler {
    open spec fn effect(
        store: D,
        env: Environment,
        before: VmView,
        after: VmView,
        r: Result<OpcodeResult, VMError>,
    ) -> bool {
        (VmStep { vm: after, result: reported(r) }) == pay_and_push(
            before,
            gas_cost::PREVRANDAO,
            match env.prev_randao {
                Some(hash) => hash_word(hash),
                None => zero_word(),
            },
        )
    }

    fn eval(vm: &mut VM<D>) -> (r: Result<OpcodeResult, VMError>) {
        let word = match &vm.env.prev_randao {
            Some(hash) => hash.to_word(),
            None => U256::zero(),
        };
        vm.pay_push(gas_cost::PREVRANDAO, word)
    }
}

/// `GASLIMIT`: the gas limit of the block.
pub struct OpGasLimitHandler;

impl<D: Database> OpcodeHandler<D> for OpGasLimitHandler {
    open spec fn effect(
        store: D,
        env: Environment,
        before: VmView,
        after: VmView,
        r: Result<OpcodeResult, VMError>,
    ) -> bool {
        (VmStep { vm: after, result: reported(r) }) == pay_and_push(
            before,
            gas_cost::GASLIMIT,
            word_of(env.block_gas_limit as int),
        )
    }

    fn eval(vm: &mut VM<D>) -> (r: Result<OpcodeResult, VMError>) {
        vm.pay_push(gas_cost::GASLIMIT, U256::from_u64(vm.env.block_gas_limit))
    }
}

/// `CHAINID`: the identifier of the chain.
pub struct OpChainIdHandler;

impl<D: Database> OpcodeHandler<D> for OpChainIdHandler {
    open spec fn effect(
        store: D,
        env: Environment,
        before: VmView,
        after: VmView,
        r: Result<OpcodeResult, VMError>,
    ) -> bool {
        (VmStep { vm: after, result: reported(r) }) == pay_and_push(
            before,
            gas_cost::CHAINID,
            env.chain_id,
        )
    }

    fn eval(vm: &mut VM<D>) -> (r: Result<OpcodeResult, VMError>) {
        vm.pay_push(gas_cost::CHAINID, vm.env.chain_id)
    }
}

/// `SELFBALANCE`: the balance of the account whose program runs.
pub struct OpSelfBalanceHandler;

impl<D: Database> OpcodeHandler<D> for OpSelfBalanceHandler {
    open spec fn effect(
        store: D,
        env: Environment,
        before: VmView,
        after: VmView,
        r: Result<OpcodeResult, VMError>,
    ) -> bool {
        let step = VmStep { vm: after, result: reported(r) };
        let vm = paid(before, gas_cost::SELFBALANCE as int);
        let address = before.frame.to;
        if before.frame.gas < gas_cost::SELFBALANCE {
            step == halted(before, ExceptionalHalt::OutOfGas)
        } else {
            exists|loaded: DbView, error: Option<ErrorView>| #[trigger]
                account_loaded(store, before.db, address, loaded, error) && step == match error {
                    Some(e) => failed(VmView { db: loaded, ..vm }, e),
                    None => push_word(
                        VmView { db: balance_noted(loaded, address), ..vm },
                        loaded.current[address].info.balance,
                    ),
                }
        }
    }

    fn eval(vm: &mut VM<D>) -> (r: Result<OpcodeResult, VMError>) {
        match vm.pay(gas_cost::SELFBALANCE) {
            Ok(_) => {},
            Err(e) => {
                return Err(e);
            },
        }
        let address = vm.current_call_frame.to;
        let balance = match vm.db.get_account(address) {
            Ok(account) => account.info.balance,
            Err(e) => {
                return Err(VMError::Internal(e));
            },
        };
        vm.note_balance_read(address);
        vm.push(balance)
    }
}

/// `BASEFEE`: the base fee of the block.
pub struct OpBaseFeeHandler;

impl<D: Database> OpcodeHandler<D> for OpBaseFeeHandler {
    open spec fn effect(
        store: D,
        env: Environment,
        before: VmView,
        after: VmView,
        r: Result<OpcodeResult, VMError>,
    ) -> bool {
        (VmStep { vm: after, result: reported(r) }) == pay_and_push(
            before,
            gas_cost::BASEFEE,
            env.base_fee_per_gas,
        )
    }

    fn eval(vm: &mut VM<D>) -> (r: Result<OpcodeResult, VMError>) {
        vm.pay_push(gas_cost::BASEFEE, vm.env.base_fee_per_gas)
    }
}

/// `BLOBHASH`: the blob hash of the transaction at the index on top of the stack, zero
/// where there is none.
pub struct OpBlobHashHandler;

impl<D: Database> OpcodeHandler<D> for OpBlobHashHandler {
    open spec fn effect(
        store: D,
        env: Environment,
        before: VmView,
        after: VmView,
        r: Result<OpcodeResult, VMError>,
    ) -> bool {
        let step = VmStep { vm: after, result: reported(r) };
        let vm = paid(before, gas_cost::BLOBHASH as int);
        let index = nth(before.frame.stack, 0)@;
        if before.frame.gas < gas_cost::BLOBHASH {
            step == halted(before, ExceptionalHalt::OutOfGas)
        } else if before.frame.stack.len() < 1 {
            step == halted(vm, ExceptionalHalt::StackUnderflow)
        } else {
            step == push_word(
                popped(vm, 1),
                if index < env.tx_blob_hashes@.len() {
                    hash_word(env.tx_blob_hashes@[index as int])
                } else {
                    zero_word()
                },
            )
        }
    }

    fn eval(vm: &mut VM<D>) -> (r: Result<OpcodeResult, VMError>) {
        match vm.pay(gas_cost::BLOBHASH) {
            Ok(_) => {},
            Err(e) => {
                return Err(e);
            },
        }
        let word = match vm.current_call_frame.stack.pop1() {
            Ok(word) => word,
            Err(halt) => {
                return Err(VMError::ExceptionalHalt(halt));
            },
        };
        let count: usize = vm.env.tx_blob_hashes.len();
        match word.to_usize() {
            Some(index) => {
                if index < count {
                    let hash = vm.env.tx_blob_hashes[index];
                    return vm.push(hash.to_word());
                }
            },
            None => {},
        }
        vm.push(U256::zero())
    }
}

/// `BLOBBASEFEE`: the base fee of blobs.
pub struct OpBlobBaseFeeHandler;

impl<D: Database> OpcodeHandler<D> for OpBlobBaseFeeHandler {
    open spec fn effect(
        store: D,
        env: Environment,
        before: VmView,
        after: VmView,
        r: Result<OpcodeResult, VMError>,
    ) -> bool {
        (VmStep { vm: after, result: reported(r) }) == pay_and_push(
            before,
            gas_cost::BLOBBASEFEE,
            env.base_blob_fee_per_gas,
        )
    }

    fn eval(vm: &mut VM<D>) -> (r: Result<OpcodeResult, VMError>) {
        vm.pay_push(gas_cost::BLOBBASEFEE, vm.env.base_blob_fee_per_gas)
    }
}

/// `SLOTNUM`: the slot number of the block.
pub struct OpSlotNumHandler;

impl<D: Database> OpcodeHandler<D> for OpSlotNumHandler {
    open spec fn effect(
        store: D,
        env: Environment,
        before: VmView,
        after: VmView,
        r: Result<OpcodeResult, VMError>,
    ) -> bool {
        (VmStep { vm: after, result: reported(r) }) == pay_and_push(
            before,
            gas_cost::SLOTNUM,
            env.slot_number,
        )
    }

    fn eval(vm: &mut VM<D>) -> (r: Result<OpcodeResult, VMError>) {
        vm.pay_push(gas_cost::SLOTNUM, vm.env.slot_number)
    }
}

} // verus!
