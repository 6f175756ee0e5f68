//! Instructions that read the surroundings of a call: `ADDRESS`, `BALANCE`, `ORIGIN`,
//! `GASPRICE`, `CALLER`, `CALLVALUE`, `CALLDATALOAD`, `CALLDATASIZE`, `CALLDATACOPY`,
//! `CODESIZE`, `CODECOPY`, `EXTCODESIZE`, `EXTCODECOPY`, `EXTCODEHASH`,
//! `RETURNDATASIZE` and `RETURNDATACOPY`.

use crate::account::{empty_keccak, empty_keccak_hash, CodeView};
use crate::bal::BalEvent;
use crate::database::Database;
use crate::error::{
    reported, ErrorView, ExceptionalHalt, InternalError, OpcodeResult, TraceViolation, VMError,
    VmErrorView,
};
use crate::frame::{calculate_memory_size, nth, padded};
use crate::gas_cost;
use crate::gen_db::{account_loaded, code_length_read, code_loaded, DbView};
use crate::opcode_handlers::block::{hash_word, zero_word};
use crate::opcode_handlers::{
    access_cost, accessed, balance_noted, copied, copy_from, failed, halted, paid, pay_and_push,
    pay_for_copy, piece, popped, push_word, size_offset_to_usize, source_offset, touch_told,
    u256_to_usize, OpcodeHandler, VmStep,
};
use crate::vm::{Environment, VmView, VM};
use crate::word::{
    address_to_word, address_word, be_value, word_address, word_of, word_to_address, Address, H256,
    U256,
};
use vstd::prelude::*;

verus! {

/// `ADDRESS`: the account whose program runs.
pub struct OpAddressHandler;

impl<D: Database> OpcodeHandler<D> for OpAddressHandler {
    open spec fn effect(
        store: D,
        env: Environment,
        before: VmView,
        after: VmView,
        r: Result<OpcodeResult, VMError>,
    ) -> bool {
        (VmStep { vm: after, result: reported(r) }) == pay_and_push(
            before,
            gas_cost::ADDRESS,
            address_word(before.frame.to),
        )
    }

    fn eval(vm: &mut VM<D>) -> (r: Result<OpcodeResult, VMError>) {
        vm.pay_push(gas_cost::ADDRESS, address_to_word(vm.current_call_frame.to))
    }
}

/// `BALANCE`: the balance of the account whose address is on top of the stack.
pub struct OpBalanceHandler;

impl<D: Database> OpcodeHandler<D> for OpBalanceHandler {
    open spec fn effect(
        store: D,
        env: Environment,
        before: VmView,
        after: VmView,
        r: Result<OpcodeResult, VMError>,
    ) -> bool {
        let step = VmStep { vm: after, result: reported(r) };
        if before.frame.stack.len() < 1 {
            step == halted(before, ExceptionalHalt::StackUnderflow)
        } else {
            let address = word_address(nth(before.frame.stack, 0));
            let cost = access_cost(env, before, address);
            let vm = accessed(popped(before, 1), address);
            if vm.frame.gas < cost {
                step == halted(vm, ExceptionalHalt::OutOfGas)
            } else {
                exists|loaded: DbView, error: Option<ErrorView>| #[trigger]
                    account_loaded(store, before.db, address, loaded, error) && step
                        == match error {
                        Some(e) => failed(VmView { db: loaded, ..paid(vm, cost as int) }, e),
                        None => push_word(
                            VmView { db: balance_noted(loaded, address), ..paid(vm, cost as int) },
                            loaded.current[address].info.balance,
                        ),
                    }
            }
        }
    }

    fn eval(vm: &mut VM<D>) -> (r: Result<OpcodeResult, VMError>) {
        let address = match vm.current_call_frame.stack.pop1() {
            Ok(word) => word_to_address(word),
            Err(halt) => {
                return Err(VMError::ExceptionalHalt(halt));
            },
        };
        let cold = vm.substate.add_accessed_address(address);
        match vm.pay(vm.env.account_access.access(cold)) {
            Ok(_) => {},
            Err(e) => {
                return Err(e);
            },
        }
        let balance = match vm.db.get_account(address) {
            Ok(account) => account.info.balance,
            Err(e) => {
                return Err(VMError::Internal(e));
            },
        };
        vm.note_balance_read(address);
        vm.push(balance)
    }
}

/// `ORIGIN`: the sender of the transaction.
pub struct OpOriginHandler;

impl<D: Database> OpcodeHandler<D> for OpOriginHandler {
    open spec fn effect(
        store: D,
        env: Environment,
        before: VmView,
        after: VmView,
        r: Result<OpcodeResult, VMError>,
    ) -> bool {
        (VmStep { vm: after, result: reported(r) }) == pay_and_push(
            before,
            gas_cost::ORIGIN,
            address_word(env.origin),
        )
    }

    fn eval(vm: &mut VM<D>) -> (r: Result<OpcodeResult, VMError>) {
        vm.pay_push(gas_cost::ORIGIN, address_to_word(vm.env.origin))
    }
}

/// `GASPRICE`: the gas price of the transaction.
pub struct OpGasPriceHandler;

impl<D: Database> OpcodeHandler<D> for OpGasPriceHandler {
    open spec fn effect(
        store: D,
        env: Environment,
        before: VmView,
        after: VmView,
        r: Result<OpcodeResult, VMError>,
    ) -> bool {
        (VmStep { vm: after, result: reported(r) }) == pay_and_push(
            before,
            gas_cost::GASPRICE,
            env.gas_price,
        )
    }

    fn eval(vm: &mut VM<D>) -> (r: Result<OpcodeResult, VMError>) {
        vm.pay_push(gas_cost::GASPRICE, vm.env.gas_price)
    }
}

/// `CALLER`: the account that made the call.
pub struct OpCallerHandler;

impl<D: Database> OpcodeHandler<D> for OpCallerHandler {
    open spec fn effect(
        store: D,
        env: Environment,
        before: VmView,
        after: VmView,
        r: Result<OpcodeResult, VMError>,
    ) -> bool {
        (VmStep { vm: after, result: reported(r) }) == pay_and_push(
            before,
            gas_cost::CALLER,
            address_word(before.frame.msg_sender),
        )
    }

    fn eval(vm: &mut VM<D>) -> (r: Result<OpcodeResult, VMError>) {
        vm.pay_push(gas_cost::CALLER, address_to_word(vm.current_call_frame.msg_sender))
    }
}

/// `CALLVALUE`: the value that came with the call.
pub struct OpCallValueHandler;

impl<D: Database> OpcodeHandler<D> for OpCallValueHandler {
    open spec fn effect(
        store: D,
        env: Environment,
        before: VmView,
        after: VmView,
        r: Result<OpcodeResult, VMError>,
    ) -> bool {
        (VmStep { vm: after, result: reported(r) }) == pay_and_push(
            before,
            gas_cost::CALLVALUE,
            before.frame.msg_value,
        )
    }

    fn eval(vm: &mut VM<D>) -> (r: Result<OpcodeResult, VMError>) {
        vm.pay_push(gas_cost::CALLVALUE, vm.current_call_frame.msg_value)
    }
}

/// Zeros spell zero.
proof fn lemma_zeros_value(bytes: Seq<u8>)
    requires
        forall|i: int| 0 <= i < bytes.len() ==> bytes[i] == 0,
    ensures
        be_value(bytes) == 0,
    decreases bytes.len(),
{
    if bytes.len() > 0 {
        assert(bytes.last() == bytes[bytes.len() - 1]);
        lemma_zeros_value(bytes.drop_last());
    }
}

/// `CALLDATALOAD`: the word of the call data at the offset on top of the stack, with
/// zeros behind the end of the data.
pub struct OpCallDataLoadHandler;

impl<D: Database> OpcodeHandler<D> for OpCallDataLoadHandler {
    open spec fn effect(
        store: D,
        env: Environment,
        before: VmView,
        after: VmView,
        r: Result<OpcodeResult, VMError>,
    ) -> bool {
        let step = VmStep { vm: after, result: reported(r) };
        let vm = paid(before, gas_cost::CALLDATALOAD as int);
        let offset = nth(before.frame.stack, 0)@;
        if before.frame.gas < gas_cost::CALLDATALOAD {
            step == halted(before, ExceptionalHalt::OutOfGas)
        } else if before.frame.stack.len() < 1 {
            step == halted(vm, ExceptionalHalt::StackUnderflow)
        } else {
            step == push_word(
                popped(vm, 1),
                word_of(be_value(padded(before.frame.calldata, offset as int, 32)) as int),
            )
        }
    }

    fn eval(vm: &mut VM<D>) -> (r: Result<OpcodeResult, VMError>) {
        match vm.pay(gas_cost::CALLDATALOAD) {
            Ok(_) => {},
            Err(e) => {
                return Err(e);
            },
        }
        let word = match vm.current_call_frame.stack.pop1() {
            Ok(word) => word,
            Err(halt) => {
                return Err(VMError::ExceptionalHalt(halt));
            },
        };
        let size: usize = vm.current_call_frame.calldata.len();
        let ghost wanted = padded(vm.current_call_frame.calldata@, word@ as int, 32);
        let offset: usize = source_offset(word);
        if offset >= size {
            proof {
                lemma_zeros_value(wanted);
            }
            return vm.push(U256::zero());
        }
        let mut bytes: Vec<u8> = Vec::new();
        let mut i: usize = 0;
        while i < 32
            invariant
                i <= 32,
                offset < size,
                size == vm.current_call_frame.calldata@.len(),
                bytes@.len() == i,
                wanted == padded(vm.current_call_frame.calldata@, offset as int, 32),
                forall|j: int| 0 <= j < i ==> bytes@[j] == wanted[j],
            decreases 32 - i,
        {
            if i < size - offset {
                bytes.push(vm.current_call_frame.calldata[offset + i]);
            } else {
                bytes.push(0);
            }
            i += 1;
        }
        assert(bytes@ =~= wanted);
        let value = U256::from_big_endian(bytes.as_slice());
        vm.push(value)
    }
}

/// `CALLDATASIZE`: how many bytes of call data there are.
pub struct OpCallDataSizeHandler;

impl<D: Database> OpcodeHandler<D> for OpCallDataSizeHandler {
    open spec fn effect(
        store: D,
        env: Environment,
        before: VmView,
        after: VmView,
        r: Result<OpcodeResult, VMError>,
    ) -> bool {
        (VmStep { vm: after, result: reported(r) }) == pay_and_push(
            before,
            gas_cost::CALLDATASIZE,
            word_of(before.frame.calldata.len() as int),
        )
    }

    fn eval(vm: &mut VM<D>) -> (r: Result<OpcodeResult, VMError>) {
        vm.pay_push(gas_cost::CALLDATASIZE, U256::from_usize(vm.current_call_frame.calldata.len()))
    }
}

/// Beyond the end of the data every offset gives zeros.
proof fn lemma_far_offset(source: Seq<u8>, wanted: int, from: int, len: int)
    requires
        source.len() <= usize::MAX,
        wanted <= usize::MAX ==> from == wanted,
        wanted > usize::MAX ==> from == usize::MAX,
        0 <= len,
    ensures
        padded(source, wanted, len) == padded(source, from, len),
{
    assert(padded(source, wanted, len) =~= padded(source, from, len));
}

/// `CALLDATACOPY`: copies call data into memory.
pub struct OpCallDataCopyHandler;

impl<D: Database> OpcodeHandler<D> for OpCallDataCopyHandler {
    open spec fn effect(
        store: D,
        env: Environment,
        before: VmView,
        after: VmView,
        r: Result<OpcodeResult, VMError>,
    ) -> bool {
        (VmStep { vm: after, result: reported(r) }) == copy_from(before, before.frame.calldata)
    }

    fn eval(vm: &mut VM<D>) -> (r: Result<OpcodeResult, VMError>) {
        let (dst_offset, src_offset, len) = match vm.current_call_frame.stack.pop3() {
            Ok(words) => words,
            Err(halt) => {
                return Err(VMError::ExceptionalHalt(halt));
            },
        };
        let (n, at) = match vm.pay_copy(len, dst_offset, gas_cost::COPY_STATIC) {
            Ok(pair) => pair,
            Err(e) => {
                return Err(e);
            },
        };
        let from: usize = source_offset(src_offset);
        let source = vm.current_call_frame.calldata.as_slice();
        let _size: usize = source.len();
        proof {
            lemma_far_offset(source@, src_offset@ as int, from as int, n as int);
        }
        vm.current_call_frame.memory.copy_padded(at, source, from, n);
        Ok(OpcodeResult::Continue)
    }
}

/// `CODESIZE`: how long the running program is.
pub struct OpCodeSizeHandler;

impl<D: Database> OpcodeHandler<D> for OpCodeSizeHandler {
    open spec fn effect(
        store: D,
        env: Environment,
        before: VmView,
        after: VmView,
        r: Result<OpcodeResult, VMError>,
    ) -> bool {
        (VmStep { vm: after, result: reported(r) }) == pay_and_push(
            before,
            gas_cost::CODESIZE,
            word_of(before.frame.bytecode.bytecode.len() as int),
        )
    }

    fn eval(vm: &mut VM<D>) -> (r: Result<OpcodeResult, VMError>) {
        vm.pay_push(gas_cost::CODESIZE, U256::from_usize(vm.current_call_frame.bytecode.len()))
    }
}

/// `CODECOPY`: copies the running program into memory.
pub struct OpCodeCopyHandler;

impl<D: Database> OpcodeHandler<D> for OpCodeCopyHandler {
    open spec fn effect(
        store: D,
        env: Environment,
        before: VmView,
        after: VmView,
        r: Result<OpcodeResult, VMError>,
    ) -> bool {
        (VmStep { vm: after, result: reported(r) }) == copy_from(before, before.frame.bytecode.bytecode)
    }

    fn eval(vm: &mut VM<D>) -> (r: Result<OpcodeResult, VMError>) {
        let (dst_offset, src_offset, len) = match vm.current_call_frame.stack.pop3() {
            Ok(words) => words,
            Err(halt) => {
                return Err(VMError::ExceptionalHalt(halt));
            },
        };
        let (n, at) = match vm.pay_copy(len, dst_offset, gas_cost::COPY_STATIC) {
            Ok(pair) => pair,
            Err(e) => {
                return Err(e);
            },
        };
        let from: usize = source_offset(src_offset);
        let source = vm.current_call_frame.bytecode.bytecode.as_slice();
        let _size: usize = source.len();
        proof {
            lemma_far_offset(source@, src_offset@ as int, from as int, n as int);
        }
        vm.current_call_frame.memory.copy_padded(at, source, from, n);
        Ok(OpcodeResult::Continue)
    }
}

/// Whether a code delegates to another account.
pub open spec fn delegates(code: Seq<u8>) -> bool {
    code.len() == 23 && code[0] == 0xef && code[1] == 0x01 && code[2] == 0x00
}

/// What is wrong with an account whose code a validated program looks at, as far as its
/// cached fields tell.
pub open spec fn code_violation(code: CodeView) -> Option<VmErrorView> {
    if delegates(code.bytecode) {
        Some(VmErrorView::Trace(TraceViolation::DelegatedTarget))
    } else {
        None
    }
}

/// A check of an account whose code a validated program looks at takes the database
/// from `before` to `after` and fails with `error` or does not fail: the account must
/// exist and must not delegate to another.
pub open spec fn target_checked<D: Database>(
    store: D,
    before: DbView,
    address: Address,
    after: DbView,
    error: Option<VmErrorView>,
) -> bool {
    exists|loaded: DbView, missing: Option<ErrorView>| #[trigger]
        account_loaded(store, before, address, loaded, missing) && (match missing {
            Some(e) => after == loaded && error == Some(VmErrorView::Internal(e)),
            None => {
                let account = loaded.current[address];
                if !account.exists {
                    after == loaded && error == Some(VmErrorView::Trace(TraceViolation::MissingTarget))
                } else if account.info.code_hash == empty_keccak() {
                    after == loaded && error is None
                } else {
                    exists|unknown: Option<ErrorView>| #[trigger]
                        code_loaded(store, loaded, account.info.code_hash, after, unknown)
                            && error == match unknown {
                            Some(e) => Some(VmErrorView::Internal(e)),
                            None => code_violation(after.codes[account.info.code_hash]),
                        }
                }
            },
        })
}

/// What looking at the code of an account does before the code is read: where a
/// transaction is validated, the account is checked, unless it is the sender.
pub open spec fn inspected<D: Database>(
    store: D,
    vm: VmView,
    address: Address,
    after: DbView,
    error: Option<VmErrorView>,
) -> bool {
    if vm.observer.active && address != vm.observer.sender {
        target_checked(store, vm.db, address, after, error)
    } else {
        after == vm.db && error is None
    }
}

impl<D: Database> VM<D> {
    /// Checks an account whose code a validated program looks at.
    pub fn validation_check_extcode_target(&mut self, address: Address) -> (r: Result<(), VMError>)
        ensures
            final(self).env == old(self).env,
            final(self).db.store == old(self).db.store,
            final(self)@ == (VmView { db: final(self)@.db, ..old(self)@ }),
            inspected(
                old(self).db.store,
                old(self)@,
                address,
                final(self)@.db,
                match r {
                    Ok(_) => None,
                    Err(e) => Some(e@),
                },
            ),
    {
        if !self.validation_observer.active || address == self.validation_observer.sender {
            return Ok(());
        }
        let (exists, code_hash) = match self.db.get_account(address) {
            Ok(account) => (account.exists, account.info.code_hash),
            Err(e) => {
                return Err(VMError::Internal(e));
            },
        };
        if !exists {
            return Err(VMError::Trace(TraceViolation::MissingTarget));
        }
        if code_hash == empty_keccak_hash() {
            return Ok(());
        }
        match self.db.get_code(code_hash) {
            Ok(code) => {
                let bytes = &code.bytecode;
                if bytes.len() == 23 && bytes[0] == 0xef && bytes[1] == 0x01 && bytes[2] == 0x00 {
                    Err(VMError::Trace(TraceViolation::DelegatedTarget))
                } else {
                    Ok(())
                }
            },
            Err(e) => Err(VMError::Internal(e)),
        }
    }
}

/// `EXTCODESIZE`: the length of the code of the account whose address is on top of the
/// stack.
pub struct OpExtCodeSizeHandler;

impl<D: Database> OpcodeHandler<D> for OpExtCodeSizeHandler {
    open spec fn effect(
        store: D,
        env: Environment,
        before: VmView,
        after: VmView,
        r: Result<OpcodeResult, VMError>,
    ) -> bool {
        let step = VmStep { vm: after, result: reported(r) };
        if before.frame.stack.len() < 1 {
            step == halted(before, ExceptionalHalt::StackUnderflow)
        } else {
            let address = word_address(nth(before.frame.stack, 0));
            let cost = access_cost(env, before, address);
            let vm = accessed(popped(before, 1), address);
            if vm.frame.gas < cost {
                step == halted(vm, ExceptionalHalt::OutOfGas)
            } else {
                exists|seen: DbView, violation: Option<VmErrorView>| #[trigger]
                    inspected(store, paid(vm, cost as int), address, seen, violation) && (
                    match violation {
                        Some(e) => step == (VmStep {
                            vm: VmView { db: seen, ..paid(vm, cost as int) },
                            result: Err(e),
                        }),
                        None => exists|read: DbView, length: Result<usize, InternalError>|
                            #[trigger]
                            code_length_read(store, seen, address, read, length) && step
                                == match length {
                                Err(e) => failed(
                                    VmView { db: read, ..paid(vm, cost as int) },
                                    e@,
                                ),
                                Ok(n) => push_word(
                                    VmView {
                                        db: touch_told(read, address),
                                        ..paid(vm, cost as int)
                                    },
                                    word_of(n as int),
                                ),
                            },
                    })
            }
        }
    }

    fn eval(vm: &mut VM<D>) -> (r: Result<OpcodeResult, VMError>) {
        let address = match vm.current_call_frame.stack.pop1() {
            Ok(word) => word_to_address(word),
            Err(halt) => {
                return Err(VMError::ExceptionalHalt(halt));
            },
        };
        let cold = vm.substate.add_accessed_address(address);
        match vm.pay(vm.env.account_access.access(cold)) {
            Ok(_) => {},
            Err(e) => {
                return Err(e);
            },
        }
        match vm.validation_check_extcode_target(address) {
            Ok(_) => {},
            Err(e) => {
                return Err(e);
            },
        }
        let length: usize = match vm.db.get_code_length(address) {
            Ok(length) => length,
            Err(e) => {
                return Err(VMError::Internal(e));
            },
        };
        vm.db.record(BalEvent::TouchedAddress(address));
        vm.push(U256::from_usize(length))
    }
}

/// A read of an account's code takes the database from `before` to `after` and fails
/// with `error` or does not fail.
pub open spec fn account_code_read<D: Database>(
    store: D,
    before: DbView,
    address: Address,
    code_hash: H256,
    after: DbView,
    error: Option<ErrorView>,
) -> bool {
    exists|loaded: DbView, missing: Option<ErrorView>| #[trigger]
        account_loaded(store, before, address, loaded, missing) && (match missing {
            Some(_) => error == missing && after == loaded,
            None => code_hash == loaded.current[address].info.code_hash && code_loaded(
                store,
                loaded,
                code_hash,
                after,
                error,
            ),
        })
}

/// `EXTCODECOPY`: copies the code of the account whose address is on top of the stack
/// into memory. The code is read even where nothing is copied.
pub struct OpExtCodeCopyHandler;

impl<D: Database> OpcodeHandler<D> for OpExtCodeCopyHandler {
    open spec fn effect(
        store: D,
        env: Environment,
        before: VmView,
        after: VmView,
        r: Result<OpcodeResult, VMError>,
    ) -> bool {
        let step = VmStep { vm: after, result: reported(r) };
        if before.frame.stack.len() < 4 {
            step == halted(before, ExceptionalHalt::StackUnderflow)
        } else {
            let address = word_address(nth(before.frame.stack, 0));
            let offset = nth(before.frame.stack, 1);
            let from = nth(before.frame.stack, 2);
            let len = nth(before.frame.stack, 3);
            let cost = access_cost(env, before, address);
            let vm = popped(before, 4);
            match pay_for_copy(accessed(vm, address), len, offset, cost as int) {
                Err(halt) => step == halted(
                    if halt == ExceptionalHalt::OutOfGas {
                        accessed(vm, address)
                    } else {
                        vm
                    },
                    halt,
                ),
                Ok(paid) => {
                    let told = VmView { db: touch_told(paid.db, address), ..paid };
                    let (n, at) = piece(len, offset)->0;
                    exists|seen: DbView, violation: Option<VmErrorView>| #[trigger]
                        inspected(store, told, address, seen, violation) && (match violation {
                            Some(e) => step == (VmStep {
                                vm: VmView { db: seen, ..told },
                                result: Err(e),
                            }),
                            None => exists|
                                hash: H256,
                                read: DbView,
                                unknown: Option<ErrorView>,
                            | #[trigger]
                                account_code_read(store, seen, address, hash, read, unknown)
                                    && step == match unknown {
                                    Some(e) => failed(VmView { db: read, ..told }, e),
                                    None => VmStep {
                                        vm: copied(
                                            VmView { db: read, ..told },
                                            at,
                                            read.codes[hash].bytecode,
                                            from@ as int,
                                            n,
                                        ),
                                        result: Ok(OpcodeResult::Continue),
                                    },
                                },
                        })
                },
            }
        }
    }

    fn eval(vm: &mut VM<D>) -> (r: Result<OpcodeResult, VMError>) {
        let (word, dst_offset, src_offset, len) = match vm.current_call_frame.stack.pop4() {
            Ok(words) => words,
            Err(halt) => {
                return Err(VMError::ExceptionalHalt(halt));
            },
        };
        let address = word_to_address(word);
        let (n, at) = match size_offset_to_usize(len, dst_offset) {
            Ok(pair) => pair,
            Err(e) => {
                return Err(e);
            },
        };
        match calculate_memory_size(at, n) {
            Ok(_) => {},
            Err(e) => {
                return Err(e);
            },
        }
        let cold = vm.substate.add_accessed_address(address);
        match vm.pay_copy(len, dst_offset, vm.env.account_access.access(cold)) {
            Ok(_) => {},
            Err(e) => {
                return Err(e);
            },
        }
        vm.db.record(BalEvent::TouchedAddress(address));
        match vm.validation_check_extcode_target(address) {
            Ok(_) => {},
            Err(e) => {
                return Err(e);
            },
        }
        let ghost told = vm@;
        let code_hash = match vm.db.get_account(address) {
            Ok(account) => account.info.code_hash,
            Err(e) => {
                assert(account_code_read(
                    vm.db.store,
                    told.db,
                    address,
                    H256 { hi: 0, lo: 0 },
                    vm.db@,
                    Some(e@),
                ));
                return Err(VMError::Internal(e));
            },
        };
        let ghost loaded = vm.db@;
        let from: usize = source_offset(src_offset);
        match vm.db.get_code(code_hash) {
            Ok(code) => {
                let source = code.bytecode.as_slice();
                let _size: usize = source.len();
                proof {
                    lemma_far_offset(source@, src_offset@ as int, from as int, n as int);
                }
                vm.current_call_frame.memory.copy_padded(at, source, from, n);
                assert(account_code_read(
                    vm.db.store,
                    told.db,
                    address,
                    code_hash,
                    vm.db@,
                    None,
                ));
                Ok(OpcodeResult::Continue)
            },
            Err(e) => {
                assert(account_code_read(
                    vm.db.store,
                    told.db,
                    address,
                    code_hash,
                    vm.db@,
                    Some(e@),
                ));
                Err(VMError::Internal(e))
            },
        }
    }
}

/// `EXTCODEHASH`: the code hash of the account whose address is on top of the stack,
/// zero for an empty account.
pub struct OpExtCodeHashHandler;

impl<D: Database> OpcodeHandler<D> for OpExtCodeHashHandler {
    open spec fn effect(
        store: D,
        env: Environment,
        before: VmView,
        after: VmView,
        r: Result<OpcodeResult, VMError>,
    ) -> bool {
        let step = VmStep { vm: after, result: reported(r) };
        if before.frame.stack.len() < 1 {
            step == halted(before, ExceptionalHalt::StackUnderflow)
        } else {
            let address = word_address(nth(before.frame.stack, 0));
            let cost = access_cost(env, before, address);
            let vm = accessed(popped(before, 1), address);
            if vm.frame.gas < cost {
                step == halted(vm, ExceptionalHalt::OutOfGas)
            } else {
                exists|seen: DbView, violation: Option<VmErrorView>| #[trigger]
                    inspected(store, paid(vm, cost as int), address, seen, violation) && (
                    match violation {
                        Some(e) => step == (VmStep {
                            vm: VmView { db: seen, ..paid(vm, cost as int) },
                            result: Err(e),
                        }),
                        None => exists|loaded: DbView, error: Option<ErrorView>| #[trigger]
                            account_loaded(store, seen, address, loaded, error) && step
                                == match error {
                                Some(e) => failed(
                                    VmView { db: loaded, ..paid(vm, cost as int) },
                                    e,
                                ),
                                None => push_word(
                                    VmView {
                                        db: touch_told(loaded, address),
                                        ..paid(vm, cost as int)
                                    },
                                    if loaded.current[address].empty() {
                                        zero_word()
                                    } else {
                                        hash_word(loaded.current[address].info.code_hash)
                                    },
                                ),
                            },
                    })
            }
        }
    }

    fn eval(vm: &mut VM<D>) -> (r: Result<OpcodeResult, VMError>) {
        let address = match vm.current_call_frame.stack.pop1() {
            Ok(word) => word_to_address(word),
            Err(halt) => {
                return Err(VMError::ExceptionalHalt(halt));
            },
        };
        let cold = vm.substate.add_accessed_address(address);
        match vm.pay(vm.env.account_access.access(cold)) {
            Ok(_) => {},
            Err(e) => {
                return Err(e);
            },
        }
        match vm.validation_check_extcode_target(address) {
            Ok(_) => {},
            Err(e) => {
                return Err(e);
            },
        }
        let word = match vm.db.get_account(address) {
            Ok(account) => if account.is_empty() {
                U256::zero()
            } else {
                account.info.code_hash.to_word()
            },
            Err(e) => {
                return Err(VMError::Internal(e));
            },
        };
        vm.db.record(BalEvent::TouchedAddress(address));
        vm.push(word)
    }
}

/// `RETURNDATASIZE`: how many bytes the last call returned.
pub struct OpReturnDataSizeHandler;

impl<D: Database> OpcodeHandler<D> for OpReturnDataSizeHandler {
    open spec fn effect(
        store: D,
        env: Environment,
        before: VmView,
        after: VmView,
        r: Result<OpcodeResult, VMError>,
    ) -> bool {
        (VmStep { vm: after, result: reported(r) }) == pay_and_push(
            before,
            gas_cost::RETURNDATASIZE,
            word_of(before.frame.sub_return_data.len() as int),
        )
    }

    fn eval(vm: &mut VM<D>) -> (r: Result<OpcodeResult, VMError>) {
        vm.pay_push(
            gas_cost::RETURNDATASIZE,
            U256::from_usize(vm.current_call_frame.sub_return_data.len()),
        )
    }
}

/// `RETURNDATACOPY`: copies what the last call returned into memory. It must not reach
/// beyond the end.
pub struct OpReturnDataCopyHandler;

impl<D: Database> OpcodeHandler<D> for OpReturnDataCopyHandler {
    open spec fn effect(
        store: D,
        env: Environment,
        before: VmView,
        after: VmView,
        r: Result<OpcodeResult, VMError>,
    ) -> bool {
        let step = VmStep { vm: after, result: reported(r) };
        if before.frame.stack.len() < 3 {
            step == halted(before, ExceptionalHalt::StackUnderflow)
        } else {
            let vm = popped(before, 3);
            let offset = nth(before.frame.stack, 0);
            let from = nth(before.frame.stack, 1);
            let len = nth(before.frame.stack, 2);
            if piece(len, offset) is None || from@ > usize::MAX {
                step == halted(vm, ExceptionalHalt::VeryLargeNumber)
            } else {
                match pay_for_copy(vm, len, offset, 3) {
                    Err(halt) => step == halted(vm, halt),
                    Ok(paid) => {
                        let (n, at) = piece(len, offset)->0;
                        if from@ + n > before.frame.sub_return_data.len() {
                            step == halted(paid, ExceptionalHalt::OutOfBounds)
                        } else {
                            step == (VmStep {
                                vm: copied(
                                    paid,
                                    at,
                                    before.frame.sub_return_data,
                                    from@ as int,
                                    n,
                                ),
                                result: Ok(OpcodeResult::Continue),
                            })
                        }
                    },
                }
            }
        }
    }

    fn eval(vm: &mut VM<D>) -> (r: Result<OpcodeResult, VMError>) {
        let (dst_offset, src_offset, len) = match vm.current_call_frame.stack.pop3() {
            Ok(words) => words,
            Err(halt) => {
                return Err(VMError::ExceptionalHalt(halt));
            },
        };
        let from: usize = match u256_to_usize(src_offset) {
            Ok(from) => from,
            Err(e) => {
                return Err(e);
            },
        };
        let (n, at) = match vm.pay_copy(len, dst_offset, gas_cost::COPY_STATIC) {
            Ok(pair) => pair,
            Err(e) => {
                return Err(e);
            },
        };
        let size: usize = vm.current_call_frame.sub_return_data.len();
        if n > size || from > size - n {
            return Err(VMError::ExceptionalHalt(ExceptionalHalt::OutOfBounds));
        }
        let source = vm.current_call_frame.sub_return_data.as_slice();
        vm.current_call_frame.memory.copy_padded(at, source, from, n);
        Ok(OpcodeResult::Continue)
    }
}

} // verus!
