use ethrex_core::account::{empty_keccak_hash, AccountState, Code};
use ethrex_core::backup::CallFrameBackup;
use ethrex_core::database::Database;
use ethrex_core::error::{
    DatabaseError, ExceptionalHalt, InternalError, OpcodeResult, TraceViolation, VMError,
};
use ethrex_core::frame::{calculate_memory_size, CallFrame, Memory, Stack, STACK_LIMIT};
use ethrex_core::gas_cost::{copy_behavior, AccessCosts};
use ethrex_core::gen_db::GeneralizedDatabase;
use ethrex_core::opcode_handlers::block::{
    OpBaseFeeHandler, OpBlobBaseFeeHandler, OpBlobHashHandler, OpBlockHashHandler,
    OpChainIdHandler, OpCoinbaseHandler, OpGasLimitHandler, OpNumberHandler, OpPrevRandaoHandler,
    OpSelfBalanceHandler, OpSlotNumHandler, OpTimestampHandler,
};
use ethrex_core::opcode_handlers::environment::{
    OpAddressHandler, OpBalanceHandler, OpCallDataCopyHandler, OpCallDataLoadHandler,
    OpCallDataSizeHandler, OpCallValueHandler, OpCallerHandler, OpCodeCopyHandler,
    OpCodeSizeHandler, OpExtCodeCopyHandler, OpExtCodeHashHandler, OpExtCodeSizeHandler,
    OpGasPriceHandler, OpOriginHandler, OpReturnDataCopyHandler, OpReturnDataSizeHandler,
};
use ethrex_core::opcode_handlers::OpcodeHandler;
use ethrex_core::table::Table;
use ethrex_core::vm::{Environment, Substate, ValidationObserver, VM};
use ethrex_core::word::{address_to_word, Address, H256, U256};

struct Store;

impl Database for Store {
    fn get_account_state(&self, address: Address) -> Result<AccountState, DatabaseError> {
        let mut state = AccountState::empty();
        if address.lo == 0 {
            return Ok(state);
        }
        if address.lo >= 1000 {
            return Err(DatabaseError { message: "unreadable".to_string() });
        }
        state.balance = U256::from_u64(100 * address.lo as u64);
        if address.lo == 7 {
            state.code_hash = hash(77);
        }
        if address.lo == 8 {
            state.code_hash = hash(88);
        }
        Ok(state)
    }

    fn get_storage_value(&self, _address: Address, _key: H256) -> Result<U256, DatabaseError> {
        Ok(U256::zero())
    }

    fn get_account_code(&self, code_hash: H256) -> Result<Code, DatabaseError> {
        if code_hash == hash(88) {
            let mut bytecode = vec![0xef, 0x01, 0x00];
            bytecode.extend_from_slice(&[5u8; 20]);
            return Ok(Code { hash: code_hash, bytecode });
        }
        Ok(Code { hash: code_hash, bytecode: vec![1, 2, 3] })
    }

    fn get_block_hash(&self, block_number: u64) -> Result<H256, DatabaseError> {
        Ok(hash(5000 + block_number as u128))
    }
}

fn hash(n: u128) -> H256 {
    H256 { hi: 0, lo: n }
}

fn address(n: u128) -> Address {
    Address { hi: 0, lo: n }
}

fn word(n: u64) -> U256 {
    U256::from_u64(n)
}

fn vm() -> VM<Store> {
    VM {
        db: GeneralizedDatabase::new(Store),
        current_call_frame: CallFrame {
            gas_remaining: 100_000,
            stack: Stack::new(),
            memory: Memory::new(),
            calldata: vec![0xaa, 0xbb, 0xcc],
            bytecode: Code { hash: hash(50), bytecode: vec![9, 8, 7, 6] },
            sub_return_data: vec![4, 5, 6, 7],
            to: address(6),
            msg_sender: address(2),
            msg_value: word(33),
            call_frame_backup: CallFrameBackup::new(),
        },
        env: Environment {
            origin: address(22),
            gas_price: word(44),
            block_number: 300,
            coinbase: address(3),
            timestamp: 55,
            prev_randao: Some(hash(66)),
            block_gas_limit: 77,
            chain_id: word(88),
            base_fee_per_gas: word(99),
            base_blob_fee_per_gas: word(111),
            slot_number: word(122),
            tx_blob_hashes: vec![hash(500), hash(501)],
            account_access: AccessCosts { cold: 2600, warm: 100 },
        },
        substate: Substate::new(),
        storage_original_values: Table::new(),
        validation_observer: ValidationObserver { active: false, sender: address(2) },
    }
}

fn top(machine: &mut VM<Store>) -> U256 {
    machine.current_call_frame.stack.pop1().unwrap()
}

fn push(machine: &mut VM<Store>, words: &[u64]) {
    for w in words {
        machine.current_call_frame.stack.push(word(*w)).unwrap();
    }
}

fn spent(machine: &VM<Store>) -> u64 {
    100_000 - machine.current_call_frame.gas_remaining
}

fn gives<H: OpcodeHandler<Store>>(expected: U256, gas: u64) {
    let mut machine = vm();
    assert!(matches!(H::eval(&mut machine), Ok(OpcodeResult::Continue)));
    assert_eq!(spent(&machine), gas);
    assert_eq!(top(&mut machine), expected);
    let mut broke = vm();
    broke.current_call_frame.gas_remaining = gas - 1;
    assert!(matches!(
        H::eval(&mut broke),
        Err(VMError::ExceptionalHalt(ExceptionalHalt::OutOfGas))
    ));
    let mut full = vm();
    for _ in 0..STACK_LIMIT {
        push(&mut full, &[0]);
    }
    assert!(matches!(
        H::eval(&mut full),
        Err(VMError::ExceptionalHalt(ExceptionalHalt::StackOverflow))
    ));
}

#[test]
fn block_instructions_push_their_value() {
    gives::<OpCoinbaseHandler>(address_to_word(address(3)), 2);
    gives::<OpTimestampHandler>(word(55), 2);
    gives::<OpNumberHandler>(word(300), 2);
    gives::<OpPrevRandaoHandler>(word(66), 2);
    gives::<OpGasLimitHandler>(word(77), 2);
    gives::<OpChainIdHandler>(word(88), 2);
    gives::<OpBaseFeeHandler>(word(99), 2);
    gives::<OpBlobBaseFeeHandler>(word(111), 2);
    gives::<OpSlotNumHandler>(word(122), 2);
}

#[test]
fn environment_instructions_push_their_value() {
    gives::<OpAddressHandler>(address_to_word(address(6)), 2);
    gives::<OpOriginHandler>(address_to_word(address(22)), 2);
    gives::<OpGasPriceHandler>(word(44), 2);
    gives::<OpCallerHandler>(address_to_word(address(2)), 2);
    gives::<OpCallValueHandler>(word(33), 2);
    gives::<OpCallDataSizeHandler>(word(3), 2);
    gives::<OpCodeSizeHandler>(word(4), 2);
    gives::<OpReturnDataSizeHandler>(word(4), 2);
}

#[test]
fn own_balance_is_read_cheaply() {
    let mut machine = vm();
    assert!(OpSelfBalanceHandler::eval(&mut machine).is_ok());
    assert_eq!(spent(&machine), 5);
    assert_eq!(top(&mut machine), word(600));
}

#[test]
fn block_hash_reaches_back_a_limited_way() {
    for (number, expected) in
        [(299u64, hash(5299)), (44, hash(5044)), (43, hash(0)), (300, hash(0)), (301, hash(0))]
    {
        let mut machine = vm();
        push(&mut machine, &[number]);
        assert!(OpBlockHashHandler::eval(&mut machine).is_ok());
        assert_eq!(top(&mut machine), expected.to_word());
        assert_eq!(spent(&machine), 20);
    }
    let mut huge = vm();
    huge.current_call_frame.stack.push(U256 { hi: 1, lo: 0 }).unwrap();
    assert!(OpBlockHashHandler::eval(&mut huge).is_ok());
    assert_eq!(top(&mut huge), U256::zero());
    let mut empty = vm();
    assert!(matches!(
        OpBlockHashHandler::eval(&mut empty),
        Err(VMError::ExceptionalHalt(ExceptionalHalt::StackUnderflow))
    ));
}

#[test]
fn blob_hash_is_zero_beyond_the_last() {
    for (at, expected) in [(0u64, hash(500)), (1, hash(501)), (2, hash(0))] {
        let mut machine = vm();
        push(&mut machine, &[at]);
        assert!(OpBlobHashHandler::eval(&mut machine).is_ok());
        assert_eq!(top(&mut machine), expected.to_word());
        assert_eq!(spent(&machine), 3);
    }
}

#[test]
fn balance_is_cold_and_warm() {
    let mut machine = vm();
    push(&mut machine, &[5]);
    assert!(OpBalanceHandler::eval(&mut machine).is_ok());
    assert_eq!(top(&mut machine), word(500));
    assert_eq!(spent(&machine), 2600);
    push(&mut machine, &[5]);
    assert!(OpBalanceHandler::eval(&mut machine).is_ok());
    assert_eq!(spent(&machine), 2700);
    push(&mut machine, &[1000]);
    assert!(matches!(
        OpBalanceHandler::eval(&mut machine),
        Err(VMError::Internal(InternalError::Database(_)))
    ));
}

#[test]
fn call_data_is_padded_with_zeros() {
    let mut machine = vm();
    push(&mut machine, &[1]);
    assert!(OpCallDataLoadHandler::eval(&mut machine).is_ok());
    let mut bytes = [0u8; 32];
    bytes[0] = 0xbb;
    bytes[1] = 0xcc;
    assert_eq!(top(&mut machine), U256::from_big_endian(&bytes));
    assert_eq!(spent(&machine), 3);
    let mut far = vm();
    far.current_call_frame.stack.push(U256 { hi: 1, lo: 0 }).unwrap();
    assert!(OpCallDataLoadHandler::eval(&mut far).is_ok());
    assert_eq!(top(&mut far), U256::zero());
}

#[test]
fn call_data_is_copied_to_memory() {
    let mut machine = vm();
    push(&mut machine, &[4, 1, 2]);
    assert!(OpCallDataCopyHandler::eval(&mut machine).is_ok());
    assert_eq!(machine.current_call_frame.memory.len(), 32);
    assert_eq!(&machine.current_call_frame.memory.bytes[0..6], &[0, 0, 0xbb, 0xcc, 0, 0]);
    assert_eq!(spent(&machine), 3 + 3 + 3);
}

#[test]
fn code_is_copied_to_memory() {
    let mut machine = vm();
    push(&mut machine, &[3, 2, 0]);
    assert!(OpCodeCopyHandler::eval(&mut machine).is_ok());
    assert_eq!(&machine.current_call_frame.memory.bytes[0..4], &[7, 6, 0, 0]);
    let mut nothing = vm();
    push(&mut nothing, &[0, 0, 5000]);
    assert!(OpCodeCopyHandler::eval(&mut nothing).is_ok());
    assert_eq!(nothing.current_call_frame.memory.len(), 0);
}

#[test]
fn foreign_code_is_inspected() {
    let mut machine = vm();
    push(&mut machine, &[7]);
    assert!(OpExtCodeSizeHandler::eval(&mut machine).is_ok());
    assert_eq!(top(&mut machine), word(3));
    push(&mut machine, &[7]);
    assert!(OpExtCodeHashHandler::eval(&mut machine).is_ok());
    assert_eq!(top(&mut machine), word(77));
    push(&mut machine, &[0]);
    assert!(OpExtCodeHashHandler::eval(&mut machine).is_ok());
    assert_eq!(top(&mut machine), U256::zero());
    push(&mut machine, &[5]);
    assert!(OpExtCodeHashHandler::eval(&mut machine).is_ok());
    assert_eq!(top(&mut machine), empty_keccak_hash().to_word());
    push(&mut machine, &[2, 1, 0, 7]);
    assert!(OpExtCodeCopyHandler::eval(&mut machine).is_ok());
    assert_eq!(&machine.current_call_frame.memory.bytes[0..3], &[2, 3, 0]);
}

#[test]
fn validation_refuses_missing_and_delegating_targets() {
    let mut machine = vm();
    machine.validation_observer = ValidationObserver { active: true, sender: address(2) };
    push(&mut machine, &[0]);
    assert!(matches!(
        OpExtCodeSizeHandler::eval(&mut machine),
        Err(VMError::Trace(TraceViolation::MissingTarget))
    ));
    push(&mut machine, &[8]);
    assert!(matches!(
        OpExtCodeHashHandler::eval(&mut machine),
        Err(VMError::Trace(TraceViolation::DelegatedTarget))
    ));
    push(&mut machine, &[7]);
    assert!(OpExtCodeSizeHandler::eval(&mut machine).is_ok());
}

#[test]
fn return_data_must_be_there() {
    let mut machine = vm();
    push(&mut machine, &[2, 1, 0]);
    assert!(OpReturnDataCopyHandler::eval(&mut machine).is_ok());
    assert_eq!(&machine.current_call_frame.memory.bytes[0..3], &[5, 6, 0]);
    push(&mut machine, &[2, 3, 0]);
    assert!(matches!(
        OpReturnDataCopyHandler::eval(&mut machine),
        Err(VMError::ExceptionalHalt(ExceptionalHalt::OutOfBounds))
    ));
}

#[test]
fn large_sizes_are_refused() {
    let mut machine = vm();
    machine.current_call_frame.stack.push(U256 { hi: 1, lo: 0 }).unwrap();
    push(&mut machine, &[0, 0]);
    assert!(matches!(
        OpCallDataCopyHandler::eval(&mut machine),
        Err(VMError::ExceptionalHalt(ExceptionalHalt::VeryLargeNumber))
    ));
    let mut costly = vm();
    push(&mut costly, &[1 << 40, 0, 0]);
    assert!(matches!(
        OpCallDataCopyHandler::eval(&mut costly),
        Err(VMError::ExceptionalHalt(ExceptionalHalt::OutOfGas))
    ));
}

#[test]
fn memory_costs_grow_with_its_words() {
    assert_eq!(copy_behavior(32, 0, 32, 3).unwrap(), 3 + 3 + 3);
    assert_eq!(copy_behavior(64, 32, 33, 3).unwrap(), 3 + 6 + 3);
    assert_eq!(copy_behavior(32 * 512, 0, 0, 0).unwrap(), 512 + 3 * 512);
    assert_eq!(copy_behavior(0, 0, 0, 3).unwrap(), 3);
}

#[test]
fn memory_size_is_whole_words() {
    assert_eq!(calculate_memory_size(0, 0).unwrap(), 0);
    assert_eq!(calculate_memory_size(5, 0).unwrap(), 0);
    assert_eq!(calculate_memory_size(0, 1).unwrap(), 32);
    assert_eq!(calculate_memory_size(31, 2).unwrap(), 64);
    assert!(calculate_memory_size(usize::MAX, 1).is_err());
}

#[test]
fn stored_data_and_zeros_are_a_padded_copy() {
    let mut a = Memory::new();
    a.store_data(1, &[1, 2]);
    a.store_zeros(3, 2);
    let mut b = Memory::new();
    b.copy_padded(1, &[0, 1, 2], 1, 4);
    assert_eq!(a.bytes[0..5], b.bytes[0..5]);
    assert_eq!(b.bytes[0..5], [0, 1, 2, 0, 0]);
}

#[test]
fn stack_gives_the_last_words_first() {
    let mut s = Stack::new();
    for n in 1..=4u64 {
        s.push(word(n)).unwrap();
    }
    assert_eq!(s.pop4().unwrap(), (word(4), word(3), word(2), word(1)));
    assert!(matches!(s.pop1(), Err(ExceptionalHalt::StackUnderflow)));
    s.push(word(1)).unwrap();
    assert!(matches!(s.pop3(), Err(ExceptionalHalt::StackUnderflow)));
}
