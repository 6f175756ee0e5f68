use ethrex_core::account::{
    empty_keccak_hash, Account, AccountInfo, AccountState, AccountStatus, Code, LevmAccount,
};
use ethrex_core::bal::{
    code_from_bal, partition_point, post_value_at_or_before, seed_one_storage_slot_from_bal,
    AccountChanges, BalEvent, BlockAccessList, BlockAccessListRecorder, IndexedChange, SlotChange,
};
use ethrex_core::block::Withdrawal;
use ethrex_core::database::Database;
use ethrex_core::error::{DatabaseError, InternalError, VMError};
use ethrex_core::frame::{CallFrame, Memory, Stack};
use ethrex_core::gas_cost::AccessCosts;
use ethrex_core::gen_db::{seed_one_address_info_from_bal, GeneralizedDatabase, LazyBalCursor};
use ethrex_core::backup::CallFrameBackup;
use ethrex_core::payload::fill::{
    abandon_transaction, begin_post_transactions, begin_transaction,
};
use ethrex_core::payload::queue::HeadTransaction;
use ethrex_core::table::Table;
use ethrex_core::transaction::{MempoolTransaction, Transaction, TxType};
use ethrex_core::vm::{Environment, Substate, ValidationObserver, VM};
use ethrex_core::word::{Address, H256, U256};
use std::cell::Cell;
use std::sync::Arc;

/// A store in which account `n` has balance `100 * n` and nonce `n`, and slot `k` of any
/// account has value `k + 1`. Accounts from 1000 on cannot be read.
struct Store {
    reads: Cell<u32>,
}

fn store() -> Store {
    Store { reads: Cell::new(0) }
}

fn failure() -> DatabaseError {
    DatabaseError { message: "unreadable".to_string() }
}

impl Database for Store {
    fn get_account_state(&self, address: Address) -> Result<AccountState, DatabaseError> {
        self.reads.set(self.reads.get() + 1);
        if address.lo >= 1000 {
            return Err(failure());
        }
        if address.lo == 0 {
            return Ok(AccountState::empty());
        }
        let mut state = AccountState::empty();
        state.nonce = address.lo as u64;
        state.balance = U256::from_u64(100 * address.lo as u64);
        if address.lo == 7 {
            state.code_hash = hash(77);
        }
        Ok(state)
    }

    fn get_storage_value(&self, address: Address, key: H256) -> Result<U256, DatabaseError> {
        self.reads.set(self.reads.get() + 1);
        if address.lo >= 1000 {
            return Err(failure());
        }
        Ok(U256 { hi: 0, lo: key.lo + 1 })
    }

    fn get_account_code(&self, code_hash: H256) -> Result<Code, DatabaseError> {
        if code_hash == hash(77) {
            Ok(Code { hash: code_hash, bytecode: vec![0x60, 0x01, 0x00] })
        } else {
            Err(failure())
        }
    }

    fn get_block_hash(&self, block_number: u64) -> Result<H256, DatabaseError> {
        Ok(hash(block_number as u128))
    }
}

fn hash(n: u128) -> H256 {
    H256 { hi: 0, lo: n }
}

fn address(n: u128) -> Address {
    Address { hi: 0, lo: n }
}

fn word(n: u64) -> U256 {
    U256::from_u64(n)
}

fn vm() -> VM<Store> {
    VM {
        db: GeneralizedDatabase::new(store()),
        current_call_frame: CallFrame {
            gas_remaining: 1_000_000,
            stack: Stack::new(),
            memory: Memory::new(),
            calldata: Vec::new(),
            bytecode: Code { hash: empty_keccak_hash(), bytecode: Vec::new() },
            sub_return_data: Vec::new(),
            to: address(1),
            msg_sender: address(2),
            msg_value: U256::zero(),
            call_frame_backup: CallFrameBackup::new(),
        },
        env: Environment {
            origin: address(2),
            gas_price: word(1),
            block_number: 10,
            coinbase: address(3),
            timestamp: 1,
            prev_randao: None,
            block_gas_limit: 1,
            chain_id: word(1),
            base_fee_per_gas: word(1),
            base_blob_fee_per_gas: word(1),
            slot_number: word(1),
            tx_blob_hashes: Vec::new(),
            account_access: AccessCosts { cold: 2600, warm: 100 },
        },
        substate: Substate::new(),
        storage_original_values: Table::new(),
        validation_observer: ValidationObserver { active: false, sender: address(2) },
    }
}

fn access_list() -> BlockAccessList {
    BlockAccessList {
        accounts: vec![
            AccountChanges {
                address: address(5),
                storage_changes: vec![SlotChange {
                    slot: hash(1),
                    slot_changes: vec![
                        IndexedChange { block_access_index: 1, post: word(11) },
                        IndexedChange { block_access_index: 3, post: word(33) },
                    ],
                }],
                balance_changes: vec![IndexedChange { block_access_index: 2, post: word(5000) }],
                nonce_changes: vec![IndexedChange { block_access_index: 2, post: 50 }],
                code_changes: Vec::new(),
            },
            AccountChanges {
                address: address(7),
                storage_changes: Vec::new(),
                balance_changes: Vec::new(),
                nonce_changes: Vec::new(),
                code_changes: vec![IndexedChange {
                    block_access_index: 1,
                    post: Code { hash: hash(88), bytecode: vec![1] },
                }],
            },
        ],
    }
}

#[test]
fn accounts_are_read_once() {
    let mut db = GeneralizedDatabase::new(store());
    assert!(db.must_ask_store(address(3)));
    let account = db.get_account(address(3)).unwrap();
    assert_eq!(account.info.balance, word(300));
    assert_eq!(account.info.nonce, 3);
    assert!(account.exists);
    assert_eq!(db.store.reads.get(), 1);
    assert!(!db.must_ask_store(address(3)));
    db.get_account(address(3)).unwrap();
    assert_eq!(db.store.reads.get(), 1);
    assert!(db.initial_accounts_state.contains_key(address(3)));
}

#[test]
fn unreadable_account_is_an_error() {
    let mut db = GeneralizedDatabase::new(store());
    assert!(matches!(db.get_account(address(1000)), Err(InternalError::Database(_))));
    assert!(db.current_accounts_state.is_empty());
    assert!(matches!(
        db.load_account_from(address(4), Some(Err(failure()))),
        Err(InternalError::Database(_))
    ));
}

#[test]
fn missing_account_is_empty() {
    let mut db = GeneralizedDatabase::new(store());
    let account = db.get_account(address(0)).unwrap();
    assert!(account.is_empty());
    assert!(!account.exists);
    assert_eq!(account.info.code_hash, empty_keccak_hash());
}

#[test]
fn account_to_be_changed_is_marked() {
    let mut db = GeneralizedDatabase::new(store());
    db.get_account_mut(address(3)).unwrap().info.balance = word(1);
    assert_eq!(db.get_account(address(3)).unwrap().status, AccountStatus::Modified);
    assert_eq!(db.get_account(address(3)).unwrap().info.balance, word(1));
}

#[test]
fn shared_base_spares_the_store() {
    let mut base: Table<Address, LevmAccount> = Table::new();
    let mut state = AccountState::empty();
    state.balance = word(9);
    base.insert(address(4), LevmAccount::from_state(state));
    let mut db = GeneralizedDatabase::new_with_shared_base(store(), Arc::new(base));
    assert!(!db.must_ask_store(address(4)));
    assert_eq!(db.get_account(address(4)).unwrap().info.balance, word(9));
    assert_eq!(db.store.reads.get(), 0);
    assert_eq!(db.get_account(address(5)).unwrap().info.balance, word(500));
    assert_eq!(db.store.reads.get(), 1);
}

#[test]
fn given_accounts_are_there_with_code_and_storage() {
    let mut accounts: Table<Address, Account> = Table::new();
    let mut storage: Table<H256, U256> = Table::new();
    storage.insert(hash(1), word(2));
    accounts.insert(
        address(6),
        Account {
            info: AccountInfo { code_hash: hash(66), balance: word(1), nonce: 2 },
            code: Code { hash: hash(66), bytecode: vec![9, 9] },
            storage,
        },
    );
    let mut db = GeneralizedDatabase::new_with_account_state(store(), &accounts);
    assert_eq!(db.get_account(address(6)).unwrap().info.nonce, 2);
    assert_eq!(db.get_account_code(address(6)).unwrap().bytecode, vec![9, 9]);
    assert_eq!(db.get_code_length(address(6)).unwrap(), 2);
    assert_eq!(db.store.reads.get(), 0);
}

#[test]
fn codes_come_from_the_cache_or_the_store() {
    let mut db = GeneralizedDatabase::new(store());
    assert_eq!(db.get_account_code(address(7)).unwrap().bytecode, vec![0x60, 0x01, 0x00]);
    assert_eq!(db.get_code_length(address(7)).unwrap(), 3);
    assert!(db.codes.contains_key(hash(77)));
    assert!(matches!(db.get_code(hash(5)), Err(InternalError::Database(_))));
    assert_eq!(db.get_code_length(address(3)).unwrap(), 0);
    assert_eq!(db.get_code_metadata(hash(77)).unwrap().length, 3);
}

#[test]
fn changes_are_found_by_their_index() {
    let bal = access_list();
    let sc = &bal.accounts[0].storage_changes[0];
    assert_eq!(partition_point(&sc.slot_changes, 0), 0);
    assert_eq!(partition_point(&sc.slot_changes, 1), 1);
    assert_eq!(partition_point(&sc.slot_changes, 2), 1);
    assert_eq!(partition_point(&sc.slot_changes, 3), 2);
    assert_eq!(post_value_at_or_before(sc, 0), None);
    assert_eq!(post_value_at_or_before(sc, 2), Some(word(11)));
    assert_eq!(post_value_at_or_before(sc, 9), Some(word(33)));
    let unordered = SlotChange {
        slot: hash(1),
        slot_changes: vec![
            IndexedChange { block_access_index: 5, post: word(55) },
            IndexedChange { block_access_index: 1, post: word(11) },
            IndexedChange { block_access_index: 7, post: word(77) },
        ],
    };
    assert_eq!(post_value_at_or_before(&unordered, 2), Some(word(11)));
    assert_eq!(post_value_at_or_before(&unordered, 0), None);
    let index = bal.build_validation_index();
    assert_eq!(
        seed_one_storage_slot_from_bal(&bal, &index, 0, hash(1), 3),
        Some(word(33))
    );
    assert_eq!(seed_one_storage_slot_from_bal(&bal, &index, 0, hash(2), 3), None);
    assert_eq!(index.addr_to_idx.get(address(7)), Some(&1));
}

#[test]
fn empty_code_of_a_list_is_no_code() {
    let (h, code) = code_from_bal(&Code { hash: hash(88), bytecode: vec![1] });
    assert_eq!(h, hash(88));
    assert!(code.is_some());
    let (h, code) = code_from_bal(&Code { hash: hash(1), bytecode: Vec::new() });
    assert_eq!(h, empty_keccak_hash());
    assert!(code.is_none());
}

#[test]
fn account_is_seeded_from_the_list() {
    let bal = access_list();
    let mut db = GeneralizedDatabase::new(store());
    assert!(seed_one_address_info_from_bal(&mut db, &bal, 0, 2).unwrap());
    let account = db.get_account(address(5)).unwrap();
    assert_eq!(account.info.balance, word(5000));
    assert_eq!(account.info.nonce, 50);
    let mut early = GeneralizedDatabase::new(store());
    assert!(!seed_one_address_info_from_bal(&mut early, &bal, 0, 1).unwrap());
}

#[test]
fn lazy_list_answers_before_the_store() {
    let bal = Arc::new(access_list());
    let index = Arc::new(bal.build_validation_index());
    let mut machine = vm();
    machine.db.lazy_bal = Some(LazyBalCursor::new(bal, 4, index));
    assert_eq!(machine.db.get_account(address(5)).unwrap().info.balance, word(5000));
    assert_eq!(machine.get_storage_value(address(5), hash(1)).unwrap(), word(33));
    assert_eq!(machine.get_storage_value(address(5), hash(2)).unwrap(), word(3));
    assert_eq!(machine.db.get_account(address(3)).unwrap().info.balance, word(300));
}

#[test]
fn failed_load_under_a_lazy_list_says_what_was_done() {
    let mut list = access_list();
    list.accounts[0].address = address(1000);
    let bal = Arc::new(list);
    let index = Arc::new(bal.build_validation_index());
    let mut db = GeneralizedDatabase::new(store());
    db.lazy_bal = Some(LazyBalCursor::new(bal, 4, index));
    let expected = format!("lazy_bal seed: seed_db_from_bal load: {}", failure().message);
    match db.get_account(address(1000)) {
        Err(InternalError::Custom(why)) => assert_eq!(why, expected),
        _ => panic!("expected a failed load"),
    }
}

#[test]
fn state_transitions_tell_what_changed() {
    let mut machine = vm();
    machine.increase_account_balance(address(3), word(5)).unwrap();
    assert!(matches!(
        machine.get_storage_value(address(4), hash(1)),
        Err(InternalError::AccountNotFound)
    ));
    machine.db.get_account(address(4)).unwrap();
    machine.get_storage_value(address(4), hash(1)).unwrap();
    machine.update_account_storage(address(4), hash(1), word(1), word(9), word(2)).unwrap();
    machine.db.get_account(address(5)).unwrap();
    let updates = machine.db.get_state_transitions().unwrap();
    assert_eq!(updates.len(), 2);
    for update in &updates {
        if update.address == address(3) {
            assert_eq!(update.info.unwrap().balance, word(305));
            assert!(update.added_storage.is_empty());
        } else {
            assert_eq!(update.address, address(4));
            assert!(update.info.is_none());
            assert_eq!(update.added_storage.get(hash(1)), Some(&word(9)));
        }
        assert!(!update.removed);
    }
}

#[test]
fn transitions_of_a_transaction_move_the_baseline() {
    let mut machine = vm();
    machine.increase_account_balance(address(3), word(5)).unwrap();
    let first = machine.db.get_state_transitions_tx().unwrap();
    assert_eq!(first.len(), 1);
    assert_eq!(first[0].info.unwrap().balance, word(305));
    let second = machine.db.get_state_transitions_tx().unwrap();
    assert!(second.is_empty());
    assert_eq!(machine.db.get_account(address(3)).unwrap().info.balance, word(305));
}

#[test]
fn account_without_baseline_has_no_transition() {
    let mut db = GeneralizedDatabase::new(store());
    db.skip_initial_tracking = true;
    db.get_account_mut(address(3)).unwrap().info.balance = word(1);
    match db.get_state_transitions() {
        Err(VMError::Internal(InternalError::Custom(why))) => {
            assert_eq!(why, "Failed to get account 0x0000…0003 from immutable cache")
        }
        _ => panic!("expected a missing baseline"),
    }
}

#[test]
fn account_that_came_back_reads_zero_where_it_wrote_nothing() {
    let mut machine = vm();
    machine.db.get_account(address(4)).unwrap();
    machine.get_storage_value(address(4), hash(1)).unwrap();
    let account = machine.db.get_account_mut(address(4)).unwrap();
    account.status = AccountStatus::DestroyedModified;
    account.storage.clear();
    // The baseline and the store have other values.
    assert_eq!(machine.get_storage_value(address(4), hash(1)).unwrap(), U256::zero());
    assert_eq!(machine.get_storage_value(address(4), hash(6)).unwrap(), U256::zero());
    let cached = &machine.db.get_account(address(4)).unwrap().storage;
    assert_eq!(cached.get(hash(1)), Some(&U256::zero()));
    assert_eq!(cached.get(hash(6)), Some(&U256::zero()));
    assert!(!machine.db.initial_accounts_state.get(address(4)).unwrap().storage.contains_key(hash(6)));
    // What was only read is no change, and what is written is one.
    machine.update_account_storage(address(4), hash(6), word(6), word(9), word(0)).unwrap();
    let updates = machine.db.get_state_transitions().unwrap();
    assert_eq!(updates.len(), 1);
    assert_eq!(updates[0].added_storage.get(hash(6)), Some(&word(9)));
    assert_eq!(updates[0].added_storage.get(hash(1)), None);
}

#[test]
fn slot_without_baseline_has_no_transition() {
    let unmatched = || {
        let mut db = GeneralizedDatabase::new(store());
        db.get_account_mut(address(3)).unwrap().storage.insert(hash(7), word(1));
        db
    };
    match unmatched().get_state_transitions() {
        Err(VMError::Internal(InternalError::Custom(why))) => assert_eq!(
            why,
            format!(
                "Failed to get old value from account's initial storage for address: 0x{:040x}. For key: 0x{:064x}",
                3, 7
            )
        ),
        _ => panic!("expected a missing slot"),
    }
    match unmatched().get_state_transitions_tx() {
        Err(VMError::Internal(InternalError::Custom(why))) => assert_eq!(
            why,
            "Failed to get old value from account's initial storage for address: 0x0000…0003"
        ),
        _ => panic!("expected a missing slot"),
    }
    let mut db = GeneralizedDatabase::new(store());
    db.get_account_mut(address(3)).unwrap().info.code_hash = hash(77);
    match db.get_state_transitions() {
        Err(VMError::Internal(InternalError::Custom(why))) => {
            assert_eq!(why, "Failed to get code for account 0x0000…0003")
        }
        _ => panic!("expected a missing code"),
    }
}

#[test]
fn undo_leads_back() {
    let mut machine = vm();
    machine.db.get_account(address(3)).unwrap();
    machine.db.get_account(address(4)).unwrap();
    machine.get_storage_value(address(4), hash(1)).unwrap();
    machine.transfer(address(3), address(4), word(50)).unwrap();
    machine.increment_account_nonce(address(3)).unwrap();
    machine.update_account_storage(address(4), hash(1), word(1), word(9), word(2)).unwrap();
    machine
        .update_account_bytecode(
            address(3),
            Code { hash: hash(99), bytecode: vec![1, 2, 3] },
        )
        .unwrap();
    assert_eq!(machine.db.get_account(address(4)).unwrap().info.balance, word(450));
    machine.db.restore_cache_state(&machine.current_call_frame.call_frame_backup).unwrap();
    assert_eq!(machine.db.get_account(address(3)).unwrap().info.balance, word(300));
    assert_eq!(machine.db.get_account(address(3)).unwrap().info.nonce, 3);
    assert_eq!(machine.db.get_account(address(3)).unwrap().info.code_hash, empty_keccak_hash());
    assert_eq!(machine.db.get_account(address(4)).unwrap().info.balance, word(400));
    assert_eq!(machine.get_storage_value(address(4), hash(1)).unwrap(), word(2));
}

#[test]
fn undo_needs_a_backup() {
    let mut db = GeneralizedDatabase::new(store());
    let missing = "Transaction backup not found. Was BackupHook enabled?";
    assert!(matches!(db.get_tx_backup(), Err(InternalError::Custom(why)) if why == missing));
    assert!(matches!(
        db.undo_last_transaction(),
        Err(VMError::Internal(InternalError::Custom(why))) if why == missing
    ));
    db.tx_backup = Some(CallFrameBackup::new());
    assert!(db.undo_last_transaction().is_ok());
}

#[test]
fn transfer_conserves_and_checks_balances() {
    let mut machine = vm();
    machine.transfer(address(3), address(4), word(300)).unwrap();
    assert_eq!(machine.db.get_account(address(3)).unwrap().info.balance, word(0));
    assert_eq!(machine.db.get_account(address(4)).unwrap().info.balance, word(700));
    assert!(matches!(
        machine.transfer(address(3), address(4), word(1)),
        Err(InternalError::Underflow)
    ));
    assert!(matches!(
        machine.increase_account_balance(
            address(4),
            U256 { hi: u128::MAX, lo: u128::MAX }
        ),
        Err(InternalError::Overflow)
    ));
    machine.transfer(address(4), address(4), word(5)).unwrap();
    assert_eq!(machine.db.get_account(address(4)).unwrap().info.balance, word(700));
}

#[test]
fn nonce_counts_up() {
    let mut machine = vm();
    assert_eq!(machine.increment_account_nonce(address(3)).unwrap(), 4);
    assert_eq!(machine.db.get_account(address(3)).unwrap().info.nonce, 4);
    machine.db.get_account_mut(address(3)).unwrap().info.nonce = u64::MAX;
    assert!(matches!(
        machine.increment_account_nonce(address(3)),
        Err(InternalError::Overflow)
    ));
}

#[test]
fn slots_are_cold_once_and_remember_their_original_value() {
    let mut machine = vm();
    machine.db.get_account(address(4)).unwrap();
    let (value, original, cold) =
        machine.access_storage_slot_for_sstore(address(4), hash(1)).unwrap();
    assert_eq!((value, original, cold), (word(2), word(2), true));
    machine.update_account_storage(address(4), hash(1), word(1), word(9), word(2)).unwrap();
    let (value, original, cold) =
        machine.access_storage_slot_for_sstore(address(4), hash(1)).unwrap();
    assert_eq!((value, original, cold), (word(9), word(2), false));
}

#[test]
fn slot_reads_and_writes_are_recorded() {
    let mut machine = vm();
    machine.db.enable_bal_recording();
    machine.db.get_account(address(4)).unwrap();
    machine.record_storage_slot_to_bal(address(4), word(1));
    machine.get_storage_value(address(4), hash(1)).unwrap();
    machine.update_account_storage(address(4), hash(1), word(1), word(9), word(2)).unwrap();
    machine.update_account_storage(address(4), hash(1), word(1), word(9), word(9)).unwrap();
    let events = machine.db.take_bal().unwrap().events;
    assert!(matches!(&events[0].1, BalEvent::StorageRead(a, k) if *a == address(4) && *k == word(1)));
    assert!(events.iter().any(|(_, e)| matches!(
        e,
        BalEvent::StorageWrite(a, k, v) if *a == address(4) && *k == word(1) && *v == word(9)
    )));
    assert!(matches!(&events[events.len() - 1].1, BalEvent::StorageRead(_, _)));
}

#[test]
fn substate_tells_cold_from_warm() {
    let mut s = Substate::new();
    assert!(s.add_accessed_address(address(1)));
    assert!(!s.add_accessed_address(address(1)));
    assert!(s.add_accessed_slot(address(1), hash(1)));
    assert!(!s.add_accessed_slot(address(1), hash(1)));
    assert!(s.add_accessed_slot(address(2), hash(1)));
}

fn frame_transaction(tx_type: TxType) -> HeadTransaction {
    HeadTransaction {
        tx: MempoolTransaction {
            transaction: Transaction {
                tx_type,
                hash: hash(1),
                nonce: 0,
                gas_limit: 21000,
                to: Some(address(9)),
                value: U256::zero(),
                data_len: 0,
                gas_fee_cap: word(1),
                gas_tip_cap: word(1),
                max_priority_fee: None,
                max_fee_per_gas: None,
                max_fee_per_blob_gas: None,
                blob_hash_count: 0,
                authorization_count: 0,
                chain_id: None,
                protected: true,
                encoded_len: 10,
                expiry_deadline: None,
            },
            sender: address(8),
            time: 0,
        },
        tip: word(1),
    }
}

#[test]
fn abandoned_transaction_leaves_no_trace_in_the_list() {
    let mut db = GeneralizedDatabase::new(store());
    db.enable_bal_recording();
    db.record(BalEvent::TouchedAddress(address(1)));
    let mark = begin_transaction(&mut db, 2, &frame_transaction(TxType::EIP1559));
    assert!(mark.is_some());
    db.record(BalEvent::BalanceChange(address(1), word(5)));
    abandon_transaction(&mut db, mark);
    let taken = db.take_bal().unwrap();
    assert_eq!(taken.events.len(), 1);
    assert!(db.take_bal().is_none());
}

#[test]
fn recorder_files_events_under_their_index() {
    let mut r = BlockAccessListRecorder::new();
    r.tell(BalEvent::NonceChange(address(1), 1));
    r.set_block_access_index(4);
    r.tell(BalEvent::StorageRead(address(1), word(2)));
    let mark = r.tx_checkpoint();
    r.tell(BalEvent::StorageWrite(address(1), word(2), word(3)));
    r.tx_restore(mark);
    assert_eq!(r.events.len(), 2);
    assert_eq!(r.events[1].0, 4);
}

#[test]
fn withdrawals_are_filed_after_the_transactions() {
    let mut db = GeneralizedDatabase::new(store());
    db.enable_bal_recording();
    let list = vec![
        Withdrawal { index: 0, validator_index: 0, address: address(5), amount: 1 },
        Withdrawal { index: 1, validator_index: 0, address: address(6), amount: 0 },
    ];
    begin_post_transactions(&mut db, 3, &list);
    let recorder = db.bal_recorder_mut().unwrap();
    assert_eq!(recorder.block_access_index, 4);
    for (index, _) in recorder.events.iter() {
        assert_eq!(*index, 4);
    }
    db.set_bal_index(9);
    assert_eq!(db.bal_recorder_mut().unwrap().block_access_index, 9);
    db.disable_bal_recording();
    assert!(db.bal_recorder_mut().is_none());
}
