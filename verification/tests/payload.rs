use ethrex_core::block::{Block, BlockBody, BlockHeader, Log, Receipt, Withdrawal};
use ethrex_core::chain_error::{
    decimal_text, has_text, is_nonce_mismatch, ChainError, EvmError, InvalidBlockError,
    TxValidationError,
};
use ethrex_core::config::ChainConfig;
use ethrex_core::payload::context::{
    add_to_payload, admit_blob_transaction, apply_plain_transaction, effective_max_blobs,
    finalize_payload, overflows_block, payload_logs, payload_parent, settle_blobs,
    ExecutionReport, PayloadBuildContext, PayloadBuildResult, PayloadRoots,
};
use ethrex_core::payload::create::{
    calc_gas_limit, create_payload, BuildPayloadArgs, BuildPayloadArgsError, PayloadParent,
};
use ethrex_core::payload::fill::{
    explicit_head, fill_outcome, fill_step, mempool_filters, FillQueues, FillRules, FillStep,
};
use ethrex_core::payload::queue::{HeadTransaction, TransactionQueue};
use ethrex_core::payload::slots::{
    build_phases, BuildPhase, PayloadLoop, PayloadSlots, Rebuild, MAX_PAYLOADS, SLOT_MILLIS,
};
use ethrex_core::table::Table;
use ethrex_core::transaction::{MempoolTransaction, Transaction, TxType, GAS_PER_BLOB};
use ethrex_core::word::{Address, H256, U256};

fn hash(n: u128) -> H256 {
    H256 { hi: 0, lo: n }
}

fn address(n: u128) -> Address {
    Address { hi: 0, lo: n }
}

fn config() -> ChainConfig {
    ChainConfig {
        chain_id: 1,
        eip155_block: Some(0),
        shanghai_time: Some(0),
        cancun_time: Some(0),
        prague_time: Some(0),
        osaka_time: None,
        amsterdam_time: None,
        hegota_time: None,
    }
}

fn transaction(tx_type: TxType, id: u128, nonce: u64, tip: u64) -> Transaction {
    Transaction {
        tx_type,
        hash: hash(id),
        nonce,
        gas_limit: 21000,
        to: Some(address(99)),
        value: U256::zero(),
        data_len: 0,
        gas_fee_cap: U256::from_u64(1000),
        gas_tip_cap: U256::from_u64(tip),
        max_priority_fee: Some(tip),
        max_fee_per_gas: Some(1000),
        max_fee_per_blob_gas: None,
        blob_hash_count: 0,
        authorization_count: 0,
        chain_id: Some(1),
        protected: true,
        encoded_len: 100,
        expiry_deadline: None,
    }
}

fn waiting(tx: Transaction, sender: u128, time: u64) -> MempoolTransaction {
    MempoolTransaction { transaction: tx, sender: address(sender), time }
}

fn head(tx: Transaction, sender: u128, time: u64, tip: u64) -> HeadTransaction {
    HeadTransaction { tx: waiting(tx, sender, time), tip: U256::from_u64(tip) }
}

fn queue(lists: Vec<Vec<MempoolTransaction>>, base_fee: Option<u64>) -> TransactionQueue {
    let mut txs: Table<Address, Vec<MempoolTransaction>> = Table::new();
    for list in lists {
        let sender = list[0].sender;
        txs.insert(sender, list);
    }
    TransactionQueue::new(txs, base_fee).unwrap()
}

fn args(version: u8) -> BuildPayloadArgs {
    BuildPayloadArgs {
        parent: hash(1),
        timestamp: 12,
        fee_recipient: address(2),
        random: hash(3),
        withdrawals: None,
        beacon_root: None,
        slot_number: Some(5),
        version,
        elasticity_multiplier: 2,
        gas_ceil: 30_000_000,
    }
}

fn parent() -> PayloadParent {
    PayloadParent {
        state_root: hash(7),
        number: 8,
        gas_limit: 30_000_000,
        base_fee_per_gas: Some(10),
        excess_blob_gas: Some(0),
        withdrawals_root: hash(9),
    }
}

fn payload() -> Block {
    create_payload(&args(3), &parent(), &config(), vec![1, 2])
}

fn context() -> PayloadBuildContext {
    PayloadBuildContext::new(payload(), &config(), U256::from_u64(1), 600)
}

fn report(used: u64, spent: u64, state: u64) -> ExecutionReport {
    ExecutionReport { gas_used: used, gas_spent: spent, state_gas_used: state }
}

#[test]
fn nonce_mismatch_detected_from_chain_error() {
    let nonce_err: ChainError = ChainError::from_evm(EvmError::from_validation(
        &TxValidationError::NonceMismatch { expected: 5, actual: 7 },
    ));
    assert!(
        is_nonce_mismatch(&nonce_err),
        "is_nonce_mismatch must match the real NonceMismatch Display; got: {}",
        nonce_err.to_text()
    );
    let other: ChainError = ChainError::from_evm(EvmError::from_validation(
        &TxValidationError::InsufficientAccountFunds,
    ));
    assert!(
        !is_nonce_mismatch(&other),
        "is_nonce_mismatch must not match unrelated errors; got: {}",
        other.to_text()
    );
}

#[test]
fn errors_are_reported_in_words() {
    let e = ChainError::from_evm(EvmError::from_validation(&TxValidationError::NonceMismatch {
        expected: 5,
        actual: 17,
    }));
    assert_eq!(
        e.to_text(),
        "Invalid Block: Invalid Transaction: Nonce mismatch: expected 5, got 17"
    );
    assert!(matches!(
        e,
        ChainError::InvalidBlock(InvalidBlockError::InvalidTransaction(_))
    ));
    assert!(matches!(
        ChainError::from_evm(EvmError::DB("gone".to_string())),
        ChainError::EvmError(EvmError::DB(_))
    ));
    assert_eq!(decimal_text(0), "0");
    assert_eq!(decimal_text(u64::MAX), "18446744073709551615");
    assert!(has_text("a needle here", "needle"));
    assert!(!has_text("a needle here", "noodle"));
    assert!(has_text("abc", ""));
    assert!(!has_text("ab", "abc"));
}

#[test]
fn gas_limit_moves_towards_the_ceiling() {
    assert_eq!(calc_gas_limit(30_000_000, 30_000_000), 30_000_000);
    assert_eq!(calc_gas_limit(30_000_000, 60_000_000), 30_000_000 + 29_295);
    assert_eq!(calc_gas_limit(30_000_000, 1), 30_000_000 - 29_295);
    assert_eq!(calc_gas_limit(30_000_000, 30_000_100), 30_000_100);
    assert_eq!(calc_gas_limit(6_144, 0), 6_144 - 5);
}

#[test]
fn gas_limit_never_leaves_its_bounds() {
    for ceil in [0u64, 5000, 29_999_999, 30_000_001, 100_000_000] {
        let next = calc_gas_limit(30_000_000, ceil);
        assert!(next < 30_000_000 + 30_000_000 / 1024);
        assert!(next > 30_000_000 - 30_000_000 / 1024);
    }
}

#[test]
fn payload_identifier_starts_with_the_version() {
    let digest = [0xffu8, 1, 2, 3, 4, 5, 6, 7, 8, 9];
    assert_eq!(args(3).id(&digest), Ok(0x0301_0203_0405_0607));
    assert_eq!(args(4).id(&digest), Ok(0x0401_0203_0405_0607));
    assert_eq!(args(3).id(&digest[0..7]), Err(BuildPayloadArgsError::FailedToConvertPayload));
}

#[test]
fn preimage_counts_slot_and_ceiling_from_version_four_on() {
    let three = args(3).id_preimage(&[]);
    let four = args(4).id_preimage(&[]);
    assert_eq!(three.len(), 32 + 8 + 32 + 20);
    assert_eq!(four.len(), three.len() + 16);
    assert_eq!(&four[0..three.len()], &three[..]);
    let mut other = args(4);
    other.gas_ceil += 1;
    assert!(other.id_preimage(&[]) != four);
    let mut later = args(4);
    later.slot_number = Some(6);
    assert!(later.id_preimage(&[]) != four);
    let mut early = args(3);
    early.gas_ceil += 1;
    assert_eq!(early.id_preimage(&[]), three);
    let mut with = args(3);
    with.withdrawals = Some(Vec::new());
    assert_eq!(with.id_preimage(&[0xc0]).len(), three.len() + 1);
}

#[test]
fn payload_starts_from_its_parent() {
    let block = payload();
    assert_eq!(block.header.parent_hash, hash(1));
    assert_eq!(block.header.number, 9);
    assert_eq!(block.header.state_root, hash(7));
    assert_eq!(block.header.coinbase, address(2));
    assert_eq!(block.header.gas_limit, 30_000_000);
    assert_eq!(block.header.gas_used, 0);
    assert_eq!(block.header.timestamp, 12);
    assert_eq!(block.header.base_fee_per_gas, Some(10));
    assert_eq!(block.header.withdrawals_root, Some(hash(9)));
    assert_eq!(block.header.blob_gas_used, Some(0));
    assert_eq!(block.header.logs_bloom.len(), 256);
    assert_eq!(block.header.extra_data, vec![1, 2]);
    assert!(block.body.transactions.is_empty());
}

#[test]
fn better_tips_and_earlier_times_go_first() {
    let a = head(transaction(TxType::EIP1559, 1, 0, 5), 1, 10, 5);
    let b = head(transaction(TxType::EIP1559, 2, 0, 7), 2, 20, 7);
    let c = head(transaction(TxType::EIP1559, 3, 0, 7), 3, 15, 7);
    let p = head(transaction(TxType::Privileged, 4, 0, 0), 4, 99, 0);
    let q = head(transaction(TxType::Privileged, 5, 1, 0), 4, 1, 0);
    assert!(b.is_ahead_of(&a));
    assert!(!a.is_ahead_of(&b));
    assert!(c.is_ahead_of(&b));
    assert!(p.is_ahead_of(&b));
    assert!(!b.is_ahead_of(&p));
    assert!(p.is_ahead_of(&q));
    assert!(!a.is_ahead_of(&a));
}

#[test]
fn queue_gives_the_best_head_and_keeps_nonce_order() {
    let mut q = queue(
        vec![
            vec![
                waiting(transaction(TxType::EIP1559, 1, 0, 5), 1, 1),
                waiting(transaction(TxType::EIP1559, 2, 1, 50), 1, 1),
            ],
            vec![waiting(transaction(TxType::EIP1559, 3, 0, 20), 2, 1)],
        ],
        Some(10),
    );
    assert_eq!(q.peek().unwrap().tx.transaction.hash, hash(3));
    assert!(q.shift().is_ok());
    assert_eq!(q.peek().unwrap().tx.transaction.hash, hash(1));
    assert!(q.shift().is_ok());
    assert_eq!(q.peek().unwrap().tx.transaction.hash, hash(2));
    assert_eq!(q.peek().unwrap().tip, U256::from_u64(50));
    assert!(q.shift().is_ok());
    assert!(q.is_empty());
}

#[test]
fn queue_pop_passes_over_the_whole_sender() {
    let mut q = queue(
        vec![
            vec![
                waiting(transaction(TxType::EIP1559, 1, 0, 50), 1, 1),
                waiting(transaction(TxType::EIP1559, 2, 1, 50), 1, 1),
            ],
            vec![waiting(transaction(TxType::EIP1559, 3, 0, 20), 2, 1)],
        ],
        None,
    );
    q.pop();
    assert_eq!(q.peek().unwrap().tx.transaction.hash, hash(3));
    q.pop();
    assert!(q.peek().is_none());
    q.pop();
    assert!(q.is_empty());
    let mut full = queue(vec![vec![waiting(transaction(TxType::EIP1559, 1, 0, 5), 1, 1)]], None);
    full.clear();
    assert!(full.is_empty());
}

#[test]
fn queue_refuses_what_the_filter_should_have_held_back() {
    let mut txs: Table<Address, Vec<MempoolTransaction>> = Table::new();
    let mut poor = transaction(TxType::EIP1559, 1, 0, 5);
    poor.gas_fee_cap = U256::from_u64(9);
    txs.insert(address(1), vec![waiting(poor, 1, 1)]);
    assert!(matches!(
        TransactionQueue::new(txs, Some(10)),
        Err(ChainError::InvalidBlock(InvalidBlockError::InvalidTransaction(_)))
    ));
    let mut q = queue(
        vec![vec![waiting(transaction(TxType::EIP1559, 2, 0, 5), 1, 1), waiting(poor, 1, 1)]],
        Some(10),
    );
    assert!(q.shift().is_err());
    assert!(q.is_empty());
}

#[test]
fn tip_is_bounded_by_what_the_fee_cap_leaves() {
    let tx = transaction(TxType::EIP1559, 1, 0, 50);
    assert_eq!(tx.effective_gas_tip(None), Some(U256::from_u64(50)));
    assert_eq!(tx.effective_gas_tip(Some(10)), Some(U256::from_u64(50)));
    assert_eq!(tx.effective_gas_tip(Some(990)), Some(U256::from_u64(10)));
    assert_eq!(tx.effective_gas_tip(Some(1000)), Some(U256::zero()));
    assert_eq!(tx.effective_gas_tip(Some(1001)), None);
}

#[test]
fn cost_counts_gas_blobs_and_value() {
    let mut tx = transaction(TxType::EIP4844, 1, 0, 1);
    tx.value = U256::from_u64(7);
    tx.max_fee_per_blob_gas = Some(U256::from_u64(3));
    tx.blob_hash_count = 2;
    let expected = 1000 * 21000 + 3 * GAS_PER_BLOB * 2 + 7;
    assert_eq!(tx.cost_without_base_fee(), Some(U256::from_u64(expected)));
    tx.value = U256 { hi: u128::MAX, lo: u128::MAX };
    assert_eq!(tx.cost_without_base_fee(), None);
}

#[test]
fn executed_transactions_are_settled() {
    let mut c = context();
    assert_eq!(c.remaining_gas, 30_000_000);
    let h = head(transaction(TxType::EIP1559, 1, 0, 5), 1, 1, 5);
    assert!(apply_plain_transaction(&h, &mut c, &report(21000, 20000, 0), 20000).is_ok());
    assert_eq!(c.remaining_gas, 30_000_000 - 21000);
    assert_eq!(c.cumulative_gas_spent, 20000);
    assert_eq!(c.block_value, U256::from_u64(5 * 20000));
    assert_eq!(c.gas_used(), 21000);
    assert_eq!(c.parent_hash(), hash(1));
    assert_eq!(c.block_number(), 9);
    assert_eq!(c.base_fee_per_gas(), Some(10));
}

#[test]
fn state_gas_is_counted_apart_and_may_overflow() {
    let mut c = context();
    c.is_amsterdam = true;
    let h = head(transaction(TxType::EIP1559, 1, 0, 5), 1, 1, 5);
    assert!(apply_plain_transaction(&h, &mut c, &report(100, 100, 60), 100).is_ok());
    assert_eq!(c.block_regular_gas_used, 40);
    assert_eq!(c.block_state_gas_used, 60);
    assert_eq!(c.gas_used(), 60);
    assert_eq!(c.remaining_gas, 30_000_000 - 60);
    let before_value = c.block_value;
    let e = apply_plain_transaction(&h, &mut c, &report(30_000_000, 10, 30_000_000), 110);
    match e {
        Err(ChainError::EvmError(EvmError::Custom(why))) => assert_eq!(
            why,
            "block gas limit exceeded (state gas overflow): max(40, 30000060) = 30000060 > gas_limit 30000000"
        ),
        _ => panic!("expected an overflow"),
    }
    assert_eq!(c.cumulative_gas_spent, 100);
    assert_eq!(c.block_state_gas_used, 60);
    assert_eq!(c.block_value, before_value);
}

#[test]
fn blobs_are_limited_and_settled() {
    assert_eq!(effective_max_blobs(Some(9), None), 9);
    assert_eq!(effective_max_blobs(Some(9), Some(6)), 6);
    assert_eq!(effective_max_blobs(Some(9), Some(12)), 9);
    let mut c = context();
    let tx = transaction(TxType::EIP4844, 1, 0, 5);
    assert!(matches!(admit_blob_transaction(&c, &tx, Some(6), 6), Ok(6)));
    let mut hashed = tx;
    hashed.hash = hash(0xabcd);
    match admit_blob_transaction(&c, &hashed, None, 6) {
        Err(ChainError::StoreError(why)) => {
            assert_eq!(why, "No blobs bundle found for blob tx 0x0000…abcd")
        }
        _ => panic!("expected a missing bundle"),
    }
    settle_blobs(&mut c, 4, true);
    assert_eq!(c.blob_count, 4);
    assert_eq!(c.payload.header.blob_gas_used, Some(4 * GAS_PER_BLOB));
    match admit_blob_transaction(&c, &tx, Some(3), 6) {
        Err(ChainError::EvmError(EvmError::Custom(why))) => {
            assert_eq!(why, "max data blobs reached")
        }
        _ => panic!("expected the blob limit"),
    }
    let mut explicit = context();
    explicit.explicit_build = true;
    let mut named = tx;
    named.blob_hash_count = 2;
    assert!(matches!(admit_blob_transaction(&explicit, &named, None, 6), Ok(2)));
}

#[test]
fn given_blob_transactions_bring_no_bundle() {
    let mut c = context();
    c.explicit_build = true;
    let mut tx = transaction(TxType::EIP4844, 1, 0, 5);
    tx.blob_hash_count = 1;
    // A bundle that the pool has does not count.
    assert!(matches!(admit_blob_transaction(&c, &tx, Some(2), 6), Ok(1)));
    settle_blobs(&mut c, 1, true);
    settle_blobs(&mut c, 3, false);
    assert_eq!(c.blob_count, 0);
    assert_eq!(c.payload.header.blob_gas_used, Some(4 * GAS_PER_BLOB));
}

#[test]
fn refused_transaction_may_earn_any_value() {
    let mut c = context();
    c.is_amsterdam = true;
    let mut h = head(transaction(TxType::EIP1559, 1, 0, 5), 1, 1, 5);
    h.tip = U256 { hi: u128::MAX, lo: u128::MAX };
    let too_much = report(30_000_001, 30_000_001, 0);
    assert!(overflows_block(&c, &too_much));
    assert!(apply_plain_transaction(&h, &mut c, &too_much, 30_000_001).is_err());
    assert_eq!(c.cumulative_gas_spent, 0);
    assert_eq!(c.block_regular_gas_used, 0);
    assert_eq!(c.block_value, U256::zero());
}

#[test]
fn payload_needs_its_parent() {
    match payload_parent(Ok(None)) {
        Err(EvmError::DB(why)) => assert_eq!(why, "parent header not found"),
        _ => panic!("expected a missing parent"),
    }
    assert!(matches!(payload_parent(Err("io".to_string())), Err(EvmError::DB(why)) if why == "io"));
}

#[test]
fn finished_payload_carries_its_roots() {
    let mut c = context();
    let h = head(transaction(TxType::EIP1559, 1, 0, 5), 1, 1, 5);
    assert!(apply_plain_transaction(&h, &mut c, &report(21000, 21000, 0), 21000).is_ok());
    let log = Log { address: address(4), topics: vec![hash(5)], data: vec![6] };
    add_to_payload(
        &mut c,
        &h,
        Receipt {
            tx_type: TxType::EIP1559,
            succeeded: true,
            cumulative_gas_used: 21000,
            logs: vec![log],
        },
    );
    assert_eq!(c.payload.body.transactions.len(), 1);
    assert_eq!(payload_logs(&c).len(), 1);
    assert_eq!(payload_logs(&c)[0].topics, vec![hash(5)]);
    finalize_payload(
        &mut c,
        PayloadRoots {
            state_root: hash(21),
            transactions_root: hash(22),
            receipts_root: hash(23),
            requests_hash: Some(hash(24)),
            block_access_list_hash: None,
            logs_bloom: vec![0; 256],
        },
    );
    assert_eq!(c.payload.header.state_root, hash(21));
    assert_eq!(c.payload.header.transactions_root, hash(22));
    assert_eq!(c.payload.header.receipts_root, hash(23));
    assert_eq!(c.payload.header.requests_hash, Some(hash(24)));
    assert_eq!(c.payload.header.gas_used, 21000);
    let result = PayloadBuildResult::from_context(c);
    assert_eq!(result.payload.body.transactions.len(), 1);
    assert_eq!(result.receipts.len(), 1);
    assert_eq!(result.block_value, U256::from_u64(5 * 21000));
}

fn rules() -> FillRules {
    FillRules {
        config: config(),
        max_blobs: 6,
        max_block_size: 10_000_000,
        tx_max_gas_limit: 16_777_216,
    }
}

#[test]
fn best_transaction_is_tried_first() {
    let mut queues = FillQueues {
        plain: queue(vec![vec![waiting(transaction(TxType::EIP1559, 1, 0, 5), 1, 1)]], Some(10)),
        blob: queue(vec![vec![waiting(transaction(TxType::EIP4844, 2, 0, 9), 2, 1)]], Some(10)),
    };
    let mut c = context();
    match fill_step(&mut queues, &mut c, &rules()) {
        FillStep::Run { head, is_blob } => {
            assert_eq!(head.tx.transaction.hash, hash(2));
            assert!(is_blob);
        }
        _ => panic!("expected a transaction"),
    }
    assert!(matches!(fill_outcome(&mut queues, true, None), Ok(None)));
    match fill_step(&mut queues, &mut c, &rules()) {
        FillStep::Run { head, is_blob } => {
            assert_eq!(head.tx.transaction.hash, hash(1));
            assert!(!is_blob);
        }
        _ => panic!("expected a transaction"),
    }
    assert!(matches!(fill_outcome(&mut queues, false, None), Ok(None)));
    assert_eq!(fill_step(&mut queues, &mut c, &rules()), FillStep::Done);
}

#[test]
fn filling_stops_when_gas_or_transactions_run_out() {
    let mut queues = FillQueues {
        plain: queue(vec![vec![waiting(transaction(TxType::EIP1559, 1, 0, 5), 1, 1)]], Some(10)),
        blob: queue(Vec::new(), Some(10)),
    };
    let mut c = context();
    c.remaining_gas = 20_999;
    assert_eq!(fill_step(&mut queues, &mut c, &rules()), FillStep::Done);
    assert!(!queues.plain.is_empty());
    let mut large = transaction(TxType::EIP1559, 1, 0, 5);
    large.gas_limit = 50_000;
    let mut too_large = FillQueues {
        plain: queue(vec![vec![waiting(large, 1, 1)]], Some(10)),
        blob: queue(Vec::new(), Some(10)),
    };
    let mut c = context();
    c.remaining_gas = 30_000;
    assert_eq!(fill_step(&mut too_large, &mut c, &rules()), FillStep::Skipped);
    assert!(too_large.plain.is_empty());
}

#[test]
fn full_block_takes_no_more_blobs() {
    let mut queues = FillQueues {
        plain: queue(vec![vec![waiting(transaction(TxType::EIP1559, 1, 0, 5), 1, 1)]], Some(10)),
        blob: queue(vec![vec![waiting(transaction(TxType::EIP4844, 2, 0, 9), 2, 1)]], Some(10)),
    };
    let mut c = context();
    c.blob_count = 6;
    match fill_step(&mut queues, &mut c, &rules()) {
        FillStep::Run { head, is_blob } => {
            assert_eq!(head.tx.transaction.hash, hash(1));
            assert!(!is_blob);
        }
        _ => panic!("expected the plain transaction"),
    }
    assert!(queues.blob.is_empty());
}

#[test]
fn failed_frame_transactions_leave_the_pool_unless_only_early() {
    let frame = transaction(TxType::Frame, 1, 0, 5);
    let failure = ChainError::Custom("broken".to_string());
    let early = ChainError::from_evm(EvmError::from_validation(
        &TxValidationError::NonceMismatch { expected: 1, actual: 2 },
    ));
    for (e, expected) in [(&failure, Some(hash(1))), (&early, None)] {
        let mut queues = FillQueues {
            plain: queue(vec![vec![waiting(frame, 1, 1)]], Some(10)),
            blob: queue(Vec::new(), Some(10)),
        };
        match fill_outcome(&mut queues, false, Some(e)) {
            Ok(dropped) => assert_eq!(dropped, expected),
            Err(_) => panic!("expected an outcome"),
        }
        assert!(queues.plain.is_empty());
    }
}

#[test]
fn given_transactions_are_checked() {
    let ok = explicit_head(transaction(TxType::EIP1559, 1, 0, 5), address(1), 3, Some(10), true);
    assert_eq!(ok.unwrap().tip, U256::from_u64(5));
    let mut poor = transaction(TxType::EIP1559, 1, 0, 5);
    poor.gas_fee_cap = U256::from_u64(1);
    assert_eq!(
        explicit_head(poor, address(1), 3, Some(10), true).unwrap().tip,
        U256::zero()
    );
    let token = transaction(TxType::FeeToken, 1, 0, 5);
    match explicit_head(token, address(1), 3, Some(10), true) {
        Err(ChainError::Custom(why)) => {
            assert_eq!(why, "transaction type 0x7d is not valid on L1")
        }
        _ => panic!("expected a refusal"),
    }
    assert!(explicit_head(token, address(1), 3, Some(10), false).is_ok());
}

#[test]
fn pool_filters_need_a_blob_fee_that_fits() {
    let (plain, blob) = mempool_filters(Some(7), U256::from_u64(3)).unwrap();
    assert!(plain.only_plain_txs && !plain.only_blob_txs);
    assert!(!blob.only_plain_txs && blob.only_blob_txs);
    assert_eq!(plain.base_fee, Some(7));
    assert_eq!(blob.blob_fee, Some(3));
    assert!(matches!(
        mempool_filters(Some(7), U256 { hi: 1, lo: 0 }),
        Err(ChainError::Custom(_))
    ));
}

#[test]
fn oldest_payload_makes_room() {
    let mut slots: PayloadSlots<u32> = PayloadSlots::new();
    for n in 0..MAX_PAYLOADS as u64 + 2 {
        slots.add_payload(n, n as u32);
    }
    assert_eq!(slots.slots.len(), MAX_PAYLOADS);
    assert!(matches!(slots.position(0), Err(ChainError::UnknownPayload)));
    let at = slots.position(5).unwrap();
    let (id, payload) = slots.take(at);
    assert_eq!((id, payload), (5, 5));
    slots.put_back(at, id, 50);
    assert_eq!(slots.position(5).unwrap(), at);
    assert_eq!(slots.take(at), (5, 50));
}

#[test]
fn payload_is_rebuilt_until_its_slot_ends() {
    let mut l = PayloadLoop::start(3);
    assert!(l.goes_on(0, false));
    assert!(!l.goes_on(0, true));
    assert!(!l.goes_on(SLOT_MILLIS, false));
    assert_eq!(l.remaining(1000), SLOT_MILLIS - 1000);
    assert_eq!(l.remaining(SLOT_MILLIS + 1), 0);
    assert!(!l.owes_final_build(3));
    assert!(l.owes_final_build(4));
    assert!(l.rebuilt(Rebuild::Built, 4));
    assert!(!l.owes_final_build(4));
}

#[test]
fn phases_of_a_build() {
    assert_eq!(
        build_phases(true, false, true, true),
        vec![
            BuildPhase::SystemOperations,
            BuildPhase::FillFromPool,
            BuildPhase::PostTransactions,
            BuildPhase::ExtractRequests,
            BuildPhase::Withdrawals,
            BuildPhase::Finalize,
        ]
    );
    assert_eq!(
        build_phases(false, true, false, false),
        vec![BuildPhase::FillExplicit, BuildPhase::Withdrawals, BuildPhase::Finalize]
    );
}

#[test]
fn header_without_base_fee_has_none() {
    let header = BlockHeader {
        parent_hash: hash(0),
        ommers_hash: hash(0),
        coinbase: address(0),
        state_root: hash(0),
        transactions_root: hash(0),
        receipts_root: hash(0),
        logs_bloom: Vec::new(),
        difficulty: U256::zero(),
        number: 1,
        gas_limit: 1000,
        gas_used: 0,
        timestamp: 0,
        extra_data: Vec::new(),
        prev_randao: hash(0),
        nonce: 0,
        base_fee_per_gas: None,
        withdrawals_root: None,
        blob_gas_used: None,
        excess_blob_gas: None,
        parent_beacon_block_root: None,
        requests_hash: None,
        block_access_list_hash: None,
        slot_number: None,
    };
    let withdrawal = Withdrawal { index: 0, validator_index: 0, address: address(1), amount: 1 };
    let block = Block {
        header,
        body: BlockBody { transactions: Vec::new(), withdrawals: Some(vec![withdrawal]) },
    };
    let c = PayloadBuildContext::new(block, &config(), U256::zero(), 0);
    assert_eq!(c.base_fee_per_gas(), None);
    assert_eq!(c.remaining_gas, 1000);
}
